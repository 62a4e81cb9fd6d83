//! Command-line options. Values given here take precedence over the
//! environment settings; the bootstrap turns a parse into overrides.

use vstd::prelude::*;
use crate::text::{keys_view, spec_parse_u16, split_tokens, parse_u16, split_raw, str_eq};

verus! {

/// The program's options, each optional.
pub struct Opt {
    /// Base URL for the Ollama service (overrides the environment).
    pub ollama_url: Option<String>,
    /// Comma-separated list of API keys (overrides all other sources).
    pub api_keys: Option<Vec<String>>,
    /// Path to a newline-/comma-separated file containing keys.
    pub api_keys_file: Option<String>,
    /// Path to a sqlite database with a key table.
    pub api_keys_sqlite: Option<String>,
    /// IP address to bind the proxy to.
    pub proxy_host: Option<String>,
    /// Port to bind the proxy to.
    pub proxy_port: Option<u16>,
}

/// The views of parsed options.
#[verifier::ext_equal]
pub struct OptModel {
    pub ollama_url: Option<Seq<char>>,
    pub api_keys: Option<Seq<Seq<char>>>,
    pub api_keys_file: Option<Seq<char>>,
    pub api_keys_sqlite: Option<Seq<char>>,
    pub proxy_host: Option<Seq<char>>,
    pub proxy_port: Option<u16>,
}

pub open spec fn opt_view(o: Opt) -> OptModel {
    OptModel {
        ollama_url: match o.ollama_url {
            Some(u) => Some(u@),
            None => None,
        },
        api_keys: match o.api_keys {
            Some(l) => Some(keys_view(l@)),
            None => None,
        },
        api_keys_file: match o.api_keys_file {
            Some(p) => Some(p@),
            None => None,
        },
        api_keys_sqlite: match o.api_keys_sqlite {
            Some(p) => Some(p@),
            None => None,
        },
        proxy_host: match o.proxy_host {
            Some(h) => Some(h@),
            None => None,
        },
        proxy_port: o.proxy_port,
    }
}

/// No options at all.
pub open spec fn no_options() -> OptModel {
    OptModel {
        ollama_url: None,
        api_keys: None,
        api_keys_file: None,
        api_keys_sqlite: None,
        proxy_host: None,
        proxy_port: None,
    }
}

/// How the arguments from position `i` on refine the options gathered so
/// far. Arguments come in flag-value pairs; a repeated or unknown flag, or
/// a flag without a value, is an error; the port value must be a decimal
/// 16-bit number; the key list is split at commas as it stands.
pub open spec fn spec_parse_args(args: Seq<String>, i: int, acc: OptModel) -> Option<OptModel>
    decreases args.len() - i,
{
    if i >= args.len() {
        Some(acc)
    } else if i + 1 >= args.len() {
        None
    } else {
        let f = args[i]@;
        let v = args[i + 1]@;
        if f == "--ollama-url"@ {
            if acc.ollama_url is Some {
                None
            } else {
                spec_parse_args(args, i + 2, OptModel { ollama_url: Some(v), ..acc })
            }
        } else if f == "--api-keys"@ {
            if acc.api_keys is Some {
                None
            } else {
                spec_parse_args(
                    args,
                    i + 2,
                    OptModel { api_keys: Some(split_tokens(v, false)), ..acc },
                )
            }
        } else if f == "--api-keys-file"@ {
            if acc.api_keys_file is Some {
                None
            } else {
                spec_parse_args(args, i + 2, OptModel { api_keys_file: Some(v), ..acc })
            }
        } else if f == "--api-keys-sqlite"@ {
            if acc.api_keys_sqlite is Some {
                None
            } else {
                spec_parse_args(args, i + 2, OptModel { api_keys_sqlite: Some(v), ..acc })
            }
        } else if f == "--proxy-host"@ {
            if acc.proxy_host is Some {
                None
            } else {
                spec_parse_args(args, i + 2, OptModel { proxy_host: Some(v), ..acc })
            }
        } else if f == "--proxy-port"@ {
            if acc.proxy_port is Some {
                None
            } else {
                match spec_parse_u16(v) {
                    Some(p) => spec_parse_args(args, i + 2, OptModel { proxy_port: Some(p), ..acc }),
                    None => None,
                }
            }
        } else {
            None
        }
    }
}

impl Opt {
    /// Parse the program's arguments; the first argument is the program
    /// name and is skipped.
    pub fn parse_from(args: &Vec<String>) -> (r: Option<Opt>)
        ensures
            (match r {
                Some(o) => spec_parse_args(args@, 1, no_options()) == Some(opt_view(o)),
                None => spec_parse_args(args@, 1, no_options()) is None,
            }),
    {
        let mut o = Opt {
            ollama_url: None,
            api_keys: None,
            api_keys_file: None,
            api_keys_sqlite: None,
            proxy_host: None,
            proxy_port: None,
        };
        proof {
            assert(opt_view(o) =~~= no_options());
        }
        let mut i: usize = 1;
        while i < args.len()
            invariant
                1 <= i,
                spec_parse_args(args@, 1, no_options()) == spec_parse_args(
                    args@,
                    i as int,
                    opt_view(o),
                ),
            decreases args@.len() - i,
        {
            if i + 1 >= args.len() {
                return None;
            }
            let flag = &args[i];
            let val = &args[i + 1];
            let ghost pre = opt_view(o);
            if str_eq(flag.as_str(), "--ollama-url") {
                if o.ollama_url.is_some() {
                    return None;
                }
                o.ollama_url = Some(val.clone());
                proof {
                    assert(opt_view(o) =~~= OptModel { ollama_url: Some(val@), ..pre });
                }
            } else if str_eq(flag.as_str(), "--api-keys") {
                if o.api_keys.is_some() {
                    return None;
                }
                o.api_keys = Some(split_raw(val.as_str(), false));
                proof {
                    assert(opt_view(o) =~~= OptModel {
                        api_keys: Some(split_tokens(val@, false)),
                        ..pre
                    });
                }
            } else if str_eq(flag.as_str(), "--api-keys-file") {
                if o.api_keys_file.is_some() {
                    return None;
                }
                o.api_keys_file = Some(val.clone());
                proof {
                    assert(opt_view(o) =~~= OptModel { api_keys_file: Some(val@), ..pre });
                }
            } else if str_eq(flag.as_str(), "--api-keys-sqlite") {
                if o.api_keys_sqlite.is_some() {
                    return None;
                }
                o.api_keys_sqlite = Some(val.clone());
                proof {
                    assert(opt_view(o) =~~= OptModel { api_keys_sqlite: Some(val@), ..pre });
                }
            } else if str_eq(flag.as_str(), "--proxy-host") {
                if o.proxy_host.is_some() {
                    return None;
                }
                o.proxy_host = Some(val.clone());
                proof {
                    assert(opt_view(o) =~~= OptModel { proxy_host: Some(val@), ..pre });
                }
            } else if str_eq(flag.as_str(), "--proxy-port") {
                if o.proxy_port.is_some() {
                    return None;
                }
                match parse_u16(val.as_str()) {
                    Some(p) => {
                        o.proxy_port = Some(p);
                        proof {
                            assert(opt_view(o) =~~= OptModel { proxy_port: Some(p), ..pre });
                        }
                    },
                    None => {
                        return None;
                    },
                }
            } else {
                return None;
            }
            i = i + 2;
        }
        Some(o)
    }
}

} // verus!
