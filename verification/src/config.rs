//! Application configuration, resolved once at startup: the key set, the
//! upstream base URL and the listening address, with the documented
//! precedence among key sources (sqlite table, then key file, then the
//! inline key list). Reading the environment, files and the database is the
//! bootstrap's work; the decisions live here.

use vstd::prelude::*;
use crate::state::clone_keys;
use crate::text::{keys_view, spec_keys, spec_parse_u16, parse_env_keys, parse_u16};

verus! {

/// Resolved configuration. The listening address is held as host and port;
/// the bootstrap joins and parses them when it binds.
pub struct AppConfig {
    /// List of valid API keys.
    pub valid_keys: Vec<String>,
    /// Base URL for the Ollama service (no trailing slash).
    pub ollama_url: String,
    /// Host the proxy should listen on.
    pub proxy_host: String,
    /// Port the proxy should listen on.
    pub proxy_port: u16,
}

/// The environment values the bootstrap read; `None` stands for an unset
/// variable.
pub struct EnvSettings {
    pub ollama_url: Option<String>,
    pub proxy_host: Option<String>,
    pub proxy_port: Option<String>,
    pub api_keys_sqlite: Option<String>,
    pub api_keys_file: Option<String>,
    pub api_keys: Option<String>,
}

/// Which key source still has to be read before the configuration is
/// complete; the read itself is the bootstrap's.
pub enum KeyPlan {
    Sqlite(String),
    File(String),
    Ready,
}

impl AppConfig {
    /// Resolve the configuration from the environment values: defaults for
    /// the upstream URL and the listening address, the port falling back to
    /// its default when it does not parse, and the documented key-source
    /// precedence.
    pub fn load(env: &EnvSettings) -> (res: (AppConfig, KeyPlan))
        ensures
            res.0.ollama_url@ == (match env.ollama_url {
                Some(u) => u@,
                None => "http://127.0.0.1:11434"@,
            }),
            res.0.proxy_host@ == (match env.proxy_host {
                Some(h) => h@,
                None => "0.0.0.0"@,
            }),
            res.0.proxy_port == (match env.proxy_port {
                Some(p) => (match spec_parse_u16(p@) {
                    Some(v) => v,
                    None => 3000u16,
                }),
                None => 3000u16,
            }),
            (match env.api_keys_sqlite {
                Some(p) => res.1 matches KeyPlan::Sqlite(q) && q@ == p@
                    && res.0.valid_keys@.len() == 0,
                None => (match env.api_keys_file {
                    Some(p) => res.1 matches KeyPlan::File(q) && q@ == p@
                        && res.0.valid_keys@.len() == 0,
                    None => res.1 is Ready && keys_view(res.0.valid_keys@) == spec_keys(
                        (match env.api_keys {
                            Some(k) => k@,
                            None => Seq::<char>::empty(),
                        }),
                        false,
                    ),
                }),
            }),
    {
        let ollama_url = match &env.ollama_url {
            Some(u) => u.clone(),
            None => String::from_str("http://127.0.0.1:11434"),
        };
        let proxy_host = match &env.proxy_host {
            Some(h) => h.clone(),
            None => String::from_str("0.0.0.0"),
        };
        let proxy_port: u16 = match &env.proxy_port {
            Some(p) => match parse_u16(p.as_str()) {
                Some(v) => v,
                None => 3000,
            },
            None => 3000,
        };
        let (valid_keys, plan): (Vec<String>, KeyPlan) = match &env.api_keys_sqlite {
            Some(p) => (Vec::new(), KeyPlan::Sqlite(p.clone())),
            None => match &env.api_keys_file {
                Some(p) => (Vec::new(), KeyPlan::File(p.clone())),
                None => {
                    let ks = match &env.api_keys {
                        Some(k) => parse_env_keys(k.as_str()),
                        None => {
                            proof {
                                reveal_strlit("");
                                assert(""@ =~= Seq::<char>::empty());
                            }
                            parse_env_keys("")
                        },
                    };
                    (ks, KeyPlan::Ready)
                },
            },
        };
        (AppConfig { valid_keys, ollama_url, proxy_host, proxy_port }, plan)
    }
}

/// Values supplied on the command line; non-`None` values take precedence
/// over what the environment provided.
pub struct ConfigOverrides {
    pub ollama_url: Option<String>,
    pub proxy_host: Option<String>,
    pub proxy_port: Option<u16>,
    pub api_keys_sqlite: Option<String>,
    pub api_keys_file: Option<String>,
    pub api_keys: Option<Vec<String>>,
}

impl Default for ConfigOverrides {
    /// No overrides.
    fn default() -> (r: Self)
        ensures
            r.ollama_url is None,
            r.proxy_host is None,
            r.proxy_port is None,
            r.api_keys_sqlite is None,
            r.api_keys_file is None,
            r.api_keys is None,
    {
        ConfigOverrides {
            ollama_url: None,
            proxy_host: None,
            proxy_port: None,
            api_keys_sqlite: None,
            api_keys_file: None,
            api_keys: None,
        }
    }
}

impl AppConfig {
    /// Apply the non-`None` overrides. Key precedence is sqlite over file
    /// over the explicit list; the keys of a sqlite or file override are
    /// read by the bootstrap and handed in as `loaded_keys`.
    pub fn apply_overrides(
        &mut self,
        overrides: &ConfigOverrides,
        loaded_keys: Option<Vec<String>>,
    )
        requires
            (overrides.api_keys_sqlite is Some || overrides.api_keys_file is Some)
                ==> loaded_keys is Some,
        ensures
            final(self).ollama_url@ == (match overrides.ollama_url {
                Some(u) => u@,
                None => old(self).ollama_url@,
            }),
            final(self).proxy_host@ == (match overrides.proxy_host {
                Some(h) => h@,
                None => old(self).proxy_host@,
            }),
            final(self).proxy_port == (match overrides.proxy_port {
                Some(p) => p,
                None => old(self).proxy_port,
            }),
            (overrides.api_keys_sqlite is Some || overrides.api_keys_file is Some) ==> (
            loaded_keys matches Some(k) ==> final(self).valid_keys@ == k@),
            (overrides.api_keys_sqlite is None && overrides.api_keys_file is None) ==> (
            overrides.api_keys matches Some(list) ==> final(self).valid_keys@ == list@),
            (overrides.api_keys_sqlite is None && overrides.api_keys_file is None
                && overrides.api_keys is None) ==> final(self).valid_keys@ == old(
                self,
            ).valid_keys@,
    {
        if let Some(u) = &overrides.ollama_url {
            self.ollama_url = u.clone();
        }
        if let Some(h) = &overrides.proxy_host {
            self.proxy_host = h.clone();
        }
        if let Some(p) = &overrides.proxy_port {
            self.proxy_port = *p;
        }
        if overrides.api_keys_sqlite.is_some() || overrides.api_keys_file.is_some() {
            match loaded_keys {
                Some(k) => {
                    self.valid_keys = k;
                },
                None => {
                    proof {
                        assert(false);
                    }
                },
            }
        } else if let Some(list) = &overrides.api_keys {
            self.valid_keys = clone_keys(list);
        }
    }
}

} // verus!
