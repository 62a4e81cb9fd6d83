//! The process-wide, read-only bundle handed to every request: the resolved
//! key set and the upstream base URL. The serving layer pairs it with its
//! pooled outbound client, which never enters the verified core.

use vstd::prelude::*;
use crate::config::AppConfig;

verus! {

/// Shared state constructed once at startup and never mutated.
#[derive(Clone)]
pub struct AppState {
    pub valid_keys: Vec<String>,
    pub ollama_url: String,
}

/// An element-wise copy of the key list.
pub(crate) fn clone_keys(keys: &Vec<String>) -> (r: Vec<String>)
    ensures
        r@ == keys@,
{
    let mut r: Vec<String> = Vec::new();
    let mut i: usize = 0;
    while i < keys.len()
        invariant
            i <= keys@.len(),
            r@ == keys@.take(i as int),
        decreases keys@.len() - i,
    {
        r.push(keys[i].clone());
        proof {
            assert(r@ =~= keys@.take(i + 1));
        }
        i = i + 1;
    }
    proof {
        assert(keys@.take(keys@.len() as int) =~= keys@);
    }
    r
}

impl AppState {
    /// Bundle the resolved configuration for the request handlers.
    pub fn new(cfg: &AppConfig) -> (s: Self)
        ensures
            s.valid_keys@ == cfg.valid_keys@,
            s.ollama_url@ == cfg.ollama_url@,
    {
        AppState { valid_keys: clone_keys(&cfg.valid_keys), ollama_url: cfg.ollama_url.clone() }
    }
}

} // verus!
