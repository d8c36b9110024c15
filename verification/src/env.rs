//! Environment variable source abstraction used by the config loader.
//!
//! Every environment read of the configuration goes through an `&impl Env`,
//! so the layering rules can be exercised with an in-memory [`MapEnv`].
//! [`env_non_empty`] and [`env_non_empty_u64`] treat empty strings as unset
//! and parse `u64` values, matching how every `MYAPP_*` variable is read.

use vstd::prelude::*;
use crate::textmap::TextMap;
use crate::text::{parse_u64, parse_unsigned, IntErrorKind};

verus! {

/// Source of configuration environment variables.
pub trait Env {
    /// The value this source holds for `key`, if any.
    spec fn lookup(&self, key: Seq<char>) -> Option<Seq<char>>;

    /// Returns the raw value for `key`, or `None` if unset. Empty strings
    /// round-trip as `Some("")`.
    fn get(&self, key: &str) -> (r: Option<String>)
        ensures
            match r {
                Some(v) => self.lookup(key@) == Some(v@),
                None => self.lookup(key@) is None,
            },
    ;
}

/// In-memory [`Env`]. Keys absent from the map read as unset; empty values
/// round-trip as `Some("")`.
pub struct MapEnv {
    vars: TextMap<String>,
}

impl MapEnv {
    /// The variables, by name.
    pub closed spec fn vars_view(&self) -> Map<Seq<char>, Seq<char>> {
        self.vars@.map_values(|v: String| v@)
    }

    /// Returns a new empty `MapEnv`.
    pub fn new() -> (e: Self)
        ensures
            e.vars_view() == Map::<Seq<char>, Seq<char>>::empty(),
    {
        let e = MapEnv { vars: TextMap::new() };
        assert(e.vars_view() =~= Map::<Seq<char>, Seq<char>>::empty());
        e
    }

    /// Sets `key` to `value`, returning `self` so calls chain.
    pub fn with(self, key: &str, value: &str) -> (e: Self)
        ensures
            e.vars_view() == self.vars_view().insert(key@, value@),
    {
        let MapEnv { mut vars } = self;
        vars.insert(String::from_str(key), String::from_str(value));
        let e = MapEnv { vars };
        assert(e.vars_view() =~= self.vars_view().insert(key@, value@));
        e
    }
}

impl Env for MapEnv {
    open spec fn lookup(&self, key: Seq<char>) -> Option<Seq<char>> {
        if self.vars_view().contains_key(key) {
            Some(self.vars_view()[key])
        } else {
            None
        }
    }

    fn get(&self, key: &str) -> (r: Option<String>) {
        match self.vars.get(key) {
            Some(v) => Some(v.clone()),
            None => None,
        }
    }
}

/// The value of `key` in `env` when it is set and non-empty.
pub open spec fn env_value<E: Env>(env: &E, key: Seq<char>) -> Option<Seq<char>> {
    match env.lookup(key) {
        Some(v) => if v.len() > 0 { Some(v) } else { None },
        None => None,
    }
}

/// The value of `key` in `env` parsed as a `u64`, when set, non-empty and valid.
pub open spec fn env_u64<E: Env>(env: &E, key: Seq<char>) -> Option<u64> {
    match env_value(env, key) {
        Some(v) => match parse_unsigned(v, u64::MAX as int) {
            Ok(n) => Some(n as u64),
            Err(_) => None,
        },
        None => None,
    }
}

/// `value` unless it is absent or empty.
pub fn non_empty(value: Option<String>) -> (r: Option<String>)
    ensures
        match value {
            Some(v) => if v@.len() > 0 { r == Some(v) } else { r is None },
            None => r is None,
        },
{
    match value {
        Some(v) => if v.as_str().is_empty() { None } else { Some(v) },
        None => None,
    }
}

/// Returns the value of `key` from `env` if it is set and non-empty.
///
/// Empty strings count as unset, so a `FOO=` line in a `.env` file does not
/// clobber a value coming from TOML or defaults.
pub fn env_non_empty<E: Env>(env: &E, key: &str) -> (r: Option<String>)
    ensures
        match r {
            Some(v) => env_value(env, key@) == Some(v@),
            None => env_value(env, key@) is None,
        },
{
    non_empty(env.get(key))
}

/// Returns the value of `key` from `env` parsed as `u64`, if set and valid.
///
/// Unset, empty, or non-numeric values give `None`.
pub fn env_non_empty_u64<E: Env>(env: &E, key: &str) -> (r: Option<u64>)
    ensures
        r == env_u64(env, key@),
{
    match env_non_empty(env, key) {
        Some(v) => match parse_u64(v.as_str()) {
            Ok(n) => Some(n),
            Err(_) => None,
        },
        None => None,
    }
}

} // verus!
