//! Minimal secret-string wrapper that keeps sensitive values out of debug
//! output. Redaction covers rendering only: the value is stored as a plain
//! `String` and is not zeroed on drop.

use vstd::prelude::*;

verus! {

/// Holds a sensitive string such as an API key, bearer token, or PIN.
///
/// Its debug rendering never shows the value. Read the underlying value
/// explicitly with [`expose_secret`](SecretString::expose_secret).
pub struct SecretString(String);

impl Clone for SecretString {
    fn clone(&self) -> (r: Self)
        ensures
            r == *self,
    {
        SecretString(self.0.clone())
    }
}

impl View for SecretString {
    type V = Seq<char>;

    closed spec fn view(&self) -> Seq<char> {
        self.0@
    }
}

/// The debug rendering of every secret.
pub open spec fn redacted_debug() -> Seq<char> {
    "SecretString([REDACTED])"@
}

impl SecretString {
    /// Wraps `value`.
    pub fn new(value: String) -> (s: Self)
        ensures
            s@ == value@,
    {
        SecretString(value)
    }

    /// Returns the underlying secret. Use sparingly and never log the result.
    pub fn expose_secret(&self) -> (r: &str)
        ensures
            r@ == self@,
    {
        self.0.as_str()
    }

    /// The debug rendering, `SecretString([REDACTED])`, whatever the value.
    pub fn debug_text(&self) -> (r: String)
        ensures
            r@ == redacted_debug(),
    {
        String::from_str("SecretString([REDACTED])")
    }
}

impl From<String> for SecretString {
    fn from(value: String) -> (s: Self)
        ensures
            s@ == value@,
    {
        SecretString(value)
    }
}

impl vstd::std_specs::convert::FromSpecImpl<String> for SecretString {
    open spec fn obeys_from_spec() -> bool {
        true
    }

    closed spec fn from_spec(v: String) -> Self {
        SecretString(v)
    }
}

impl<'a> From<&'a str> for SecretString {
    fn from(value: &'a str) -> (s: Self)
        ensures
            s@ == value@,
    {
        SecretString(String::from_str(value))
    }
}

impl<'a> vstd::std_specs::convert::FromSpecImpl<&'a str> for SecretString {
    open spec fn obeys_from_spec() -> bool {
        false
    }

    open spec fn from_spec(v: &'a str) -> Self {
        choose|s: SecretString| s@ == v@
    }
}

} // verus!
