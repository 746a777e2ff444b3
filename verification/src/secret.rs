//! A string wrapper for secret values.
//!
//! The wrapper deliberately has no formatting path at all (no `Debug`, no
//! `Display`), so a secret can never leak through default stringification;
//! access to the value is only through the explicit [`SecretString::expose_secret`].

use vstd::prelude::*;

verus! {

/// A string whose content is deliberate to read and impossible to print.
pub struct SecretString {
    value: String,
}

impl View for SecretString {
    type V = Seq<char>;

    closed spec fn view(&self) -> Seq<char> {
        self.value@
    }
}

impl SecretString {
    /// Wrap `value` as a secret.
    pub fn new(value: String) -> (r: SecretString)
        ensures
            r@ == value@,
    {
        SecretString { value }
    }

    /// Deliberately read the wrapped value.
    pub fn expose_secret(&self) -> (r: &String)
        ensures
            r@ == self@,
    {
        &self.value
    }
}

} // verus!
