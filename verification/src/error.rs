//! The configuration-resolution failure taxonomy.
//!
//! Every operation returns one of these typed failures rather than aborting;
//! the caller decides whether to stop. This module never terminates the
//! process and never logs.

use crate::crypto;
use crate::strutil::concat3;
use vstd::prelude::*;
use vstd::string::*;

verus! {

/// A failure while resolving the configuration.
#[derive(Debug)]
pub enum Error {
    /// A required field had neither a value nor a default.
    ConfigValueRequired { var: String },
    /// A value was present but failed type conversion; the original cause's
    /// description is preserved.
    ConfigValueParse { var: String, cause: String },
    /// The crypto engine failed while decrypting an encrypted field.
    Cryptography { cause: crypto::Error },
    /// A key file was missing or unreadable.
    KeyRead { file: String, cause: String },
}

impl Error {
    /// This failure reports variable `var` as required but absent.
    pub open spec fn is_missing(&self, var: Seq<char>) -> bool {
        match self {
            Error::ConfigValueRequired { var: v } => v@ == var,
            _ => false,
        }
    }

    /// This failure reports the value of `var` as unparsable.
    pub open spec fn is_parse_failure(&self, var: Seq<char>) -> bool {
        match self {
            Error::ConfigValueParse { var: v, .. } => v@ == var,
            _ => false,
        }
    }

    /// This failure wraps a crypto failure of kind `kind`.
    pub open spec fn is_crypto(&self, kind: crypto::ErrorKind) -> bool {
        match self {
            Error::Cryptography { cause } => cause.spec_kind() == kind,
            _ => false,
        }
    }

    /// This failure reports the key file `file` as unreadable.
    pub open spec fn is_key_read(&self, file: Seq<char>) -> bool {
        match self {
            Error::KeyRead { file: f, .. } => f@ == file,
            _ => false,
        }
    }

    /// A required-value failure for `var`.
    pub fn no_config_value(var: &str) -> (r: Error)
        ensures
            r.is_missing(var@),
    {
        Error::ConfigValueRequired { var: var.to_owned() }
    }

    /// A parse failure for `var`, preserving the cause's description.
    pub fn config_value_parse(var: &str, cause: String) -> (r: Error)
        ensures
            r.is_parse_failure(var@),
            r matches Error::ConfigValueParse { var: v, cause: c } && v@ == var@ && c == cause,
    {
        Error::ConfigValueParse { var: var.to_owned(), cause }
    }

    /// A key-file read failure for `file`.
    pub fn key_read(file: &str, cause: String) -> (r: Error)
        ensures
            r.is_key_read(file@),
            r matches Error::KeyRead { file: f, cause: c } && f@ == file@ && c == cause,
    {
        Error::KeyRead { file: file.to_owned(), cause }
    }

    /// The failure's description.
    pub open spec fn spec_describe(&self) -> Seq<char> {
        match self {
            Error::ConfigValueRequired { var } => "required config variable "@ + var@
                + " not found"@,
            Error::ConfigValueParse { var, cause } => "failed to parse value of "@ + var@ + ": "@
                + cause@,
            Error::Cryptography { cause } => "cryptographic failure: "@ + cause.spec_describe(),
            Error::KeyRead { file, cause } => "failed to read key from "@ + file@ + ": "@ + cause@,
        }
    }

    /// A human-readable description, for callers that log failures.
    pub fn describe(&self) -> (r: String)
        ensures
            r@ == self.spec_describe(),
    {
        let r = match self {
            Error::ConfigValueRequired { var } => concat3(
                "required config variable ",
                var.as_str(),
                " not found",
            ),
            Error::ConfigValueParse { var, cause } => {
                let head = concat3("failed to parse value of ", var.as_str(), ": ");
                concat3(head.as_str(), cause.as_str(), "")
            },
            Error::Cryptography { cause } => {
                let inner = cause.describe();
                concat3("cryptographic failure: ", inner.as_str(), "")
            },
            Error::KeyRead { file, cause } => {
                let head = concat3("failed to read key from ", file.as_str(), ": ");
                concat3(head.as_str(), cause.as_str(), "")
            },
        };
        proof {
            reveal_strlit("");
            assert(r@ =~= self.spec_describe());
        }
        r
    }
}

} // verus!
