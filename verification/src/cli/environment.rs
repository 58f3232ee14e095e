//! The environment of the command line client.
use vstd::prelude::*;
use vstd::string::StrSliceExecFns;

use crate::cli::error::CliError;
use crate::text::{joined, trim, trimmed};
use crate::web_address::{
    address_with_path, parse_address, parsed_address, set_path, Address, AddressParts, TOO_LONG,
};

verus! {

/// Where the daemon is when nothing else is said.
pub const DEFAULT_BASE_URL: &'static str = "http://127.0.0.1:17330";

/// What the environment says about the daemon.
#[derive(Debug)]
pub struct Environment {
    pub base_url: Option<String>,
    pub api_token: Option<String>,
}

/// Where the daemon is and with which token it is called.
#[derive(Debug)]
pub struct ResolvedEnvironment {
    pub base_url: String,
    pub api_token: String,
}

/// The text of a variable, or an empty one where it is not set.
pub open spec fn trimmed_value(value: Option<String>) -> Seq<char> {
    match value {
        Some(value) => trimmed(value@),
        None => Seq::empty(),
    }
}

/// What is wrong with a base address, if anything is.
pub open spec fn base_fault(address: Result<AddressParts, Seq<char>>) -> Option<Seq<char>> {
    match address {
        Err(text) => Some("SEARCH_BASE_URL is invalid: "@ + text),
        Ok(address) => if address.query is Some || address.fragment is Some {
            Some("SEARCH_BASE_URL must not contain a query string or fragment"@)
        } else if !ends_in_slash(address.path) && !address.has_room_for_slash() {
            Some("SEARCH_BASE_URL is invalid: "@ + TOO_LONG@)
        } else {
            None
        },
    }
}

/// Whether a path ends in a slash.
pub open spec fn ends_in_slash(path: Seq<char>) -> bool {
    path.len() > 0 && path.last() == '/'
}

/// Takes a base address, or says what is wrong with it.
pub fn usable_base(address: Result<Address, String>) -> (result: Result<Address, CliError>)
    ensures
        match base_fault(
            match address {
                Ok(address) => Ok(address@),
                Err(text) => Err(text@),
            },
        ) {
            Some(message) => {
                &&& result matches Err(error)
                &&& error.is_usage(message)
            },
            None => result == Ok::<Address, CliError>(address->Ok_0),
        },
{
    match address {
        Err(text) => Err(CliError::usage(joined("SEARCH_BASE_URL is invalid: ", text.as_str()))),
        Ok(address) => {
            if address.query.is_some() || address.fragment.is_some() {
                Err(
                    CliError::usage(
                        "SEARCH_BASE_URL must not contain a query string or fragment".to_owned(),
                    ),
                )
            } else if !has_final_slash(address.path.as_str()) && !address.can_take_slash() {
                Err(CliError::usage(joined("SEARCH_BASE_URL is invalid: ", TOO_LONG)))
            } else {
                Ok(address)
            }
        },
    }
}

/// Tells whether a path ends in a slash.
pub fn has_final_slash(path: &str) -> (result: bool)
    ensures
        result == ends_in_slash(path@),
{
    let length = path.unicode_len();
    length > 0 && path.get_char(length - 1) == '/'
}

impl Environment {
    /// The text of the base address that is used.
    pub open spec fn base_text(self) -> Seq<char> {
        let text = trimmed_value(self.base_url);
        if text.len() == 0 {
            DEFAULT_BASE_URL@
        } else {
            text
        }
    }

    /// Finds out where the daemon is and with which token it is called.
    pub fn resolve(self) -> (result: Result<ResolvedEnvironment, CliError>)
        ensures
            if trimmed_value(self.api_token).len() == 0 {
                &&& result matches Err(error)
                &&& error.is_usage("SEARCH_API_KEY is required"@)
            } else {
                let address = parsed_address(self.base_text());
                match base_fault(address) {
                    Some(message) => {
                        &&& result matches Err(error)
                        &&& error.is_usage(message)
                    },
                    None => {
                        let path = address->Ok_0.path;
                        &&& result matches Ok(resolved)
                        &&& resolved.api_token@ == trimmed_value(self.api_token)
                        &&& resolved.base_url@ == if ends_in_slash(path) {
                            address->Ok_0.text
                        } else {
                            address_with_path(self.base_text(), path.push('/'))
                        }
                        &&& path.len() > 0 || !address->Ok_0.opaque ==> ends_in_slash(
                            resolved.base_url@,
                        )
                    },
                }
            },
    {
        let api_token: String = match &self.api_token {
            Some(value) => trim(value.as_str()).to_owned(),
            None => String::new(),
        };
        if api_token.as_str().is_empty() {
            return Err(CliError::usage("SEARCH_API_KEY is required".to_owned()));
        }
        let given = match &self.base_url {
            Some(value) => trim(value.as_str()),
            None => "",
        };
        proof {
            reveal_strlit("");
        }
        let raw = if given.is_empty() {
            DEFAULT_BASE_URL
        } else {
            given
        };
        match usable_base(parse_address(raw)) {
            Ok(address) => {
                if has_final_slash(address.path.as_str()) {
                    return Ok(ResolvedEnvironment { base_url: address.text, api_token });
                }
                let path = joined(address.path.as_str(), "/");
                proof {
                    reveal_strlit("/");
                    assert(path@ =~= address.path@.push('/'));
                }
                Ok(ResolvedEnvironment { base_url: set_path(raw, path.as_str()), api_token })
            },
            Err(error) => Err(error),
        }
    }
}

} // verus!
