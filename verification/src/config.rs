//! Settings of the bus, resolved from the values of three environment
//! variables. The caller reads the variables; an unset one is `None`.

use crate::decimal::{parse_u64, parsed_u64};
use vstd::prelude::*;
use vstd::string::StringExecFns;

verus! {

/// Names the variable that holds the address of the lattice host.
pub const LATTICE_HOST_KEY: &'static str = "LATTICE_HOST";

/// Where the lattice is looked for when no host is given: the loopback
/// address, for an anonymous local connection.
pub const DEFAULT_LATTICE_HOST: &'static str = "127.0.0.1";

/// Names the variable that holds the deadline of a call, in milliseconds.
pub const LATTICE_RPC_TIMEOUT_KEY: &'static str = "LATTICE_RPC_TIMEOUT_MILLIS";

/// How long a call waits for its reply when no deadline is given.
pub const DEFAULT_LATTICE_RPC_TIMEOUT_MILLIS: u64 = 500;

/// Names the variable that holds the path of a credentials file.
pub const LATTICE_CREDSFILE_KEY: &'static str = "LATTICE_CREDS_FILE";

/// The name under which the bus presents itself to the transport.
pub const LATTICE_CLIENT_NAME: &'static str = "waSCC Lattice";

/// The characters of an optional string.
pub open spec fn text_of(value: Option<String>) -> Option<Seq<char>> {
    match value {
        Some(text) => Some(text@),
        None => None,
    }
}

/// The setting that a variable gives: its value, or `default` where it is
/// unset or empty.
pub open spec fn setting_or(value: Option<Seq<char>>, default: Seq<char>) -> Seq<char> {
    match value {
        Some(text) => if text.len() == 0 {
            default
        } else {
            text
        },
        None => default,
    }
}

/// The deadline that the timeout variable gives: the number it holds, or
/// [`DEFAULT_LATTICE_RPC_TIMEOUT_MILLIS`] where it is unset, empty or not a
/// number that fits a `u64`.
pub open spec fn timeout_setting(value: Option<Seq<char>>) -> u64 {
    match value {
        Some(text) => match parsed_u64(text) {
            Some(millis) => millis,
            None => DEFAULT_LATTICE_RPC_TIMEOUT_MILLIS,
        },
        None => DEFAULT_LATTICE_RPC_TIMEOUT_MILLIS,
    }
}

/// Resolves a setting from the value of its variable.
pub fn get_env(value: Option<String>, default: &str) -> (setting: String)
    ensures
        setting@ == setting_or(text_of(value), default@),
{
    match value {
        Some(text) => {
            if text.as_str().is_empty() {
                String::from_str(default)
            } else {
                text
            }
        },
        None => String::from_str(default),
    }
}

/// Resolves the deadline of a call, in milliseconds, from the value of
/// [`LATTICE_RPC_TIMEOUT_KEY`]. A value that cannot be read is no error.
pub fn get_timeout(value: Option<String>) -> (millis: u64)
    ensures
        millis == timeout_setting(text_of(value)),
{
    match value {
        Some(text) => match parse_u64(text.as_str()) {
            Some(millis) => millis,
            None => DEFAULT_LATTICE_RPC_TIMEOUT_MILLIS,
        },
        None => DEFAULT_LATTICE_RPC_TIMEOUT_MILLIS,
    }
}

/// How the connection to the transport is to be opened.
#[derive(Clone, Debug, PartialEq, Eq)]
pub struct ConnectionOptions {
    /// Address of the lattice host.
    pub host: String,
    /// Path of the credentials file to authenticate with; `None` for an
    /// anonymous connection.
    pub credentials: Option<String>,
    /// Name that the client gives itself.
    pub name: String,
}

/// Resolves the connection options from the values of [`LATTICE_HOST_KEY`]
/// and [`LATTICE_CREDSFILE_KEY`]. The host falls back to
/// [`DEFAULT_LATTICE_HOST`]; a credentials variable that is set selects an
/// authenticated connection with its value as the path, whatever it holds.
pub fn get_connection_options(host: Option<String>, credentials: Option<String>) -> (options:
    ConnectionOptions)
    ensures
        options.host@ == setting_or(text_of(host), DEFAULT_LATTICE_HOST@),
        text_of(options.credentials) == text_of(credentials),
        options.name@ == LATTICE_CLIENT_NAME@,
{
    ConnectionOptions {
        host: get_env(host, DEFAULT_LATTICE_HOST),
        credentials,
        name: String::from_str(LATTICE_CLIENT_NAME),
    }
}

/// Whatever the timeout variable holds, a deadline comes out: the default
/// where the variable is unset or empty, and the number itself where it
/// holds one.
pub proof fn lemma_timeout_fallbacks(text: Seq<char>)
    ensures
        timeout_setting(None) == DEFAULT_LATTICE_RPC_TIMEOUT_MILLIS,
        timeout_setting(Some(Seq::<char>::empty())) == DEFAULT_LATTICE_RPC_TIMEOUT_MILLIS,
        parsed_u64(text) is None ==> timeout_setting(Some(text))
            == DEFAULT_LATTICE_RPC_TIMEOUT_MILLIS,
        parsed_u64(text) matches Some(millis) ==> timeout_setting(Some(text)) == millis,
        DEFAULT_LATTICE_RPC_TIMEOUT_MILLIS == 500,
{
    assert(crate::decimal::unsigned_part(Seq::<char>::empty()).len() == 0);
}

/// An unset or empty host variable selects the default host; any other
/// value is the host.
pub proof fn lemma_host_fallbacks(text: Seq<char>)
    ensures
        setting_or(None, DEFAULT_LATTICE_HOST@) == DEFAULT_LATTICE_HOST@,
        setting_or(Some(Seq::<char>::empty()), DEFAULT_LATTICE_HOST@) == DEFAULT_LATTICE_HOST@,
        text.len() > 0 ==> setting_or(Some(text), DEFAULT_LATTICE_HOST@) == text,
        DEFAULT_LATTICE_HOST@ == "127.0.0.1"@,
{
}

} // verus!
