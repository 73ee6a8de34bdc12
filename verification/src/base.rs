//! The crate's general error, and the connection settings from which the base
//! URL of every request is derived.

use vstd::prelude::*;
use vstd::string::*;

verus! {

/// An error of this crate that has no more specific type.
#[derive(Debug, Clone)]
pub struct RomadError {
    msg: String,
}

/// The text as which a [`RomadError`] with the given message is shown.
pub open spec fn error_text(msg: Seq<char>) -> Seq<char> {
    "RomadError: "@ + msg
}

impl View for RomadError {
    type V = Seq<char>;

    /// The error's message.
    closed spec fn view(&self) -> Seq<char> {
        self.msg@
    }
}

impl RomadError {
    /// An error with the given message.
    pub fn new(msg: String) -> (e: RomadError)
        ensures
            e@ == msg@,
    {
        RomadError { msg: msg }
    }

    /// The error as a line of text: its type's name, then the message.
    pub fn to_string(&self) -> (text: String)
        ensures
            text@ == error_text(self@),
    {
        let mut text = String::from_str("RomadError: ");
        text.append(self.msg.as_str());
        text
    }
}

/// Settings that identify one API endpoint.
///
/// `token` and `timeout` are kept beside the address for the day they are
/// needed. Nothing reads them: no request carries the token, and no request
/// is cut off after the timeout.
pub struct Connection<'a> {
    pub address: &'a str,
    pub port: &'a str,
    pub token: Option<&'a str>,
    pub timeout: isize,
    pub version: &'a str,
}

/// The text `{address}:{port}/v{version}`.
pub open spec fn base_url_of(address: Seq<char>, port: Seq<char>, version: Seq<char>) -> Seq<char> {
    address + ":"@ + port + "/v"@ + version
}

impl<'a> Connection<'a> {
    /// The base URL of this connection, as a sequence of characters.
    pub open spec fn spec_base_url(&self) -> Seq<char> {
        base_url_of(self.address@, self.port@, self.version@)
    }

    /// Builds the base URL, to which every resource path is appended. The
    /// fields are joined as they are: nothing is trimmed, checked or escaped.
    pub fn build_base_url(&self) -> (url: String)
        ensures
            url@ == self.spec_base_url(),
    {
        let mut url = String::from_str(self.address);
        url.append(":");
        url.append(self.port);
        url.append("/v");
        url.append(self.version);
        url
    }
}

impl Default for Connection<'_> {
    /// The settings of an instance on this machine: `http://localhost`, port
    /// 4646, API version 1, no token, no timeout.
    fn default() -> (c: Self)
        ensures
            c.address@ == "http://localhost"@,
            c.port@ == "4646"@,
            c.token is None,
            c.timeout == 0,
            c.version@ == "1"@,
    {
        Connection {
            address: "http://localhost",
            port: "4646",
            token: None,
            timeout: 0,
            version: "1",
        }
    }
}

/// The default settings give the base URL `http://localhost:4646/v1`.
pub proof fn lemma_default_base_url()
    ensures
        base_url_of("http://localhost"@, "4646"@, "1"@) == "http://localhost:4646/v1"@,
{
    reveal_strlit("http://localhost");
    reveal_strlit("4646");
    reveal_strlit("1");
    reveal_strlit(":");
    reveal_strlit("/v");
    reveal_strlit("http://localhost:4646/v1");
    assert(base_url_of("http://localhost"@, "4646"@, "1"@) =~= "http://localhost:4646/v1"@);
}

} // verus!
