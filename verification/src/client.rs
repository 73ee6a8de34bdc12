//! The client: what it asks of the API, and what it makes of the answers.
//!
//! Sending a request is the caller's part. The client says which request to
//! send, and turns what came back, or the failure to get anything back, into
//! the result of the call.

use crate::base::Connection;
use crate::jobs::{job_views, Job};
use crate::json::json_document;
use crate::decode::{jobs_from_text, ParseError};
use crate::schema::{fault_text, jobs_of};
use vstd::prelude::*;
use vstd::string::*;

verus! {

/// At which step a call of the client failed.
#[derive(Clone, Copy, Debug, PartialEq, Eq)]
pub enum ClientErrorKind {
    /// The HTTP transport could not be set up.
    Build,
    /// The request was not answered: no connection, no name, a broken body.
    Transport,
    /// An answer came, and it is not what the schema describes.
    Parse,
    /// An error that was made from a message alone.
    Other,
}

/// An error of the client: the step that failed, and a message.
#[derive(Debug, Clone)]
pub struct RomadClientError {
    kind: ClientErrorKind,
    msg: String,
}

/// The mathematical value of a [`RomadClientError`].
pub struct ClientFault {
    pub kind: ClientErrorKind,
    pub msg: Seq<char>,
}

impl View for RomadClientError {
    type V = ClientFault;

    closed spec fn view(&self) -> ClientFault {
        ClientFault { kind: self.kind, msg: self.msg@ }
    }
}

/// The error of a transport that could not be set up.
pub open spec fn build_fault() -> ClientFault {
    ClientFault { kind: ClientErrorKind::Build, msg: "unable to build client"@ }
}

/// The error of a request that was not answered.
pub open spec fn transport_fault(description: Seq<char>) -> ClientFault {
    ClientFault { kind: ClientErrorKind::Transport, msg: "Unable to list jobs "@ + description }
}

/// The error of an answer that is no list of jobs.
pub open spec fn parse_fault(description: Seq<char>) -> ClientFault {
    ClientFault {
        kind: ClientErrorKind::Parse,
        msg: "Unable to convert string to jobs "@ + description,
    }
}

/// The text as which an error with the given message is shown.
pub open spec fn client_error_text(msg: Seq<char>) -> Seq<char> {
    "RomadClientError: "@ + msg
}

impl RomadClientError {
    /// An error with the given message and no step.
    pub fn new(msg: String) -> (e: RomadClientError)
        ensures
            e@ == (ClientFault { kind: ClientErrorKind::Other, msg: msg@ }),
    {
        RomadClientError { kind: ClientErrorKind::Other, msg: msg }
    }

    /// The error of a transport that could not be set up. The message is
    /// fixed: the cause is not part of it.
    pub fn build() -> (e: RomadClientError)
        ensures
            e@ == build_fault(),
    {
        RomadClientError {
            kind: ClientErrorKind::Build,
            msg: String::from_str("unable to build client"),
        }
    }

    /// The error of a request that was not answered, from the transport's
    /// description of the failure.
    pub fn transport(description: &str) -> (e: RomadClientError)
        ensures
            e@ == transport_fault(description@),
    {
        let mut msg = String::from_str("Unable to list jobs ");
        msg.append(description);
        RomadClientError { kind: ClientErrorKind::Transport, msg }
    }

    /// The error of an answer that is no list of jobs.
    pub fn parse(cause: &ParseError) -> (e: RomadClientError)
        ensures
            e@ == parse_fault(cause.spec_description()),
    {
        let mut msg = String::from_str("Unable to convert string to jobs ");
        let description = cause.description();
        msg.append(description.as_str());
        RomadClientError { kind: ClientErrorKind::Parse, msg }
    }

    /// The step that failed.
    pub fn kind(&self) -> (k: ClientErrorKind)
        ensures
            k == self@.kind,
    {
        self.kind
    }

    /// The error as a line of text: its type's name, then the message.
    pub fn to_string(&self) -> (text: String)
        ensures
            text@ == client_error_text(self@.msg),
    {
        let mut text = String::from_str("RomadClientError: ");
        text.append(self.msg.as_str());
        text
    }
}

/// `reqwest::Client`, the handle of the HTTP transport.
#[verifier::external_type_specification]
#[verifier::external_body]
pub struct ExTransport(reqwest::Client);

/// `reqwest::Error`, the transport's error.
#[verifier::external_type_specification]
#[verifier::external_body]
pub struct ExTransportError(reqwest::Error);

/// `reqwest::Client::builder` and `reqwest::ClientBuilder::build`, with no
/// setting changed. Whether a handle comes back depends on the machine, so
/// nothing is claimed of the result.
#[verifier::external_body]
fn build_transport() -> Result<reqwest::Client, reqwest::Error> {
    reqwest::Client::builder().build()
}

/// A filter that a call can name and that no request carries.
#[derive(Clone, Copy, Debug, PartialEq, Eq)]
pub enum Filter {
    Namespace,
    Prefix,
}

impl Filter {
    /// The warning that is due when the filter was named: the listing goes
    /// on without it.
    pub fn warning(&self) -> (text: &'static str)
        ensures
            text@ == match *self {
                Filter::Namespace =>
                    "Listing jobs by namespace is not yet implemented, defaulting to no specified namespace"@,
                Filter::Prefix =>
                    "Listing jobs by prefix is not yet implemented, defaulting to no prefix"@,
            },
    {
        match self {
            Filter::Namespace =>
                "Listing jobs by namespace is not yet implemented, defaulting to no specified namespace",
            Filter::Prefix => "Listing jobs by prefix is not yet implemented, defaulting to no prefix",
        }
    }
}

/// One request: a `GET` of the URL, with no query, no body and no header of
/// the client's. The filters that the call named are listed for a warning
/// each. They change nothing in what is sent.
#[derive(Debug, PartialEq, Eq)]
pub struct Request {
    pub url: String,
    pub ignored: Vec<Filter>,
}

/// The filters that a call named, the namespace before the prefix.
pub open spec fn named_filters(prefix: bool, namespace: bool) -> Seq<Filter> {
    (if namespace {
        seq![Filter::Namespace]
    } else {
        Seq::<Filter>::empty()
    }) + (if prefix {
        seq![Filter::Prefix]
    } else {
        Seq::<Filter>::empty()
    })
}

/// The URL under which jobs are listed.
pub open spec fn jobs_url_of(base_url: Seq<char>) -> Seq<char> {
    base_url + "/jobs"@
}

/// The URL under which allocations are listed.
pub open spec fn allocations_url_of(base_url: Seq<char>) -> Seq<char> {
    base_url + "/allocations"@
}

/// The paths that are appended to the base URL hold no question mark: where
/// the base URL has no query, the URL of a request has none.
pub proof fn lemma_requests_have_no_query(base_url: Seq<char>)
    requires
        !base_url.contains('?'),
    ensures
        !jobs_url_of(base_url).contains('?'),
        !allocations_url_of(base_url).contains('?'),
{
    reveal_strlit("/jobs");
    reveal_strlit("/allocations");
    let jobs = jobs_url_of(base_url);
    assert forall|i: int| 0 <= i < jobs.len() implies jobs[i] != '?' by {
        if i < base_url.len() {
            assert(base_url.contains(base_url[i]));
        } else {
            assert(jobs[i] == "/jobs"@[i - base_url.len()]);
        }
    }
    let allocations = allocations_url_of(base_url);
    assert forall|i: int| 0 <= i < allocations.len() implies allocations[i] != '?' by {
        if i < base_url.len() {
            assert(base_url.contains(base_url[i]));
        } else {
            assert(allocations[i] == "/allocations"@[i - base_url.len()]);
        }
    }
}

/// A client of one API endpoint. The base URL is fixed when the client is
/// made.
pub struct RomadClient {
    base_url: String,
    client: reqwest::Client,
}

impl RomadClient {
    /// The base URL of this client, as a sequence of characters.
    pub closed spec fn spec_base_url(&self) -> Seq<char> {
        self.base_url@
    }

    /// The transport handle of this client.
    pub closed spec fn spec_client(&self) -> reqwest::Client {
        self.client
    }

    /// A client for the given address and port, with API version 1. The
    /// token is taken and not used.
    pub fn new(
        address: &'static str,
        port: &'static str,
        token: Option<&'static str>,
    ) -> (r: Result<RomadClient, RomadClientError>)
        ensures
            match r {
                Ok(client) => client.spec_base_url() == crate::base::base_url_of(
                    address@,
                    port@,
                    "1"@,
                ),
                Err(e) => e@ == build_fault(),
            },
    {
        let connection: Connection = Connection { address, port, token, timeout: 0, version: "1" };
        RomadClient::from_connection(connection)
    }

    /// A client for the given connection. Setting up the transport may fail;
    /// where it does not, the client's base URL is the connection's.
    pub fn from_connection(connection: Connection) -> (r: Result<RomadClient, RomadClientError>)
        ensures
            match r {
                Ok(client) => client.spec_base_url() == connection.spec_base_url(),
                Err(e) => e@ == build_fault(),
            },
    {
        RomadClient::with_transport(connection, build_transport())
    }

    /// A client for the given connection over a transport that was set up
    /// beforehand, or the error of a transport that could not be.
    pub fn with_transport(
        connection: Connection,
        transport: Result<reqwest::Client, reqwest::Error>,
    ) -> (r: Result<RomadClient, RomadClientError>)
        ensures
            match transport {
                Ok(handle) => r matches Ok(client) && client.spec_base_url()
                    == connection.spec_base_url() && client.spec_client() == handle,
                Err(_) => r matches Err(e) && e@ == build_fault(),
            },
    {
        let base_url = connection.build_base_url();
        match transport {
            Ok(client) => Ok(RomadClient { base_url, client }),
            Err(_) => Err(RomadClientError::build()),
        }
    }

    /// The base URL.
    pub fn get_base_url(&self) -> (url: &String)
        ensures
            url@ == self.spec_base_url(),
    {
        &self.base_url
    }

    /// The transport handle.
    pub fn get_client(&self) -> (client: &reqwest::Client)
        ensures
            *client == self.spec_client(),
    {
        &self.client
    }

    fn request(
        &self,
        path: &str,
        prefix: Option<&String>,
        namespace: Option<&String>,
    ) -> (r: Request)
        ensures
            r.url@ == self.spec_base_url() + path@,
            r.ignored@ == named_filters(prefix is Some, namespace is Some),
    {
        let mut ignored: Vec<Filter> = Vec::new();
        if namespace.is_some() {
            ignored.push(Filter::Namespace);
        }
        if prefix.is_some() {
            ignored.push(Filter::Prefix);
        }
        let mut url = self.base_url.clone();
        url.append(path);
        assert(ignored@ =~= named_filters(prefix is Some, namespace is Some));
        Request { url, ignored }
    }

    /// The request that lists jobs. A prefix or a namespace adds a warning
    /// and leaves the request as it is without them.
    pub fn jobs_request(&self, prefix: Option<&String>, namespace: Option<&String>) -> (r: Request)
        ensures
            r.url@ == jobs_url_of(self.spec_base_url()),
            r.ignored@ == named_filters(prefix is Some, namespace is Some),
    {
        self.request("/jobs", prefix, namespace)
    }

    /// The request that lists allocations. A prefix or a namespace adds a
    /// warning and leaves the request as it is without them.
    pub fn allocations_request(
        &self,
        prefix: Option<&String>,
        namespace: Option<&String>,
    ) -> (r: Request)
        ensures
            r.url@ == allocations_url_of(self.spec_base_url()),
            r.ignored@ == named_filters(prefix is Some, namespace is Some),
    {
        self.request("/allocations", prefix, namespace)
    }
}

/// The result of listing jobs, from what the request brought: the body of an
/// answer, or the transport's description of its failure.
///
/// A body is read whatever the answer's status was. It gives either all of
/// its jobs, in its order, or an error: never a part of them.
pub fn jobs_from_response(outcome: Result<String, String>) -> (r: Result<
    Vec<Job>,
    RomadClientError,
>)
    ensures
        match outcome {
            Err(description) => r matches Err(e) && e@ == transport_fault(description@),
            Ok(body) => match json_document(body@) {
                None => r matches Err(e) && e@.kind == ClientErrorKind::Parse && exists|
                    description: Seq<char>,
                | e@ == parse_fault(description),
                Some(doc) => match jobs_of(doc) {
                    Ok(views) => r matches Ok(jobs) && job_views(jobs@) == views,
                    Err(fault) => r matches Err(e) && e@ == parse_fault(fault_text(fault)),
                },
            },
        },
{
    match outcome {
        Err(description) => Err(RomadClientError::transport(description.as_str())),
        Ok(body) => jobs_from_parsing(jobs_from_text(body.as_str())),
    }
}

/// The result of listing jobs, from what reading the answer's body gave.
pub fn jobs_from_parsing(parsed: Result<Vec<Job>, ParseError>) -> (r: Result<
    Vec<Job>,
    RomadClientError,
>)
    ensures
        match parsed {
            Ok(jobs) => r matches Ok(same) && same == jobs,
            Err(cause) => r matches Err(e) && e@ == parse_fault(cause.spec_description()),
        },
{
    match parsed {
        Ok(jobs) => Ok(jobs),
        Err(cause) => Err(RomadClientError::parse(&cause)),
    }
}

/// The result of listing allocations, from what the request brought. The
/// body of an answer is handed on as it is, whatever it holds.
pub fn allocations_from_response(outcome: Result<String, String>) -> (r: Result<
    String,
    RomadClientError,
>)
    ensures
        match outcome {
            Ok(body) => r matches Ok(text) && text@ == body@,
            Err(description) => r matches Err(e) && e@ == transport_fault(description@),
        },
{
    match outcome {
        Ok(body) => Ok(body),
        Err(description) => Err(RomadClientError::transport(description.as_str())),
    }
}

} // verus!
