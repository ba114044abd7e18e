//! What is known of a request, and why it may fail.
use crate::principal::Principal;
use vstd::prelude::*;
use vstd::string::*;

verus! {

/// The type of a request.
#[derive(Clone, Copy, Debug, PartialEq, Eq)]
pub enum RequestType {
    Status,
    Query,
    Call,
    ReadState,
}

impl Default for RequestType {
    fn default() -> (r: Self)
        ensures
            r == RequestType::Status,
    {
        RequestType::Status
    }
}

impl RequestType {
    /// The name of the type, as it stands in an URL.
    pub open spec fn name(self) -> Seq<char> {
        match self {
            RequestType::Status => "status"@,
            RequestType::Query => "query"@,
            RequestType::Call => "call"@,
            RequestType::ReadState => "read_state"@,
        }
    }

    /// Writes the name of the type.
    pub fn to_text(&self) -> (r: String)
        ensures
            r@ == self.name(),
    {
        match self {
            RequestType::Status => "status".to_owned(),
            RequestType::Query => "query".to_owned(),
            RequestType::Call => "call".to_owned(),
            RequestType::ReadState => "read_state".to_owned(),
        }
    }
}

/// Why a request was not processed.
#[derive(Clone, Debug, PartialEq, Eq)]
pub enum ErrorCause {
    NoError,
    UnableToReadBody,
    UnableToParseCBOR(String),
    MalformedRequest(String),
    NoRoutingTable,
    SubnetNotFound,
    NoHealthyNodes,
    ReplicaUnreachable(String),
    Other(String),
}

/// The mathematical view of an [`ErrorCause`].
pub enum ErrorCauseView {
    NoError,
    UnableToReadBody,
    UnableToParseCBOR(Seq<char>),
    MalformedRequest(Seq<char>),
    NoRoutingTable,
    SubnetNotFound,
    NoHealthyNodes,
    ReplicaUnreachable(Seq<char>),
    Other(Seq<char>),
}

impl View for ErrorCause {
    type V = ErrorCauseView;

    open spec fn view(&self) -> ErrorCauseView {
        match self {
            ErrorCause::NoError => ErrorCauseView::NoError,
            ErrorCause::UnableToReadBody => ErrorCauseView::UnableToReadBody,
            ErrorCause::UnableToParseCBOR(x) => ErrorCauseView::UnableToParseCBOR(x@),
            ErrorCause::MalformedRequest(x) => ErrorCauseView::MalformedRequest(x@),
            ErrorCause::NoRoutingTable => ErrorCauseView::NoRoutingTable,
            ErrorCause::SubnetNotFound => ErrorCauseView::SubnetNotFound,
            ErrorCause::NoHealthyNodes => ErrorCauseView::NoHealthyNodes,
            ErrorCause::ReplicaUnreachable(x) => ErrorCauseView::ReplicaUnreachable(x@),
            ErrorCause::Other(x) => ErrorCauseView::Other(x@),
        }
    }
}

impl ErrorCauseView {
    /// The HTTP status that a request with this cause is answered with.
    pub open spec fn status(self) -> u16 {
        match self {
            ErrorCauseView::NoError => 200,
            ErrorCauseView::UnableToReadBody => 400,
            ErrorCauseView::UnableToParseCBOR(_) => 400,
            ErrorCauseView::MalformedRequest(_) => 400,
            ErrorCauseView::SubnetNotFound => 400,
            ErrorCauseView::NoRoutingTable => 500,
            ErrorCauseView::NoHealthyNodes => 500,
            ErrorCauseView::ReplicaUnreachable(_) => 500,
            ErrorCauseView::Other(_) => 500,
        }
    }

    /// What the cause says beyond its name.
    pub open spec fn detail(self) -> Option<Seq<char>> {
        match self {
            ErrorCauseView::Other(x) => Some(x),
            ErrorCauseView::UnableToParseCBOR(x) => Some(x),
            ErrorCauseView::MalformedRequest(x) => Some(x),
            ErrorCauseView::ReplicaUnreachable(x) => Some(x),
            _ => None,
        }
    }

    /// The name of the cause in the log.
    pub open spec fn name(self) -> Seq<char> {
        match self {
            ErrorCauseView::NoError => "no_error"@,
            ErrorCauseView::Other(_) => "general_error"@,
            ErrorCauseView::UnableToReadBody => "unable_to_read_body"@,
            ErrorCauseView::UnableToParseCBOR(_) => "unable_to_parse_cbor"@,
            ErrorCauseView::MalformedRequest(_) => "malformed_request"@,
            ErrorCauseView::NoRoutingTable => "no_routing_table"@,
            ErrorCauseView::SubnetNotFound => "subnet_not_found"@,
            ErrorCauseView::NoHealthyNodes => "no_healthy_nodes"@,
            ErrorCauseView::ReplicaUnreachable(_) => "replica_unreachable"@,
        }
    }
}

impl Default for ErrorCause {
    fn default() -> (r: Self)
        ensures
            r == ErrorCause::NoError,
    {
        ErrorCause::NoError
    }
}

/// The text in an optional string.
pub open spec fn text_in(s: Option<String>) -> Option<Seq<char>> {
    match s {
        Some(text) => Some(text@),
        None => None,
    }
}

impl ErrorCause {
    /// The HTTP status that a request with this cause is answered with.
    pub fn status_code(&self) -> (r: u16)
        ensures
            r == self@.status(),
    {
        match self {
            ErrorCause::NoError => 200,
            ErrorCause::Other(_) => 500,
            ErrorCause::UnableToReadBody => 400,
            ErrorCause::UnableToParseCBOR(_) => 400,
            ErrorCause::MalformedRequest(_) => 400,
            ErrorCause::NoRoutingTable => 500,
            ErrorCause::SubnetNotFound => 400,
            ErrorCause::NoHealthyNodes => 500,
            ErrorCause::ReplicaUnreachable(_) => 500,
        }
    }

    /// What the cause says beyond its name.
    pub fn details(&self) -> (r: Option<String>)
        ensures
            text_in(r) == self@.detail(),
    {
        match self {
            ErrorCause::Other(x) => Some(x.clone()),
            ErrorCause::UnableToParseCBOR(x) => Some(x.clone()),
            ErrorCause::MalformedRequest(x) => Some(x.clone()),
            ErrorCause::ReplicaUnreachable(x) => Some(x.clone()),
            _ => None,
        }
    }

    /// Writes the name of the cause in the log.
    pub fn to_text(&self) -> (r: String)
        ensures
            r@ == self@.name(),
    {
        match self {
            ErrorCause::NoError => "no_error".to_owned(),
            ErrorCause::Other(_) => "general_error".to_owned(),
            ErrorCause::UnableToReadBody => "unable_to_read_body".to_owned(),
            ErrorCause::UnableToParseCBOR(_) => "unable_to_parse_cbor".to_owned(),
            ErrorCause::MalformedRequest(_) => "malformed_request".to_owned(),
            ErrorCause::NoRoutingTable => "no_routing_table".to_owned(),
            ErrorCause::SubnetNotFound => "subnet_not_found".to_owned(),
            ErrorCause::NoHealthyNodes => "no_healthy_nodes".to_owned(),
            ErrorCause::ReplicaUnreachable(_) => "replica_unreachable".to_owned(),
        }
    }
}

/// The status is 200 exactly if there is no error; otherwise it is 400 or 500.
pub proof fn law_ok_only_without_error(cause: ErrorCauseView)
    ensures
        cause.status() == 200 <==> cause is NoError,
        cause.status() == 200 || cause.status() == 400 || cause.status() == 500,
{
}

/// A node that requests are sent to.
#[derive(Clone, Copy, Debug, PartialEq, Eq)]
pub struct Node {
    pub id: Principal,
    pub subnet_id: Principal,
    pub port: u16,
}

/// What is known of a request while it is processed.
#[derive(Clone, Debug, PartialEq, Eq)]
pub struct RequestContext {
    /// The canister that the URL names.
    pub canister_id: Option<Principal>,
    /// The canister that the body names.
    pub canister_id_cbor: Option<Principal>,
    /// The node that the request goes to.
    pub node: Option<Node>,
    pub sender: Option<Principal>,
    pub method_name: Option<String>,
    pub request_type: RequestType,
    pub error_cause: ErrorCause,
    /// The number of bytes of the body.
    pub request_size: u32,
}

/// The mathematical view of a [`RequestContext`].
pub struct RequestContextView {
    pub canister_id: Option<Principal>,
    pub canister_id_cbor: Option<Principal>,
    pub node: Option<Node>,
    pub sender: Option<Principal>,
    pub method_name: Option<Seq<char>>,
    pub request_type: RequestType,
    pub error_cause: ErrorCauseView,
    pub request_size: u32,
}

impl View for RequestContext {
    type V = RequestContextView;

    open spec fn view(&self) -> RequestContextView {
        RequestContextView {
            canister_id: self.canister_id,
            canister_id_cbor: self.canister_id_cbor,
            node: self.node,
            sender: self.sender,
            method_name: text_in(self.method_name),
            request_type: self.request_type,
            error_cause: self.error_cause@,
            request_size: self.request_size,
        }
    }
}

impl RequestContextView {
    /// The context of a request of which nothing is known.
    pub open spec fn empty() -> RequestContextView {
        RequestContextView {
            canister_id: None,
            canister_id_cbor: None,
            node: None,
            sender: None,
            method_name: None,
            request_type: RequestType::Status,
            error_cause: ErrorCauseView::NoError,
            request_size: 0,
        }
    }

    /// The context with this cause of failure.
    pub open spec fn failed_with(self, cause: ErrorCauseView) -> RequestContextView {
        RequestContextView { error_cause: cause, ..self }
    }
}

impl Default for RequestContext {
    fn default() -> (r: Self)
        ensures
            r@ == RequestContextView::empty(),
    {
        RequestContext {
            canister_id: None,
            canister_id_cbor: None,
            node: None,
            sender: None,
            method_name: None,
            request_type: RequestType::default(),
            error_cause: ErrorCause::default(),
            request_size: 0,
        }
    }
}

impl RequestContext {
    /// Notes why the request fails, and gives the status to answer it with.
    pub fn respond(&mut self, cause: ErrorCause) -> (r: u16)
        ensures
            final(self)@ == old(self)@.failed_with(cause@),
            r == cause@.status(),
    {
        let status: u16 = cause.status_code();
        self.error_cause = cause;
        status
    }
}

} // verus!
