//! What is logged of a request.
use super::types::{text_in, RequestContext, RequestContextView};
use crate::principal::{principal_text, Principal};
use crate::text::{parse_u32, parsed_u32};
use vstd::prelude::*;
use vstd::string::*;

verus! {

/// The line that is logged of a request, but for how long it took.
#[derive(Clone, Debug, PartialEq, Eq)]
pub struct LogRecord {
    pub request_id: String,
    pub request_type: String,
    pub error_cause: String,
    pub error_details: Option<String>,
    pub status: u16,
    pub subnet_id: Option<String>,
    pub node_id: Option<String>,
    pub canister_id: Option<String>,
    pub canister_id_cbor: Option<String>,
    pub sender: Option<String>,
    pub method_name: Option<String>,
    pub request_size: u32,
    pub response_size: u32,
}

/// The mathematical view of a [`LogRecord`].
pub struct LogRecordView {
    pub request_id: Seq<char>,
    pub request_type: Seq<char>,
    pub error_cause: Seq<char>,
    pub error_details: Option<Seq<char>>,
    pub status: u16,
    pub subnet_id: Option<Seq<char>>,
    pub node_id: Option<Seq<char>>,
    pub canister_id: Option<Seq<char>>,
    pub canister_id_cbor: Option<Seq<char>>,
    pub sender: Option<Seq<char>>,
    pub method_name: Option<Seq<char>>,
    pub request_size: u32,
    pub response_size: u32,
}

impl View for LogRecord {
    type V = LogRecordView;

    open spec fn view(&self) -> LogRecordView {
        LogRecordView {
            request_id: self.request_id@,
            request_type: self.request_type@,
            error_cause: self.error_cause@,
            error_details: text_in(self.error_details),
            status: self.status,
            subnet_id: text_in(self.subnet_id),
            node_id: text_in(self.node_id),
            canister_id: text_in(self.canister_id),
            canister_id_cbor: text_in(self.canister_id_cbor),
            sender: text_in(self.sender),
            method_name: text_in(self.method_name),
            request_size: self.request_size,
            response_size: self.response_size,
        }
    }
}

/// The text of a principal where there is one.
pub open spec fn text_of(principal: Option<Principal>) -> Option<Seq<char>> {
    match principal {
        Some(p) => Some(principal_text(p@)),
        None => None,
    }
}

/// Writes a principal where there is one.
fn text_of_principal(principal: &Option<Principal>) -> (r: Option<String>)
    ensures
        text_in(r) == text_of(*principal),
{
    match principal {
        Some(p) => Some(p.to_text()),
        None => None,
    }
}

/// The size of a response that gives its length like this: zero if it gives none.
pub open spec fn size_in(content_length: Option<String>) -> Option<u32> {
    match content_length {
        Some(text) => parsed_u32(text@),
        None => Some(0),
    }
}

/// The size of a response that gives its length like this: zero if it gives none. No
/// number that fits is no size.
pub fn response_size(content_length: &Option<String>) -> (r: Option<u32>)
    ensures
        r == size_in(*content_length),
{
    match content_length {
        Some(text) => parse_u32(text.as_str()),
        None => Some(0),
    }
}

/// What is known of a request whose response may carry no context.
pub open spec fn context_or_empty(ctx: Option<RequestContext>) -> RequestContextView {
    match ctx {
        Some(c) => c@,
        None => RequestContextView::empty(),
    }
}

/// What is logged of a request with this context and response.
pub open spec fn logged(
    request_id: Seq<char>,
    ctx: RequestContextView,
    status: u16,
    response_size: u32,
) -> LogRecordView {
    LogRecordView {
        request_id,
        request_type: ctx.request_type.name(),
        error_cause: ctx.error_cause.name(),
        error_details: ctx.error_cause.detail(),
        status,
        subnet_id: match ctx.node {
            Some(node) => Some(principal_text(node.subnet_id@)),
            None => None,
        },
        node_id: match ctx.node {
            Some(node) => Some(principal_text(node.id@)),
            None => None,
        },
        canister_id: text_of(ctx.canister_id),
        canister_id_cbor: text_of(ctx.canister_id_cbor),
        sender: text_of(ctx.sender),
        method_name: ctx.method_name,
        request_size: ctx.request_size,
        response_size,
    }
}

/// What is logged of a request: its id, the context that its response carries, if any,
/// and the status and the length that the response gives. A length that is given has to
/// be a number that fits.
pub fn log_request(
    request_id: String,
    ctx: Option<RequestContext>,
    status: u16,
    content_length: &Option<String>,
) -> (r: LogRecord)
    requires
        size_in(*content_length) is Some,
    ensures
        r@ == logged(
            request_id@,
            context_or_empty(ctx),
            status,
            size_in(*content_length).unwrap(),
        ),
{
    let ctx = match ctx {
        Some(ctx) => ctx,
        None => RequestContext::default(),
    };
    let response_size: u32 = response_size(content_length).unwrap();
    let (subnet_id, node_id) = match &ctx.node {
        Some(node) => (Some(node.subnet_id.to_text()), Some(node.id.to_text())),
        None => (None, None),
    };
    LogRecord {
        request_id,
        request_type: ctx.request_type.to_text(),
        error_cause: ctx.error_cause.to_text(),
        error_details: ctx.error_cause.details(),
        status,
        subnet_id,
        node_id,
        canister_id: text_of_principal(&ctx.canister_id),
        canister_id_cbor: text_of_principal(&ctx.canister_id_cbor),
        sender: text_of_principal(&ctx.sender),
        method_name: ctx.method_name,
        request_size: ctx.request_size,
        response_size,
    }
}

} // verus!
