//! The way of a request through the boundary node: its body is read, its canister
//! is found out, and it is handed on.
use super::routing::{is_found, is_outcome, Route, Sent};
use super::types::{
    text_in, ErrorCause, ErrorCauseView, Node, RequestContext, RequestContextView, RequestType,
};
use crate::principal::{
    ascii_lowercase, parsed_principal, principal_text, Principal, MAX_PRINCIPAL_LENGTH,
};
use vstd::prelude::*;
use vstd::string::*;

verus! {

/// The part of the content of a request that is looked at.
#[derive(Clone, Debug)]
pub struct ICRequestContent {
    pub canister_id: Option<Vec<u8>>,
    pub method_name: Option<String>,
    pub sender: Option<Vec<u8>>,
}

/// What the body of a request holds.
#[derive(Clone, Debug)]
pub struct ICRequestEnvelope {
    pub content: ICRequestContent,
}

/// The body of a request, of which there is none if it could not be read.
pub fn read_body(body: Option<Vec<u8>>) -> (r: Result<Vec<u8>, ErrorCause>)
    ensures
        match body {
            Some(bytes) => r == Ok::<Vec<u8>, ErrorCause>(bytes),
            None => r == Err::<Vec<u8>, ErrorCause>(ErrorCause::UnableToReadBody),
        },
{
    match body {
        Some(bytes) => Ok(bytes),
        None => Err(ErrorCause::UnableToReadBody),
    }
}

/// Whether these bytes, where given, are too many for a principal.
pub open spec fn too_long(bytes: Option<Vec<u8>>) -> bool {
    bytes matches Some(v) && v@.len() > MAX_PRINCIPAL_LENGTH
}

/// The principal of these bytes where given, and otherwise what was there before.
pub open spec fn principal_or(bytes: Option<Vec<u8>>, before: Option<Principal>) -> Option<
    Principal,
> {
    match bytes {
        Some(v) => Some(Principal::of_bytes(v@)),
        None => before,
    }
}

/// Why a body cannot be taken in, if that is so. A body that is no CBOR is told by
/// the message of the decoder.
pub open spec fn body_error(parsed: Result<ICRequestEnvelope, String>) -> Option<Seq<char>> {
    match parsed {
        Err(message) => Some(message@),
        Ok(envelope) => if too_long(envelope.content.canister_id) || too_long(
            envelope.content.sender,
        ) {
            Some("Bytes is longer than 29 bytes."@)
        } else {
            None
        },
    }
}

/// The context after the body was taken in, as far as it went.
pub open spec fn with_body(
    ctx: RequestContextView,
    parsed: Result<ICRequestEnvelope, String>,
) -> RequestContextView {
    match parsed {
        Err(_) => ctx,
        Ok(envelope) => {
            let content = envelope.content;
            if too_long(content.canister_id) {
                ctx
            } else if too_long(content.sender) {
                RequestContextView {
                    canister_id_cbor: principal_or(content.canister_id, ctx.canister_id_cbor),
                    ..ctx
                }
            } else {
                RequestContextView {
                    canister_id_cbor: principal_or(content.canister_id, ctx.canister_id_cbor),
                    sender: principal_or(content.sender, ctx.sender),
                    method_name: text_in(content.method_name),
                    ..ctx
                }
            }
        },
    }
}

/// Takes the decoded body into the context. The error is the message of what went
/// wrong; what was taken in before it stays.
pub fn parse_body(ctx: &mut RequestContext, parsed: Result<ICRequestEnvelope, String>) -> (r: Result<
    (),
    String,
>)
    ensures
        final(ctx)@ == with_body(old(ctx)@, parsed),
        match r {
            Ok(_) => body_error(parsed) is None,
            Err(message) => body_error(parsed) == Some(message@),
        },
        r is Ok <==> (parsed matches Ok(envelope) && (envelope.content.canister_id matches Some(v)
            ==> v@.len() <= 29) && (envelope.content.sender matches Some(v) ==> v@.len() <= 29)),
        r is Ok ==> (parsed matches Ok(envelope) && (envelope.content.canister_id matches Some(v)
            ==> (final(ctx).canister_id_cbor matches Some(p) && p@ == v@)) && (
        envelope.content.sender matches Some(v) ==> (final(ctx).sender matches Some(p) && p@ == v@))
            && final(ctx).method_name == envelope.content.method_name),
{
    let envelope = match parsed {
        Ok(envelope) => envelope,
        Err(message) => {
            return Err(message);
        },
    };
    let content = envelope.content;
    if let Some(v) = &content.canister_id {
        match Principal::try_from_slice(v.as_slice()) {
            Ok(principal) => {
                ctx.canister_id_cbor = Some(principal);
            },
            Err(message) => {
                return Err(message);
            },
        }
    }
    if let Some(v) = &content.sender {
        match Principal::try_from_slice(v.as_slice()) {
            Ok(principal) => {
                ctx.sender = Some(principal);
            },
            Err(message) => {
                return Err(message);
            },
        }
    }
    ctx.method_name = content.method_name;
    Ok(())
}

/// What a request says of its canister.
#[derive(Debug)]
pub struct Addressed {
    /// The canister in the URL.
    pub canister_id: String,
    /// The decoded body, or the message of the decoder.
    pub envelope: Result<ICRequestEnvelope, String>,
}

/// Where a request stands after it was looked at.
#[derive(Clone, Debug)]
pub enum Preprocessed {
    /// It is refused with this status.
    Refused(RequestContext, u16),
    /// It names no canister and is handed on as it is.
    Unaddressed(RequestContext),
    /// A node is to be found for this canister.
    NodeWanted(RequestContext, Principal),
}

/// The mathematical view of [`Preprocessed`].
pub enum PreprocessedView {
    Refused(RequestContextView, u16),
    Unaddressed(RequestContextView),
    NodeWanted(RequestContextView, Principal),
}

impl View for Preprocessed {
    type V = PreprocessedView;

    open spec fn view(&self) -> PreprocessedView {
        match self {
            Preprocessed::Refused(ctx, status) => PreprocessedView::Refused(ctx@, *status),
            Preprocessed::Unaddressed(ctx) => PreprocessedView::Unaddressed(ctx@),
            Preprocessed::NodeWanted(ctx, canister) => PreprocessedView::NodeWanted(
                ctx@,
                *canister,
            ),
        }
    }
}

/// A request that is refused for this cause.
pub open spec fn refused(ctx: RequestContextView, cause: ErrorCauseView) -> PreprocessedView {
    PreprocessedView::Refused(ctx.failed_with(cause), cause.status())
}

/// The canister that a text names, or the message of why it names none.
pub open spec fn canister_in(text: Seq<char>) -> Result<Principal, Seq<char>> {
    match parsed_principal(text) {
        Ok(bytes) => Ok(Principal::of_bytes(bytes)),
        Err(message) => Err(message),
    }
}

/// Where a request stands after its canister was looked at.
pub open spec fn addressed_to(
    ctx: RequestContextView,
    canister: Result<Principal, Seq<char>>,
    envelope: Result<ICRequestEnvelope, String>,
) -> PreprocessedView {
    match canister {
        Err(message) => refused(
            ctx,
            ErrorCauseView::MalformedRequest(
                "Unable to decode canister_id from URL: "@ + message,
            ),
        ),
        Ok(canister_id) => {
            let named = RequestContextView { canister_id: Some(canister_id), ..ctx };
            match body_error(envelope) {
                Some(message) => refused(
                    with_body(named, envelope),
                    ErrorCauseView::UnableToParseCBOR(message),
                ),
                None => PreprocessedView::NodeWanted(with_body(named, envelope), canister_id),
            }
        },
    }
}

/// Where a request stands, given what was read of its body and what it says of its
/// canister.
pub open spec fn preprocessed(
    body: Result<Vec<u8>, ErrorCause>,
    addressed: Option<Addressed>,
) -> PreprocessedView {
    match body {
        Err(cause) => refused(RequestContextView::empty(), cause@),
        Ok(bytes) => {
            let ctx = RequestContextView {
                request_size: (bytes@.len() % 0x1_0000_0000) as u32,
                ..RequestContextView::empty()
            };
            match addressed {
                None => PreprocessedView::Unaddressed(ctx),
                Some(address) => addressed_to(
                    ctx,
                    canister_in(address.canister_id@),
                    address.envelope,
                ),
            }
        },
    }
}

/// The number of bytes of a body, in 32 bits.
fn size_of_body(body: &Vec<u8>) -> (r: u32)
    ensures
        r == (body@.len() % 0x1_0000_0000) as u32,
{
    let n: u64 = body.len() as u64;
    assert(n as u32 == n % 0x1_0000_0000) by (bit_vector);
    n as u32
}

/// Goes on with a request after its canister was read from the URL: the outcome is
/// the principal, or the message of why it is none.
pub fn address_request(
    ctx: RequestContext,
    canister: Result<Principal, String>,
    envelope: Result<ICRequestEnvelope, String>,
) -> (r: Preprocessed)
    ensures
        r@ == addressed_to(
            ctx@,
            match canister {
                Ok(principal) => Ok(principal),
                Err(message) => Err(message@),
            },
            envelope,
        ),
{
    let mut ctx = ctx;
    let canister_id = match canister {
        Ok(canister_id) => canister_id,
        Err(message) => {
            let mut text = "Unable to decode canister_id from URL: ".to_owned();
            text.append(message.as_str());
            let status: u16 = ctx.respond(ErrorCause::MalformedRequest(text));
            return Preprocessed::Refused(ctx, status);
        },
    };
    ctx.canister_id = Some(canister_id);
    match parse_body(&mut ctx, envelope) {
        Ok(_) => Preprocessed::NodeWanted(ctx, canister_id),
        Err(message) => {
            let status: u16 = ctx.respond(ErrorCause::UnableToParseCBOR(message));
            Preprocessed::Refused(ctx, status)
        },
    }
}

/// Looks at a request before it is handed on. A canister that a node is wanted for
/// has the text that stood in the URL, in lower case.
pub fn preprocess_request(
    body: Result<Vec<u8>, ErrorCause>,
    addressed: Option<Addressed>,
) -> (r: Preprocessed)
    ensures
        r@ == preprocessed(body, addressed),
        r matches Preprocessed::NodeWanted(_, canister_id) ==> (addressed matches Some(address)
            && principal_text(canister_id@) == ascii_lowercase(address.canister_id@)),
{
    let mut ctx = RequestContext::default();
    let body = match body {
        Ok(body) => body,
        Err(cause) => {
            let status: u16 = ctx.respond(cause);
            return Preprocessed::Refused(ctx, status);
        },
    };
    ctx.request_size = size_of_body(&body);
    match addressed {
        None => Preprocessed::Unaddressed(ctx),
        Some(address) => {
            let canister = Principal::from_text(address.canister_id.as_str());
            address_request(ctx, canister, address.envelope)
        },
    }
}

/// The outcome of a step: the context to go on with, or the one to refuse with, and
/// the status.
pub open spec fn outcome_view(
    r: Result<RequestContext, (RequestContext, u16)>,
) -> Result<RequestContextView, (RequestContextView, u16)> {
    match r {
        Ok(ctx) => Ok(ctx@),
        Err((ctx, status)) => Err((ctx@, status)),
    }
}

/// The context of a request for which a node was looked for.
pub open spec fn routed(ctx: RequestContextView, found: Result<Node, ErrorCause>) -> Result<
    RequestContextView,
    (RequestContextView, u16),
> {
    match found {
        Ok(node) => Ok(RequestContextView { node: Some(node), ..ctx }),
        Err(cause) => Err((ctx.failed_with(cause@), cause@.status())),
    }
}

/// The context of a query, after it was sent to its node.
pub open spec fn queried<T>(ctx: RequestContextView, answer: Result<T, ErrorCause>) -> Result<
    RequestContextView,
    (RequestContextView, u16),
> {
    let ctx = RequestContextView { request_type: RequestType::Query, ..ctx };
    match answer {
        Ok(_) => Ok(ctx),
        Err(cause) => Err((ctx.failed_with(cause@), cause@.status())),
    }
}

impl RequestContext {
    /// Notes the node that was found for the request, or refuses it.
    pub fn route(self, found: Result<Node, ErrorCause>) -> (r: Result<
        RequestContext,
        (RequestContext, u16),
    >)
        ensures
            outcome_view(r) == routed(self@, found),
    {
        let mut ctx = self;
        match found {
            Ok(node) => {
                ctx.node = Some(node);
                Ok(ctx)
            },
            Err(cause) => {
                let status: u16 = ctx.respond(cause);
                Err((ctx, status))
            },
        }
    }

    /// The node that a query goes to, and the canister that it is for.
    pub fn query_target(&self) -> (r: (Node, Principal))
        requires
            self@.canister_id is Some,
            self@.node is Some,
        ensures
            self@.node == Some(r.0),
            self@.canister_id == Some(r.1),
    {
        (self.node.unwrap(), self.canister_id.unwrap())
    }
}

/// Ends a query, given what its node answered: the answer and the context to give it
/// back with, or the context to refuse it with, and the status.
pub fn query<T>(ctx: RequestContext, answer: Result<T, ErrorCause>) -> (r: Result<
    (RequestContext, T),
    (RequestContext, u16),
>)
    requires
        ctx@.canister_id is Some,
        ctx@.node is Some,
    ensures
        match r {
            Ok((after, answered)) => queried(ctx@, answer) == Ok::<
                RequestContextView,
                (RequestContextView, u16),
            >(after@) && answer == Ok::<T, ErrorCause>(answered),
            Err((after, status)) => queried(ctx@, answer) == Err::<
                RequestContextView,
                (RequestContextView, u16),
            >((after@, status)),
        },
{
    let mut ctx = ctx;
    ctx.request_type = RequestType::Query;
    match answer {
        Ok(answered) => Ok((ctx, answered)),
        Err(cause) => {
            let status: u16 = ctx.respond(cause);
            Err((ctx, status))
        },
    }
}

/// A request that asks for a node, and for which one is found, has what a query needs:
/// a canister, which is the one that its URL names, and that node.
pub proof fn law_routed_request_can_be_queried(
    body: Result<Vec<u8>, ErrorCause>,
    addressed: Option<Addressed>,
    node: Node,
)
    ensures
        preprocessed(body, addressed) matches PreprocessedView::NodeWanted(ctx, canister_id) ==> {
            &&& addressed matches Some(address)
            &&& canister_in(address.canister_id@) == Ok::<Principal, Seq<char>>(canister_id)
            &&& routed(ctx, Ok(node)) matches Ok(after)
            &&& after.canister_id == Some(canister_id)
            &&& after.node == Some(node)
            &&& after.error_cause is NoError
        },
{
}

/// A request that is refused carries the cause, and the status is that of the cause,
/// which is never 200.
pub proof fn law_refusal_is_never_ok(
    body: Result<Vec<u8>, ErrorCause>,
    addressed: Option<Addressed>,
)
    requires
        body matches Err(cause) ==> !(cause@ is NoError),
    ensures
        preprocessed(body, addressed) matches PreprocessedView::Refused(ctx, status)
            ==> status == ctx.error_cause.status() && status != 200 && !(ctx.error_cause is NoError),
{
}

/// A request that is refused because no node was found, or because the node did not answer
/// a query, carries the cause, and the status is that of the cause, which is never 200.
pub proof fn law_refusal_after_preprocessing_is_never_ok<T>(
    ctx: RequestContextView,
    route: Route,
    found: Result<Node, ErrorCause>,
    sent: Sent<T>,
    answer: Result<T, ErrorCause>,
)
    requires
        is_found(route, found),
        is_outcome(sent, answer),
    ensures
        routed(ctx, found) matches Err((after, status)) ==> status == after.error_cause.status()
            && status != 200 && !(after.error_cause is NoError),
        queried(ctx, answer) matches Err((after, status)) ==> status == after.error_cause.status()
            && status != 200 && !(after.error_cause is NoError),
{
}

/// A refused request was for no node: no node is noted in its context.
pub proof fn law_refusal_comes_before_routing(
    body: Result<Vec<u8>, ErrorCause>,
    addressed: Option<Addressed>,
)
    ensures
        preprocessed(body, addressed) matches PreprocessedView::Refused(ctx, _) ==> ctx.node is None,
        preprocessed(body, addressed) matches PreprocessedView::Unaddressed(ctx) ==> ctx.node is None
            && ctx.canister_id is None && ctx.error_cause is NoError,
{
}

} // verus!
