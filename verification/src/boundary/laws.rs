//! What the routing layer owes to a request, from what came in and what went out.
use super::log::{context_or_empty, logged, size_in, LogRecord};
use super::redirect::redirect_path;
use super::request::{
    addressed_to, body_error, outcome_view, preprocessed, queried, routed, with_body, Addressed,
    ICRequestEnvelope, Preprocessed, PreprocessedView,
};
use super::routing::{
    health_of, is_found, is_outcome, node_url, sending_failure, ReplicaHealthStatus, Route, Sent,
};
use super::types::{
    text_in, ErrorCause, ErrorCauseView, Node, RequestContext, RequestContextView, RequestType,
};
use crate::principal::{parsed_principal, principal_text, Principal};
use crate::text::{
    decimal, law_number_is_read_from_its_decimal_text, law_number_reads_back, zeros,
};
use vstd::prelude::*;

verus! {

/// Whether these bytes, where given, are the bytes of a principal: at most 29.
pub open spec fn could_be_principal(bytes: Option<Vec<u8>>) -> bool {
    match bytes {
        Some(v) => v@.len() <= 29,
        None => true,
    }
}

/// Whether `p` is the principal with exactly these bytes.
pub open spec fn has_bytes(p: Option<Principal>, bytes: Seq<u8>) -> bool {
    p matches Some(principal) && principal@ == bytes
}

/// A body is taken in exactly if it was decoded and each principal that it gives has at
/// most 29 bytes. The context then has the principals and the method name that were given;
/// a principal that was not given stays as it was.
pub proof fn law_body_is_taken_in(
    before: RequestContextView,
    parsed: Result<ICRequestEnvelope, String>,
)
    ensures
        body_error(parsed) is None <==> (parsed matches Ok(envelope) && could_be_principal(
            envelope.content.canister_id,
        ) && could_be_principal(envelope.content.sender)),
        body_error(parsed) is None ==> {
            let after = with_body(before, parsed);
            let content = parsed->Ok_0.content;
            &&& content.canister_id matches Some(v) ==> has_bytes(after.canister_id_cbor, v@)
            &&& content.canister_id is None ==> after.canister_id_cbor == before.canister_id_cbor
            &&& content.sender matches Some(v) ==> has_bytes(after.sender, v@)
            &&& content.sender is None ==> after.sender == before.sender
            &&& content.method_name matches Some(name) ==> after.method_name == Some(name@)
            &&& content.method_name is None ==> after.method_name is None
        },
{
    if let Ok(envelope) = parsed {
        if let Some(v) = envelope.content.canister_id {
            if v@.len() <= 29 {
                Principal::law_principal_of_bytes(v@);
            }
        }
        if let Some(v) = envelope.content.sender {
            if v@.len() <= 29 {
                Principal::law_principal_of_bytes(v@);
            }
        }
    }
}

/// Taking in a body, whether it succeeds or not, leaves alone what the URL named, the node,
/// the type, the cause and the size. A body that was not decoded changes nothing, and is
/// told by the message of the decoder; the sender and the method name change only if the
/// whole body is taken in.
pub proof fn law_body_changes_nothing_else(
    before: RequestContextView,
    parsed: Result<ICRequestEnvelope, String>,
)
    ensures
        ({
            let after = with_body(before, parsed);
            &&& after.canister_id == before.canister_id
            &&& after.node == before.node
            &&& after.request_type == before.request_type
            &&& after.error_cause == before.error_cause
            &&& after.request_size == before.request_size
            &&& parsed matches Err(message) ==> after == before && body_error(parsed) == Some(
                message@,
            )
            &&& body_error(parsed) is Some ==> after.sender == before.sender && after.method_name
                == before.method_name
            &&& body_error(parsed) is Some && parsed is Ok ==> body_error(parsed) == Some(
                "Bytes is longer than 29 bytes."@,
            )
            &&& (parsed matches Ok(envelope) && (envelope.content.canister_id matches Some(v)
                && v@.len() > 29)) ==> after == before
        }),
{
}

/// In a body whose sender alone is too long, the canister that it names is still noted.
pub proof fn law_canister_is_noted_before_the_sender(
    before: RequestContextView,
    envelope: ICRequestEnvelope,
)
    requires
        envelope.content.canister_id matches Some(v) && v@.len() <= 29,
        envelope.content.sender matches Some(v) && v@.len() > 29,
    ensures
        has_bytes(
            with_body(before, Ok(envelope)).canister_id_cbor,
            envelope.content.canister_id.unwrap()@,
        ),
{
    Principal::law_principal_of_bytes(envelope.content.canister_id.unwrap()@);
}

/// Which requests are refused, which are handed on as they are, and which get a node:
/// - refused are those whose body was not read, whose canister cannot be read from the URL,
///   or whose body is not taken in;
/// - handed on as they are those with a body that name no canister;
/// - a node is wanted for the others.
pub proof fn law_preprocessing_decides(
    body: Result<Vec<u8>, ErrorCause>,
    addressed: Option<Addressed>,
)
    ensures
        preprocessed(body, addressed) is Refused <==> (body is Err || (addressed matches Some(
            address,
        ) && (parsed_principal(address.canister_id@) is Err || !(
        address.envelope matches Ok(envelope) && could_be_principal(envelope.content.canister_id)
            && could_be_principal(envelope.content.sender))))),
        preprocessed(body, addressed) is Unaddressed <==> body is Ok && addressed is None,
        preprocessed(body, addressed) is NodeWanted <==> (body is Ok && (addressed matches Some(
            address,
        ) && parsed_principal(address.canister_id@) is Ok && (
        address.envelope matches Ok(envelope) && could_be_principal(envelope.content.canister_id)
            && could_be_principal(envelope.content.sender)))),
{
}

/// A refused request tells why: that its body was not read before that its canister could
/// not be, and that before that its body was not taken in. Nothing else is a reason.
pub proof fn law_refusal_tells_the_first_reason(
    body: Result<Vec<u8>, ErrorCause>,
    addressed: Option<Addressed>,
)
    ensures
        preprocessed(body, addressed) matches PreprocessedView::Refused(ctx, status) ==> {
            &&& body matches Err(cause) ==> ctx.error_cause == cause@
            &&& body is Ok && (addressed matches Some(address) && parsed_principal(
                address.canister_id@,
            ) is Err) ==> ctx.error_cause is MalformedRequest && status == 400
                && ctx.canister_id is None && ctx.sender is None && ctx.canister_id_cbor is None
                && (ctx.error_cause->MalformedRequest_0) == "Unable to decode canister_id from URL: "@
                + parsed_principal(addressed.unwrap().canister_id@)->Err_0
            &&& body is Ok && (addressed matches Some(address) && parsed_principal(
                address.canister_id@,
            ) is Ok) ==> ctx.error_cause is UnableToParseCBOR && status == 400
                && ctx.canister_id is Some && (addressed.unwrap().envelope matches Err(message)
                ==> ctx.error_cause->UnableToParseCBOR_0 == message@)
        },
{
}

/// A request for which a node is wanted carries what came in: the canister of the URL, the
/// principals and the method of the body, and its size; and no node and no error yet.
pub proof fn law_wanted_request_carries_what_came_in(
    body: Result<Vec<u8>, ErrorCause>,
    addressed: Option<Addressed>,
)
    requires
        addressed matches Some(address) ==> (parsed_principal(address.canister_id@) matches Ok(
            bytes,
        ) ==> bytes.len() <= 29),
    ensures
        preprocessed(body, addressed) matches PreprocessedView::NodeWanted(ctx, canister_id) ==> {
            let content = addressed.unwrap().envelope->Ok_0.content;
            &&& ctx.canister_id == Some(canister_id)
            &&& parsed_principal(addressed.unwrap().canister_id@) == Ok::<Seq<u8>, Seq<char>>(
                canister_id@,
            )
            &&& content.canister_id matches Some(v) ==> has_bytes(ctx.canister_id_cbor, v@)
            &&& content.canister_id is None ==> ctx.canister_id_cbor is None
            &&& content.sender matches Some(v) ==> has_bytes(ctx.sender, v@)
            &&& content.sender is None ==> ctx.sender is None
            &&& content.method_name matches Some(name) ==> ctx.method_name == Some(name@)
            &&& content.method_name is None ==> ctx.method_name is None
            &&& ctx.node is None
            &&& ctx.error_cause is NoError
            &&& ctx.request_type == RequestType::Status
        },
{
    if let Some(address) = addressed {
        if let Ok(bytes) = parsed_principal(address.canister_id@) {
            Principal::law_principal_of_bytes(bytes);
        }
        law_body_is_taken_in(RequestContextView::empty(), address.envelope);
        if let Ok(envelope) = address.envelope {
            if let Some(v) = envelope.content.canister_id {
                if v@.len() <= 29 {
                    Principal::law_principal_of_bytes(v@);
                }
            }
            if let Some(v) = envelope.content.sender {
                if v@.len() <= 29 {
                    Principal::law_principal_of_bytes(v@);
                }
            }
        }
    }
}

/// A request whose body was read knows the size of the body, wherever it stands, if the size
/// fits into 32 bits.
pub proof fn law_size_is_that_of_the_body(bytes: Vec<u8>, addressed: Option<Addressed>)
    requires
        bytes@.len() <= u32::MAX,
    ensures
        match preprocessed(Ok(bytes), addressed) {
            PreprocessedView::Refused(ctx, _) => ctx.request_size == bytes@.len(),
            PreprocessedView::Unaddressed(ctx) => ctx.request_size == bytes@.len(),
            PreprocessedView::NodeWanted(ctx, _) => ctx.request_size == bytes@.len(),
        },
{
    assert(bytes@.len() % 0x1_0000_0000 == bytes@.len());
}

/// A canister that was read from the URL is noted whatever becomes of the body, and the
/// node that is wanted is for that canister.
pub proof fn law_canister_of_the_url_is_noted(
    ctx: RequestContextView,
    canister: Principal,
    envelope: Result<ICRequestEnvelope, String>,
)
    ensures
        match addressed_to(ctx, Ok(canister), envelope) {
            PreprocessedView::Refused(after, _) => after.canister_id == Some(canister),
            PreprocessedView::Unaddressed(_) => false,
            PreprocessedView::NodeWanted(after, wanted) => after.canister_id == Some(canister)
                && wanted == canister,
        },
{
}

/// Routing adds the node to the context, or the cause of failure, and changes nothing else.
/// It succeeds exactly if a node was found.
pub proof fn law_routing_adds_the_node(ctx: RequestContextView, found: Result<Node, ErrorCause>)
    ensures
        routed(ctx, found) is Ok <==> found is Ok,
        match routed(ctx, found) {
            Ok(after) => {
                &&& after.node == Some(found->Ok_0)
                &&& after.error_cause == ctx.error_cause
                &&& after.canister_id == ctx.canister_id
                &&& after.canister_id_cbor == ctx.canister_id_cbor
                &&& after.sender == ctx.sender
                &&& after.method_name == ctx.method_name
                &&& after.request_type == ctx.request_type
                &&& after.request_size == ctx.request_size
            },
            Err((after, status)) => {
                &&& after.error_cause == (found->Err_0)@
                &&& after.node == ctx.node
                &&& after.canister_id == ctx.canister_id
                &&& after.canister_id_cbor == ctx.canister_id_cbor
                &&& after.sender == ctx.sender
                &&& after.method_name == ctx.method_name
                &&& after.request_type == ctx.request_type
                &&& after.request_size == ctx.request_size
            },
        },
{
}

/// A query is marked as one, and fails exactly if its node did not answer; then the cause is
/// noted. Nothing else of the context changes.
pub proof fn law_query_marks_the_type<T>(ctx: RequestContextView, answer: Result<T, ErrorCause>)
    ensures
        queried(ctx, answer) is Ok <==> answer is Ok,
        ({
            let after = match queried(ctx, answer) {
                Ok(after) => after,
                Err((after, _)) => after,
            };
            &&& after.request_type == RequestType::Query
            &&& after.error_cause == match answer {
                Ok(_) => ctx.error_cause,
                Err(cause) => cause@,
            }
            &&& after.node == ctx.node
            &&& after.canister_id == ctx.canister_id
            &&& after.canister_id_cbor == ctx.canister_id_cbor
            &&& after.sender == ctx.sender
            &&& after.method_name == ctx.method_name
            &&& after.request_size == ctx.request_size
        }),
{
}

/// A node is found exactly if the table has a subnet for the canister and the subnet has a
/// node, and it is one of that subnet's. Each failure has its own cause.
pub proof fn law_node_is_of_the_subnet(route: Route, r: Result<Node, ErrorCause>)
    requires
        is_found(route, r),
    ensures
        r is Ok <==> (route matches Route::Subnet(nodes) && nodes@.len() > 0),
        r matches Ok(node) ==> (route matches Route::Subnet(nodes) && exists|i: int|
            0 <= i < nodes@.len() && nodes@[i] == node),
        r matches Err(cause) ==> {
            &&& cause@ is NoRoutingTable <==> route is NoTable
            &&& cause@ is SubnetNotFound <==> route is NoSubnet
            &&& cause@ is NoHealthyNodes <==> route is Subnet
        },
{
}

/// The boundary node is healthy exactly if there is a healthy node, and starting exactly
/// before there is a table.
pub proof fn law_health_needs_one_node(node_count: Option<u32>)
    ensures
        health_of(node_count) == ReplicaHealthStatus::Healthy <==> (node_count matches Some(n) && n
            > 0),
        health_of(node_count) == ReplicaHealthStatus::Starting <==> node_count is None,
        health_of(node_count) == ReplicaHealthStatus::CertifiedStateBehind <==> node_count == Some(
            0u32,
        ),
{
}

/// An answer is handed on exactly if there is one, and unchanged. A failure tells how far the
/// request came, and ends in the reason that was given.
pub proof fn law_answer_is_handed_on<T>(sent: Sent<T>, r: Result<T, ErrorCause>)
    requires
        is_outcome(sent, r),
    ensures
        r is Ok <==> sent is Answered,
        r matches Ok(answer) ==> sent == Sent::Answered(answer),
        r matches Err(cause) ==> {
            &&& sent matches Sent::NotBuilt(e) ==> cause@ is Other && e@.is_suffix_of(
                cause@->Other_0,
            )
            &&& sent matches Sent::Failed(e) ==> cause@ is ReplicaUnreachable && e@.is_suffix_of(
                cause@->ReplicaUnreachable_0,
            )
        },
{
    match sent {
        Sent::NotBuilt(e) => {
            lemma_suffix("Unable to build request: "@, e@);
        },
        Sent::Failed(e) => {
            lemma_suffix("HTTP call failed: "@, e@);
        },
        Sent::Answered(_) => {},
    }
}

/// What is put behind a text is a suffix of the whole.
proof fn lemma_suffix(first: Seq<char>, last: Seq<char>)
    ensures
        last.is_suffix_of(first + last),
{
    assert((first + last).subrange(first.len() as int, (first + last).len() as int) =~= last);
}

/// Two different causes of a failed request give different messages, so that no part of the
/// reason is lost.
pub proof fn law_failures_are_told_apart<T>(a: String, b: String)
    ensures
        sending_failure(Sent::<T>::NotBuilt(a)) == sending_failure(Sent::<T>::NotBuilt(b)) ==> a@
            == b@,
        sending_failure(Sent::<T>::Failed(a)) == sending_failure(Sent::<T>::Failed(b)) ==> a@ == b@,
        sending_failure(Sent::<T>::Failed(a)) != sending_failure(Sent::<T>::NotBuilt(b)),
{
    lemma_same_start("Unable to build request: "@, a@, b@);
    lemma_same_start("HTTP call failed: "@, a@, b@);
}

/// Texts that are the same behind the same start are the same.
proof fn lemma_same_start(start: Seq<char>, a: Seq<char>, b: Seq<char>)
    ensures
        start + a == start + b ==> a == b,
{
    if start + a == start + b {
        let n = start.len() as int;
        assert((start + a).skip(n) =~= a);
        assert((start + b).skip(n) =~= b);
    }
}

/// The URL of a request, part by part: over HTTPS to the node by its id and its port, on the
/// path of the canister, ending in the type of the request.
pub proof fn law_url_parts(request_type: RequestType, node: Node, canister_id: Principal)
    ensures
        ({
            let url = node_url(request_type, node, canister_id);
            let host = "https://"@ + principal_text(node.id@) + ":"@ + decimal(node.port as nat);
            let path = "/api/v2/canister/"@ + principal_text(canister_id@) + "/"@;
            let name = match request_type {
                RequestType::Status => "status"@,
                RequestType::Query => "query"@,
                RequestType::Call => "call"@,
                RequestType::ReadState => "read_state"@,
            };
            &&& url.len() == host.len() + path.len() + name.len()
            &&& url.take(host.len() as int) == host
            &&& url.subrange(host.len() as int, (host.len() + path.len()) as int) == path
            &&& url.skip((host.len() + path.len()) as int) == name
        }),
{
    let url = node_url(request_type, node, canister_id);
    let host = "https://"@ + principal_text(node.id@) + ":"@ + decimal(node.port as nat);
    let path = "/api/v2/canister/"@ + principal_text(canister_id@) + "/"@;
    let name = request_type.name();
    assert(url =~= host + path + name);
    assert(url.take(host.len() as int) =~= host);
    assert(url.subrange(host.len() as int, (host.len() + path.len()) as int) =~= path);
    assert(url.skip((host.len() + path.len()) as int) =~= name);
}

/// The status blames the client for a body or a canister that cannot be read and for a
/// canister that is nowhere, and the service for everything else that fails. The details of a
/// cause are the text that it carries, and there are none where it carries none.
pub proof fn law_status_and_details(cause: ErrorCauseView)
    ensures
        cause.status() == 400 <==> (cause is UnableToReadBody || cause is UnableToParseCBOR
            || cause is MalformedRequest || cause is SubnetNotFound),
        cause.status() == 500 <==> (cause is NoRoutingTable || cause is NoHealthyNodes
            || cause is ReplicaUnreachable || cause is Other),
        cause.status() == 200 <==> cause is NoError,
        cause matches ErrorCauseView::UnableToParseCBOR(x) ==> cause.detail() == Some(x),
        cause matches ErrorCauseView::MalformedRequest(x) ==> cause.detail() == Some(x),
        cause matches ErrorCauseView::ReplicaUnreachable(x) ==> cause.detail() == Some(x),
        cause matches ErrorCauseView::Other(x) ==> cause.detail() == Some(x),
        cause is NoError || cause is UnableToReadBody || cause is NoRoutingTable
            || cause is SubnetNotFound || cause is NoHealthyNodes ==> cause.detail() is None,
{
}

/// The name of a cause in the log does not depend on the text that it carries.
pub proof fn law_name_does_not_depend_on_text(x: Seq<char>, y: Seq<char>)
    ensures
        ErrorCauseView::Other(x).name() == ErrorCauseView::Other(y).name(),
        ErrorCauseView::UnableToParseCBOR(x).name() == ErrorCauseView::UnableToParseCBOR(y).name(),
        ErrorCauseView::MalformedRequest(x).name() == ErrorCauseView::MalformedRequest(y).name(),
        ErrorCauseView::ReplicaUnreachable(x).name() == ErrorCauseView::ReplicaUnreachable(
            y,
        ).name(),
{
}

/// The log shows what the response carries: each principal by its text where there is one,
/// the node with its subnet, the method, the sizes and the status as they are.
pub proof fn law_log_shows_the_request(
    request_id: Seq<char>,
    ctx: RequestContextView,
    status: u16,
    response_size: u32,
)
    ensures
        ({
            let record = logged(request_id, ctx, status, response_size);
            &&& record.request_id == request_id
            &&& record.status == status
            &&& record.response_size == response_size
            &&& record.request_size == ctx.request_size
            &&& record.method_name == ctx.method_name
            &&& record.request_type == ctx.request_type.name()
            &&& record.error_cause == ctx.error_cause.name()
            &&& record.error_details == ctx.error_cause.detail()
            &&& ctx.node matches Some(node) ==> record.node_id == Some(principal_text(node.id@))
                && record.subnet_id == Some(principal_text(node.subnet_id@))
            &&& ctx.node is None ==> record.node_id is None && record.subnet_id is None
            &&& ctx.canister_id matches Some(p) ==> record.canister_id == Some(
                principal_text(p@),
            )
            &&& ctx.canister_id is None ==> record.canister_id is None
            &&& ctx.canister_id_cbor matches Some(p) ==> record.canister_id_cbor == Some(
                principal_text(p@),
            )
            &&& ctx.canister_id_cbor is None ==> record.canister_id_cbor is None
            &&& ctx.sender matches Some(p) ==> record.sender == Some(principal_text(p@))
            &&& ctx.sender is None ==> record.sender is None
        }),
{
}

/// A response that gives no length has size zero, and one that gives a number of 32 bits in
/// decimal has that size.
pub proof fn law_size_is_the_length_given(content_length: Option<String>, n: u32)
    ensures
        content_length is None ==> size_in(content_length) == Some(0u32),
        (content_length matches Some(text) && text@ == decimal(n as nat)) ==> size_in(
            content_length,
        ) == Some(n),
        (content_length matches Some(text) && size_in(content_length) == Some(n)) ==> exists|z: nat|
            #![trigger zeros(z)]
            content_length.unwrap()@ == zeros(z) + decimal(n as nat) || content_length.unwrap()@
                == seq!['+'] + (zeros(z) + decimal(n as nat)),
{
    law_number_reads_back(n);
    if let Some(text) = content_length {
        law_number_is_read_from_its_decimal_text(text@, n, 0);
    }
}

/// A redirect goes to the path and query of the request, and to the root where it has none.
pub proof fn law_redirect_keeps_the_path(path_and_query: Option<String>)
    ensures
        path_and_query matches Some(pq) ==> redirect_path(path_and_query) == pq@,
        path_and_query is None ==> redirect_path(path_and_query) == "/"@,
{
}

/// The view of a context shows each of its fields.
pub proof fn law_context_is_seen_whole(ctx: RequestContext)
    ensures
        ctx@.canister_id == ctx.canister_id,
        ctx@.canister_id_cbor == ctx.canister_id_cbor,
        ctx@.node == ctx.node,
        ctx@.sender == ctx.sender,
        ctx@.request_type == ctx.request_type,
        ctx@.request_size == ctx.request_size,
        ctx@.error_cause == ctx.error_cause@,
        ctx.method_name matches Some(name) ==> ctx@.method_name == Some(name@),
        ctx.method_name is None ==> ctx@.method_name is None,
{
}

/// The view of a cause tells its kind and its text.
pub proof fn law_cause_is_seen_whole(cause: ErrorCause)
    ensures
        cause is NoError <==> cause@ is NoError,
        cause is UnableToReadBody <==> cause@ is UnableToReadBody,
        cause is NoRoutingTable <==> cause@ is NoRoutingTable,
        cause is SubnetNotFound <==> cause@ is SubnetNotFound,
        cause is NoHealthyNodes <==> cause@ is NoHealthyNodes,
        cause matches ErrorCause::UnableToParseCBOR(x) ==> cause@
            == ErrorCauseView::UnableToParseCBOR(x@),
        cause matches ErrorCause::MalformedRequest(x) ==> cause@
            == ErrorCauseView::MalformedRequest(x@),
        cause matches ErrorCause::ReplicaUnreachable(x) ==> cause@
            == ErrorCauseView::ReplicaUnreachable(x@),
        cause matches ErrorCause::Other(x) ==> cause@ == ErrorCauseView::Other(x@),
{
}

/// The view of a record shows each of its fields.
pub proof fn law_record_is_seen_whole(record: LogRecord)
    ensures
        record@.request_id == record.request_id@,
        record@.request_type == record.request_type@,
        record@.error_cause == record.error_cause@,
        record@.error_details == text_in(record.error_details),
        record@.status == record.status,
        record@.subnet_id == text_in(record.subnet_id),
        record@.node_id == text_in(record.node_id),
        record@.canister_id == text_in(record.canister_id),
        record@.canister_id_cbor == text_in(record.canister_id_cbor),
        record@.sender == text_in(record.sender),
        record@.method_name == text_in(record.method_name),
        record@.request_size == record.request_size,
        record@.response_size == record.response_size,
{
}

/// A text that is there is seen, and one that is not there is not.
pub proof fn law_text_is_seen(text: Option<String>)
    ensures
        text matches Some(t) ==> text_in(text) == Some(t@),
        text is None ==> text_in(text) is None,
{
}

/// What is seen of a preprocessed request and of an outcome is its context, with the status or the
/// canister.
pub proof fn law_outcomes_are_seen_whole(
    p: Preprocessed,
    r: Result<RequestContext, (RequestContext, u16)>,
)
    ensures
        match p {
            Preprocessed::Refused(ctx, status) => p@ == PreprocessedView::Refused(ctx@, status),
            Preprocessed::Unaddressed(ctx) => p@ == PreprocessedView::Unaddressed(ctx@),
            Preprocessed::NodeWanted(ctx, canister) => p@ == PreprocessedView::NodeWanted(
                ctx@,
                canister,
            ),
        },
        match r {
            Ok(ctx) => outcome_view(r) == Ok::<RequestContextView, (RequestContextView, u16)>(ctx@),
            Err((ctx, status)) => outcome_view(r) == Err::<
                RequestContextView,
                (RequestContextView, u16),
            >((ctx@, status)),
        },
{
}

/// A response without a context is logged as one of which nothing is known, and otherwise with
/// the context that it carries.
pub proof fn law_missing_context_is_empty(ctx: Option<RequestContext>)
    ensures
        ctx matches Some(c) ==> context_or_empty(ctx) == c@,
        ctx is None ==> {
            let empty = context_or_empty(ctx);
            &&& empty.canister_id is None
            &&& empty.canister_id_cbor is None
            &&& empty.node is None
            &&& empty.sender is None
            &&& empty.method_name is None
            &&& empty.request_type == RequestType::Status
            &&& empty.error_cause is NoError
            &&& empty.request_size == 0
        },
{
}

} // verus!
