//! Tests of the routing layer.
use ic_nodes::boundary::log::{log_request, response_size, LogRecord};
use ic_nodes::boundary::redirect::{
    acme_challenge, checked_redirect_to_https, redirect_to_https,
};
use ic_nodes::boundary::request::{
    address_request, parse_body, preprocess_request, query, read_body, Addressed,
    ICRequestContent, ICRequestEnvelope, Preprocessed,
};
use ic_nodes::boundary::routing::{
    call, health, lookup_node, picked_node, proxy, proxy_url, read_state, status, HttpStatusResponse,
    ReplicaHealthStatus, Route, Sent,
};
use ic_nodes::boundary::types::{ErrorCause, Node, RequestContext, RequestType};
use ic_nodes::principal::Principal;

fn id(bytes: &[u8]) -> Principal {
    Principal::try_from_slice(bytes).unwrap()
}

fn node(n: u8) -> Node {
    Node { id: id(&[0xab, 0xcd, 0x01]), subnet_id: id(&[n]), port: 8080 }
}

fn envelope(canister_id: Option<Vec<u8>>, sender: Option<Vec<u8>>) -> ICRequestEnvelope {
    ICRequestEnvelope {
        content: ICRequestContent {
            canister_id,
            method_name: Some("greet".to_string()),
            sender,
        },
    }
}

fn all_causes() -> Vec<(ErrorCause, u16, Option<&'static str>, &'static str)> {
    vec![
        (ErrorCause::NoError, 200, None, "no_error"),
        (ErrorCause::UnableToReadBody, 400, None, "unable_to_read_body"),
        (ErrorCause::UnableToParseCBOR("a".to_string()), 400, Some("a"), "unable_to_parse_cbor"),
        (ErrorCause::MalformedRequest("b".to_string()), 400, Some("b"), "malformed_request"),
        (ErrorCause::NoRoutingTable, 500, None, "no_routing_table"),
        (ErrorCause::SubnetNotFound, 400, None, "subnet_not_found"),
        (ErrorCause::NoHealthyNodes, 500, None, "no_healthy_nodes"),
        (ErrorCause::ReplicaUnreachable("c".to_string()), 500, Some("c"), "replica_unreachable"),
        (ErrorCause::Other("d".to_string()), 500, Some("d"), "general_error"),
    ]
}

#[test]
fn request_types_have_names() {
    assert_eq!(RequestType::default(), RequestType::Status);
    assert_eq!(RequestType::Status.to_text(), "status");
    assert_eq!(RequestType::Query.to_text(), "query");
    assert_eq!(RequestType::Call.to_text(), "call");
    assert_eq!(RequestType::ReadState.to_text(), "read_state");
}

#[test]
fn causes_have_status_details_and_name() {
    assert_eq!(ErrorCause::default(), ErrorCause::NoError);
    for (cause, status, details, name) in all_causes() {
        assert_eq!(cause.status_code(), status);
        assert_eq!(cause.details(), details.map(|x| x.to_string()));
        assert_eq!(cause.to_text(), name);
        assert_eq!(cause.status_code() == 200, cause == ErrorCause::NoError);
    }
}

#[test]
fn response_notes_the_cause() {
    let mut ctx = RequestContext::default();
    ctx.request_size = 5;
    assert_eq!(ctx.respond(ErrorCause::SubnetNotFound), 400);
    assert_eq!(ctx.error_cause, ErrorCause::SubnetNotFound);
    assert_eq!(ctx.request_size, 5);
}

#[test]
fn nodes_are_looked_up() {
    assert_eq!(lookup_node(&Route::NoTable), Err(ErrorCause::NoRoutingTable));
    assert_eq!(lookup_node(&Route::NoSubnet), Err(ErrorCause::SubnetNotFound));
    assert_eq!(lookup_node(&Route::Subnet(vec![])), Err(ErrorCause::NoHealthyNodes));
    assert_eq!(lookup_node(&Route::Subnet(vec![node(7)])), Ok(node(7)));
    let nodes = vec![node(1), node(2), node(3)];
    for _ in 0..50 {
        let found = lookup_node(&Route::Subnet(nodes.clone())).unwrap();
        assert!(nodes.contains(&found));
    }
    assert_eq!(picked_node(Some(node(2))), Ok(node(2)));
    assert_eq!(picked_node(None), Err(ErrorCause::NoHealthyNodes));
}

#[test]
fn health_depends_on_the_nodes() {
    assert_eq!(health(None), ReplicaHealthStatus::Starting);
    assert_eq!(health(Some(0)), ReplicaHealthStatus::CertifiedStateBehind);
    assert_eq!(health(Some(1)), ReplicaHealthStatus::Healthy);
    assert_eq!(
        status(ReplicaHealthStatus::Healthy),
        HttpStatusResponse {
            ic_api_version: "0.18.0".to_string(),
            root_key: None,
            impl_version: None,
            impl_hash: None,
            replica_health_status: Some(ReplicaHealthStatus::Healthy),
            certified_height: None,
        }
    );
}

#[test]
fn url_names_node_canister_and_type() {
    assert_eq!(
        proxy_url(RequestType::Query, &node(1), &id(&[])),
        "https://em77e-bvlzu-aq:8080/api/v2/canister/aaaaa-aa/query"
    );
    assert_eq!(
        proxy_url(RequestType::ReadState, &node(1), &id(&[4])),
        "https://em77e-bvlzu-aq:8080/api/v2/canister/2vxsx-fae/read_state"
    );
}

#[test]
fn failed_sending_is_told() {
    assert_eq!(proxy(Sent::Answered(3)), Ok(3));
    assert_eq!(
        proxy::<u8>(Sent::NotBuilt("bad url".to_string())),
        Err(ErrorCause::Other("Unable to build request: bad url".to_string()))
    );
    assert_eq!(
        proxy::<u8>(Sent::Failed("timeout".to_string())),
        Err(ErrorCause::ReplicaUnreachable("HTTP call failed: timeout".to_string()))
    );
}

#[test]
fn calls_are_greeted() {
    assert_eq!(call(), "Hello, World!");
    assert_eq!(read_state(), "Hello, World!");
}

#[test]
fn body_is_read_or_refused() {
    assert_eq!(read_body(Some(vec![1, 2])), Ok(vec![1, 2]));
    assert_eq!(read_body(None), Err(ErrorCause::UnableToReadBody));
}

#[test]
fn body_enriches_the_context() {
    let mut ctx = RequestContext::default();
    assert_eq!(parse_body(&mut ctx, Ok(envelope(Some(vec![1]), Some(vec![4])))), Ok(()));
    assert_eq!(ctx.canister_id_cbor, Some(id(&[1])));
    assert_eq!(ctx.sender, Some(id(&[4])));
    assert_eq!(ctx.method_name, Some("greet".to_string()));

    // What is not given stays, but for the method name.
    let mut silent = envelope(None, None);
    silent.content.method_name = None;
    assert_eq!(parse_body(&mut ctx, Ok(silent)), Ok(()));
    assert_eq!(ctx.canister_id_cbor, Some(id(&[1])));
    assert_eq!(ctx.sender, Some(id(&[4])));
    assert_eq!(ctx.method_name, None);
}

#[test]
fn body_with_long_principals_is_refused() {
    let mut ctx = RequestContext::default();
    let refused = Err("Bytes is longer than 29 bytes.".to_string());
    assert_eq!(parse_body(&mut ctx, Ok(envelope(Some(vec![1; 30]), None))), refused);
    assert_eq!(ctx, RequestContext::default());
    // What was taken in before the error stays.
    assert_eq!(parse_body(&mut ctx, Ok(envelope(Some(vec![1; 29]), Some(vec![2; 30])))), refused);
    assert_eq!(ctx.canister_id_cbor, Some(id(&[1; 29])));
    assert_eq!(ctx.sender, None);
    assert_eq!(ctx.method_name, None);
    assert_eq!(
        parse_body(&mut ctx, Err("not CBOR".to_string())),
        Err("not CBOR".to_string())
    );
}

#[test]
fn unreadable_request_is_refused() {
    match preprocess_request(read_body(None), None) {
        Preprocessed::Refused(ctx, status) => {
            assert_eq!(status, 400);
            assert_eq!(ctx.error_cause, ErrorCause::UnableToReadBody);
        }
        _ => panic!("not refused"),
    }
}

#[test]
fn request_without_canister_is_handed_on() {
    match preprocess_request(Ok(vec![0; 10]), None) {
        Preprocessed::Unaddressed(ctx) => {
            let mut expected = RequestContext::default();
            expected.request_size = 10;
            assert_eq!(ctx, expected);
        }
        _ => panic!("not handed on"),
    }
}

#[test]
fn malformed_canister_is_refused() {
    let address = Addressed {
        canister_id: "not-a-canister".to_string(),
        envelope: Ok(envelope(None, None)),
    };
    match preprocess_request(Ok(vec![]), Some(address)) {
        Preprocessed::Refused(ctx, status) => {
            assert_eq!(status, 400);
            let details = ctx.error_cause.details().unwrap();
            assert!(details.starts_with("Unable to decode canister_id from URL: "));
            assert_eq!(ctx.error_cause.to_text(), "malformed_request");
            assert_eq!(ctx.canister_id, None);
        }
        _ => panic!("not refused"),
    }
    match address_request(
        RequestContext::default(),
        Err("why".to_string()),
        Ok(envelope(None, None)),
    ) {
        Preprocessed::Refused(ctx, 400) => assert_eq!(
            ctx.error_cause,
            ErrorCause::MalformedRequest(
                "Unable to decode canister_id from URL: why".to_string()
            )
        ),
        _ => panic!("not refused"),
    }
}

#[test]
fn unparsable_body_is_refused() {
    let address = Addressed {
        canister_id: "2vxsx-fae".to_string(),
        envelope: Err("EOF while parsing".to_string()),
    };
    match preprocess_request(Ok(vec![1]), Some(address)) {
        Preprocessed::Refused(ctx, status) => {
            assert_eq!(status, 400);
            assert_eq!(
                ctx.error_cause,
                ErrorCause::UnableToParseCBOR("EOF while parsing".to_string())
            );
            assert_eq!(ctx.canister_id, Some(id(&[4])));
            assert_eq!(ctx.node, None);
        }
        _ => panic!("not refused"),
    }
}

#[test]
fn addressed_request_is_routed_and_queried() {
    let address = Addressed {
        canister_id: "EM77E-bvlzu-aq".to_string(),
        envelope: Ok(envelope(Some(vec![9]), None)),
    };
    let (ctx, canister_id) = match preprocess_request(Ok(vec![1, 2, 3]), Some(address)) {
        Preprocessed::NodeWanted(ctx, canister_id) => (ctx, canister_id),
        _ => panic!("no node wanted"),
    };
    assert_eq!(canister_id, id(&[0xab, 0xcd, 0x01]));
    assert_eq!(canister_id.to_text(), "em77e-bvlzu-aq");
    assert_eq!(ctx.request_size, 3);

    let (refused, status) = ctx.clone().route(Err(ErrorCause::NoHealthyNodes)).unwrap_err();
    assert_eq!(status, 500);
    assert_eq!(refused.error_cause, ErrorCause::NoHealthyNodes);
    assert_eq!(refused.node, None);

    let ctx = ctx.route(Ok(node(5))).unwrap();
    assert_eq!(ctx.node, Some(node(5)));
    assert_eq!(ctx.query_target(), (node(5), canister_id));
    assert_eq!(
        proxy_url(RequestType::Query, &node(5), &canister_id),
        "https://em77e-bvlzu-aq:8080/api/v2/canister/em77e-bvlzu-aq/query"
    );
    let (failed, status) =
        query::<u8>(ctx.clone(), Err(ErrorCause::ReplicaUnreachable("x".to_string()))).unwrap_err();
    assert_eq!(status, 500);
    assert_eq!(failed.request_type, RequestType::Query);
    assert_eq!(failed.error_cause.to_text(), "replica_unreachable");
    let (answered, answer) = query(ctx, Ok(77)).unwrap();
    assert_eq!(answer, 77);
    assert_eq!(answered.request_type, RequestType::Query);
    assert_eq!(answered.error_cause, ErrorCause::NoError);
}

#[test]
fn refusals_are_never_ok() {
    let ctx = RequestContext::default();
    for route in [Route::NoTable, Route::NoSubnet, Route::Subnet(vec![])] {
        let (after, status) = ctx.clone().route(lookup_node(&route)).unwrap_err();
        assert_ne!(status, 200);
        assert_eq!(status, after.error_cause.status_code());
    }
    let mut ctx = ctx.route(Ok(node(1))).unwrap();
    ctx.canister_id = Some(id(&[4]));
    for sent in [Sent::NotBuilt("x".to_string()), Sent::Failed("y".to_string())] {
        let (after, status) = query::<u8>(ctx.clone(), proxy(sent)).unwrap_err();
        assert_ne!(status, 200);
        assert_eq!(status, after.error_cause.status_code());
    }
}

#[test]
fn redirects_keep_host_path_and_query() {
    let pq = Some("/a/b?c=d&e".to_string());
    assert_eq!(redirect_to_https("ic0.app:80", &pq), "https://ic0.app:80/a/b?c=d&e");
    assert_eq!(redirect_to_https("ic0.app", &None), "https://ic0.app/");
    assert_eq!(
        checked_redirect_to_https("ic0.app", &Some("*".to_string())),
        Some("https://ic0.app*".to_string())
    );
    assert_eq!(
        checked_redirect_to_https("ic0.app", &Some("/a#b".to_string())),
        Some("https://ic0.app/a".to_string())
    );
    assert_eq!(
        checked_redirect_to_https("ic0.app", &Some("?a".to_string())),
        Some("https://ic0.app/?a".to_string())
    );
    assert_eq!(checked_redirect_to_https("no host", &None), None);
    assert_eq!(checked_redirect_to_https("", &None), None);
}

#[test]
fn redirect_keeps_the_longest_path_that_is_kept() {
    let mut path = "/".to_string();
    while path.len() < 65_533 {
        path.push('a');
    }
    path.push('?');
    assert_eq!(path.len(), 65_534);
    let redirected = checked_redirect_to_https("h", &Some(path.clone())).unwrap();
    assert_eq!(redirected, format!("https://h{}", path));
}

#[test]
fn challenge_is_answered_with_the_token() {
    assert_eq!(acme_challenge(&Some("token".to_string())), "token");
    assert_eq!(acme_challenge(&None), "");
}

#[test]
fn response_size_is_read() {
    assert_eq!(response_size(&None), Some(0));
    assert_eq!(response_size(&Some("1234".to_string())), Some(1234));
    assert_eq!(response_size(&Some("x".to_string())), None);
}

#[test]
fn log_shows_the_context() {
    let mut ctx = RequestContext::default();
    ctx.canister_id = Some(id(&[]));
    ctx.canister_id_cbor = Some(id(&[4]));
    ctx.node = Some(node(4));
    ctx.sender = Some(id(&[0xab, 0xcd, 0x01]));
    ctx.method_name = Some("greet".to_string());
    ctx.request_type = RequestType::Query;
    ctx.error_cause = ErrorCause::Other("why".to_string());
    ctx.request_size = 12;
    assert_eq!(
        log_request("request 1".to_string(), Some(ctx), 500, &Some("34".to_string())),
        LogRecord {
            request_id: "request 1".to_string(),
            request_type: "query".to_string(),
            error_cause: "general_error".to_string(),
            error_details: Some("why".to_string()),
            status: 500,
            subnet_id: Some("2vxsx-fae".to_string()),
            node_id: Some("em77e-bvlzu-aq".to_string()),
            canister_id: Some("aaaaa-aa".to_string()),
            canister_id_cbor: Some("2vxsx-fae".to_string()),
            sender: Some("em77e-bvlzu-aq".to_string()),
            method_name: Some("greet".to_string()),
            request_size: 12,
            response_size: 34,
        }
    );
    assert_eq!(
        log_request("request 2".to_string(), None, 200, &None),
        LogRecord {
            request_id: "request 2".to_string(),
            request_type: "status".to_string(),
            error_cause: "no_error".to_string(),
            error_details: None,
            status: 200,
            subnet_id: None,
            node_id: None,
            canister_id: None,
            canister_id_cbor: None,
            sender: None,
            method_name: None,
            request_size: 0,
            response_size: 0,
        }
    );
}
