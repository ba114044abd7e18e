//! Finding a node for a request, and talking to it.
use super::types::{ErrorCause, ErrorCauseView, Node, RequestType};
use crate::principal::{principal_text, Principal};
use crate::text::{decimal, decimal_text};
use rand::seq::SliceRandom;
use vstd::prelude::*;
use vstd::string::*;

verus! {

/// What the routing table says of the canister that a request is for.
#[derive(Clone, Debug)]
pub enum Route {
    /// There is no routing table yet.
    NoTable,
    /// The table has no subnet for the canister.
    NoSubnet,
    /// The healthy nodes of the subnet of the canister.
    Subnet(Vec<Node>),
}

/// Calls `choose` of rand's `SliceRandom` on the nodes, with the generator of the
/// thread. Claimed of it: it gives one of the nodes, and none only if there is none.
/// Which one it gives is left to chance.
#[verifier::external_body]
fn choose_node(nodes: &Vec<Node>) -> (r: Option<Node>)
    ensures
        r is None <==> nodes@.len() == 0,
        r matches Some(node) ==> nodes@.contains(node),
{
    nodes.choose(&mut rand::thread_rng()).copied()
}

/// The node that was picked, or that there was none to pick.
pub fn picked_node(picked: Option<Node>) -> (r: Result<Node, ErrorCause>)
    ensures
        match picked {
            Some(node) => r == Ok::<Node, ErrorCause>(node),
            None => r == Err::<Node, ErrorCause>(ErrorCause::NoHealthyNodes),
        },
{
    match picked {
        Some(node) => Ok(node),
        None => Err(ErrorCause::NoHealthyNodes),
    }
}

/// Whether `r` is what looking for a node along `route` may give: one of the nodes of the
/// subnet, or why there is none.
pub open spec fn is_found(route: Route, r: Result<Node, ErrorCause>) -> bool {
    match route {
        Route::NoTable => r == Err::<Node, ErrorCause>(ErrorCause::NoRoutingTable),
        Route::NoSubnet => r == Err::<Node, ErrorCause>(ErrorCause::SubnetNotFound),
        Route::Subnet(nodes) => if nodes@.len() == 0 {
            r == Err::<Node, ErrorCause>(ErrorCause::NoHealthyNodes)
        } else {
            r matches Ok(node) && nodes@.contains(node)
        },
    }
}

/// Picks a node of the subnet that the routing table gives, at random.
pub fn lookup_node(route: &Route) -> (r: Result<Node, ErrorCause>)
    ensures
        is_found(*route, r),
{
    match route {
        Route::NoTable => Err(ErrorCause::NoRoutingTable),
        Route::NoSubnet => Err(ErrorCause::SubnetNotFound),
        Route::Subnet(nodes) => picked_node(choose_node(nodes)),
    }
}

/// How a replica is, as told to those who ask.
#[derive(Clone, Copy, Debug, PartialEq, Eq)]
pub enum ReplicaHealthStatus {
    Starting,
    Healthy,
    CertifiedStateBehind,
}

/// The health for this number of healthy nodes; there is no number before the first
/// routing table.
pub open spec fn health_of(node_count: Option<u32>) -> ReplicaHealthStatus {
    match node_count {
        None => ReplicaHealthStatus::Starting,
        Some(0) => ReplicaHealthStatus::CertifiedStateBehind,
        Some(_) => ReplicaHealthStatus::Healthy,
    }
}

/// The health to tell, given the number of healthy nodes in the routing table, if
/// there is one.
pub fn health(node_count: Option<u32>) -> (r: ReplicaHealthStatus)
    ensures
        r == health_of(node_count),
{
    match node_count {
        Some(count) => {
            // One healthy node is enough.
            if count > 0 {
                ReplicaHealthStatus::Healthy
            } else {
                ReplicaHealthStatus::CertifiedStateBehind
            }
        },
        None => ReplicaHealthStatus::Starting,
    }
}

/// The answer to a status request.
#[derive(Clone, Debug, PartialEq, Eq)]
pub struct HttpStatusResponse {
    pub ic_api_version: String,
    pub root_key: Option<Vec<u8>>,
    pub impl_version: Option<String>,
    pub impl_hash: Option<String>,
    pub replica_health_status: Option<ReplicaHealthStatus>,
    pub certified_height: Option<u64>,
}

/// Answers a status request.
pub fn status(health: ReplicaHealthStatus) -> (r: HttpStatusResponse)
    ensures
        r.ic_api_version@ == "0.18.0"@,
        r.root_key is None,
        r.impl_version is None,
        r.impl_hash is None,
        r.replica_health_status == Some(health),
        r.certified_height is None,
{
    HttpStatusResponse {
        ic_api_version: "0.18.0".to_owned(),
        root_key: None,
        impl_version: None,
        impl_hash: None,
        replica_health_status: Some(health),
        certified_height: None,
    }
}

/// The URL at which `node` takes requests of this type for the canister.
pub open spec fn node_url(request_type: RequestType, node: Node, canister_id: Principal) -> Seq<
    char,
> {
    "https://"@ + principal_text(node.id@) + ":"@ + decimal(node.port as nat)
        + "/api/v2/canister/"@ + principal_text(canister_id@) + "/"@ + request_type.name()
}

/// Writes the URL at which `node` takes requests of this type for the canister.
pub fn proxy_url(request_type: RequestType, node: &Node, canister_id: &Principal) -> (r: String)
    ensures
        r@ == node_url(request_type, *node, *canister_id),
{
    let mut url = "https://".to_owned();
    url.append(node.id.to_text().as_str());
    url.append(":");
    url.append(decimal_text(node.port as u64).as_str());
    url.append("/api/v2/canister/");
    url.append(canister_id.to_text().as_str());
    url.append("/");
    url.append(request_type.to_text().as_str());
    url
}

/// How a request to a node went.
#[derive(Clone, Debug)]
pub enum Sent<T> {
    /// It could not be built, for this reason.
    NotBuilt(String),
    /// It was sent and failed, for this reason.
    Failed(String),
    /// It was answered.
    Answered(T),
}

/// Why a request to a node failed, if it did.
pub open spec fn sending_failure<T>(sent: Sent<T>) -> Option<ErrorCauseView> {
    match sent {
        Sent::NotBuilt(e) => Some(ErrorCauseView::Other("Unable to build request: "@ + e@)),
        Sent::Failed(e) => Some(ErrorCauseView::ReplicaUnreachable("HTTP call failed: "@ + e@)),
        Sent::Answered(_) => None,
    }
}

/// Whether `r` is what became of a request to a node: its answer, or why there is none.
pub open spec fn is_outcome<T>(sent: Sent<T>, r: Result<T, ErrorCause>) -> bool {
    match r {
        Ok(answer) => sent == Sent::Answered(answer),
        Err(cause) => sending_failure(sent) == Some(cause@),
    }
}

/// The answer of a node, or why there is none.
pub fn proxy<T>(sent: Sent<T>) -> (r: Result<T, ErrorCause>)
    ensures
        is_outcome(sent, r),
{
    match sent {
        Sent::NotBuilt(e) => {
            let mut text = "Unable to build request: ".to_owned();
            text.append(e.as_str());
            Err(ErrorCause::Other(text))
        },
        Sent::Failed(e) => {
            let mut text = "HTTP call failed: ".to_owned();
            text.append(e.as_str());
            Err(ErrorCause::ReplicaUnreachable(text))
        },
        Sent::Answered(answer) => Ok(answer),
    }
}

/// The answer to a call.
pub fn call() -> (r: &'static str)
    ensures
        r@ == "Hello, World!"@,
{
    "Hello, World!"
}

/// The answer to a request to read the state.
pub fn read_state() -> (r: &'static str)
    ensures
        r@ == "Hello, World!"@,
{
    "Hello, World!"
}

} // verus!
