//! The route table and the handlers' outcomes.
//!
//! Dispatch is an exact match on method and path: `GET /healthz` is the
//! liveness probe, `POST /subscriptions` is the subscription intake, and
//! everything else is not found. Every response of the service has an empty
//! body; only the status carries the outcome.

use vstd::prelude::*;

use crate::form::bytes_eq;
use crate::subscriptions::{apply_subscribe, spec_apply_subscribe, Relation};

verus! {

/// The request methods the service distinguishes.
#[derive(Clone, Copy, PartialEq, Eq, Structural, Debug)]
pub enum Method {
    Get,
    Post,
}

/// Where a request is dispatched.
#[derive(Clone, Copy, PartialEq, Eq, Structural, Debug)]
pub enum RouteTarget {
    Health,
    Subscribe,
    NotFound,
}

/// The bytes of the path `/healthz`.
pub open spec fn healthz_path() -> Seq<u8> {
    seq![47u8, 104u8, 101u8, 97u8, 108u8, 116u8, 104u8, 122u8]
}

/// The bytes of the path `/subscriptions`.
pub open spec fn subscriptions_path() -> Seq<u8> {
    seq![47u8, 115u8, 117u8, 98u8, 115u8, 99u8, 114u8, 105u8, 112u8, 116u8, 105u8, 111u8, 110u8, 115u8]
}

/// The route table: `GET /healthz` and `POST /subscriptions`, exact match,
/// everything else not found.
pub open spec fn spec_route(m: Method, path: Seq<u8>) -> RouteTarget {
    if m == Method::Get && path == healthz_path() {
        RouteTarget::Health
    } else if m == Method::Post && path == subscriptions_path() {
        RouteTarget::Subscribe
    } else {
        RouteTarget::NotFound
    }
}

/// The path `/healthz` as a vector.
pub fn healthz_path_vec() -> (r: Vec<u8>)
    ensures
        r@ == healthz_path(),
{
    let mut r: Vec<u8> = Vec::new();
    r.push(47);
    r.push(104);
    r.push(101);
    r.push(97);
    r.push(108);
    r.push(116);
    r.push(104);
    r.push(122);
    proof {
        assert(r@ =~= healthz_path());
    }
    r
}

/// The path `/subscriptions` as a vector.
pub fn subscriptions_path_vec() -> (r: Vec<u8>)
    ensures
        r@ == subscriptions_path(),
{
    let mut r: Vec<u8> = Vec::new();
    r.push(47);
    r.push(115);
    r.push(117);
    r.push(98);
    r.push(115);
    r.push(99);
    r.push(114);
    r.push(105);
    r.push(112);
    r.push(116);
    r.push(105);
    r.push(111);
    r.push(110);
    r.push(115);
    proof {
        assert(r@ =~= subscriptions_path());
    }
    r
}

/// Dispatches a request, following `spec_route`.
pub fn route(m: Method, path: &Vec<u8>) -> (r: RouteTarget)
    ensures
        r == spec_route(m, path@),
{
    match m {
        Method::Get => {
            if bytes_eq(path, &healthz_path_vec()) {
                RouteTarget::Health
            } else {
                RouteTarget::NotFound
            }
        },
        Method::Post => {
            if bytes_eq(path, &subscriptions_path_vec()) {
                RouteTarget::Subscribe
            } else {
                RouteTarget::NotFound
            }
        },
    }
}

/// An HTTP response as the service shapes it: a status and a body.
pub struct Response {
    pub status: u16,
    pub body: Vec<u8>,
}

/// The liveness probe: always 200 with an empty body. It takes nothing, so
/// its answer cannot depend on the store or any other shared resource.
pub fn health_check() -> (r: Response)
    ensures
        r.status == 200,
        r.body@.len() == 0,
{
    Response { status: 200, body: Vec::new() }
}

/// Runs one request against the relation: dispatches on method and path,
/// then lets the matched handler answer. Every response body is empty; only
/// the subscription handler may change the relation.
pub fn handle_request(store: &mut Relation, m: Method, path: &Vec<u8>, body: &Vec<u8>) -> (r:
    Response)
    ensures
        r.body@.len() == 0,
        spec_route(m, path@) == RouteTarget::Health ==> r.status == 200 && final(store)@ == old(
            store,
        )@,
        spec_route(m, path@) == RouteTarget::Subscribe ==> (final(store)@, r.status)
            == spec_apply_subscribe(old(store)@, body@),
        spec_route(m, path@) == RouteTarget::NotFound ==> r.status == 404 && final(store)@ == old(
            store,
        )@,
{
    match route(m, path) {
        RouteTarget::Health => health_check(),
        RouteTarget::Subscribe => {
            let status = apply_subscribe(store, body);
            Response { status, body: Vec::new() }
        },
        RouteTarget::NotFound => Response { status: 404, body: Vec::new() },
    }
}

} // verus!
