//! Laws that relate the generators to each other and to the interface they
//! were built from.

use vstd::prelude::*;

use crate::client::call_payload;
use crate::endpoint::{
    first_route, has_collision, has_route, lemma_first_route, resolve_result, route_of,
    routes_of, DispatchError, InvocationView, RouteView,
};
use crate::manifest::{event_entry, events_of, function_entry, functions_of};
use crate::model::{
    build_result, constructor_of, has_canonical_selector, items_of, well_formed,
    DeclarationView, ItemView,
};
use crate::selector::{be_bytes, be_u32, lemma_be_round_trip};

verus! {

/// The places of the methods among the items, in ascending order.
pub open spec fn method_positions(items: Seq<ItemView>) -> Seq<int>
    decreases items.len(),
{
    if items.len() == 0 {
        Seq::empty()
    } else {
        let before = method_positions(items.drop_last());
        if items.last() is Signature {
            before.push(items.len() - 1)
        } else {
            before
        }
    }
}

/// The places of the events among the items, in ascending order.
pub open spec fn event_positions(items: Seq<ItemView>) -> Seq<int>
    decreases items.len(),
{
    if items.len() == 0 {
        Seq::empty()
    } else {
        let before = event_positions(items.drop_last());
        if items.last() is Event {
            before.push(items.len() - 1)
        } else {
            before
        }
    }
}

/// The selectors of a route table, in the order of the routes.
pub open spec fn selectors(routes: Seq<RouteView>) -> Seq<u32> {
    routes.map_values(|r: RouteView| r.selector)
}

/// The ids that a route table accepts.
pub open spec fn accepted_ids(routes: Seq<RouteView>) -> Set<u32> {
    Set::new(|id: u32| has_route(routes, id))
}

/// The places of the methods are places of the items, each holds a method,
/// they ascend, and no method is left out.
pub proof fn lemma_method_positions(items: Seq<ItemView>)
    ensures
        forall|k: int|
            0 <= k < method_positions(items).len() ==> 0 <= (#[trigger] method_positions(
                items,
            )[k]) < items.len() && items[method_positions(items)[k]] is Signature,
        forall|k: int, l: int|
            0 <= k < l < method_positions(items).len() ==> (#[trigger] method_positions(
                items,
            )[k]) < (#[trigger] method_positions(items)[l]),
        forall|i: int|
            0 <= i < items.len() && (#[trigger] items[i]) is Signature ==> method_positions(
                items,
            ).contains(i),
    decreases items.len(),
{
    if items.len() > 0 {
        let before = items.drop_last();
        let p = method_positions(items);
        let q = method_positions(before);
        lemma_method_positions(before);
        assert forall|k: int| 0 <= k < p.len() implies 0 <= (#[trigger] p[k]) < items.len()
            && items[p[k]] is Signature by {
            if k < q.len() {
                assert(p[k] == q[k]);
                assert(items[q[k]] == before[q[k]]);
            }
        }
        assert forall|k: int, l: int| 0 <= k < l < p.len() implies (#[trigger] p[k]) < (
        #[trigger] p[l]) by {
            assert(p[k] == q[k]);
            if l < q.len() {
                assert(p[l] == q[l]);
            }
        }
        assert forall|i: int| 0 <= i < items.len() && (#[trigger] items[i]) is Signature implies p.contains(
            i,
        ) by {
            if i < before.len() {
                assert(before[i] == items[i]);
                assert(q.contains(i));
                let k = choose|k: int| 0 <= k < q.len() && q[k] == i;
                assert(p[k] == i);
            } else {
                assert(p[p.len() - 1] == i);
            }
        }
    }
}

/// The places of the events are places of the items, each holds an event,
/// they ascend, and no event is left out.
pub proof fn lemma_event_positions(items: Seq<ItemView>)
    ensures
        forall|k: int|
            0 <= k < event_positions(items).len() ==> 0 <= (#[trigger] event_positions(items)[k])
                < items.len() && items[event_positions(items)[k]] is Event,
        forall|k: int, l: int|
            0 <= k < l < event_positions(items).len() ==> (#[trigger] event_positions(items)[k])
                < (#[trigger] event_positions(items)[l]),
        forall|i: int|
            0 <= i < items.len() && (#[trigger] items[i]) is Event ==> event_positions(
                items,
            ).contains(i),
    decreases items.len(),
{
    if items.len() > 0 {
        let before = items.drop_last();
        let p = event_positions(items);
        let q = event_positions(before);
        lemma_event_positions(before);
        assert forall|k: int| 0 <= k < p.len() implies 0 <= (#[trigger] p[k]) < items.len()
            && items[p[k]] is Event by {
            if k < q.len() {
                assert(p[k] == q[k]);
                assert(items[q[k]] == before[q[k]]);
            }
        }
        assert forall|k: int, l: int| 0 <= k < l < p.len() implies (#[trigger] p[k]) < (
        #[trigger] p[l]) by {
            assert(p[k] == q[k]);
            if l < q.len() {
                assert(p[l] == q[l]);
            }
        }
        assert forall|i: int| 0 <= i < items.len() && (#[trigger] items[i]) is Event implies p.contains(
            i,
        ) by {
            if i < before.len() {
                assert(before[i] == items[i]);
                assert(q.contains(i));
                let k = choose|k: int| 0 <= k < q.len() && q[k] == i;
                assert(p[k] == i);
            } else {
                assert(p[p.len() - 1] == i);
            }
        }
    }
}

/// Declaration order is preserved: the route table and the functions of the
/// manifest hold one entry for each method, the events of the manifest one
/// for each event, and the entry at each place is that of the method, or
/// event, at the same place among the methods, or events, of the interface.
pub proof fn lemma_declaration_order(items: Seq<ItemView>)
    ensures
        routes_of(items).len() == method_positions(items).len(),
        functions_of(items).len() == method_positions(items).len(),
        events_of(items).len() == event_positions(items).len(),
        forall|k: int|
            0 <= k < method_positions(items).len() ==> (#[trigger] routes_of(items)[k])
                == route_of(items[method_positions(items)[k]]->Signature_0),
        forall|k: int|
            0 <= k < method_positions(items).len() ==> (#[trigger] functions_of(items)[k])
                == function_entry(items[method_positions(items)[k]]->Signature_0),
        forall|k: int|
            0 <= k < event_positions(items).len() ==> (#[trigger] events_of(items)[k])
                == event_entry(items[event_positions(items)[k]]->Event_0),
    decreases items.len(),
{
    if items.len() > 0 {
        let before = items.drop_last();
        lemma_declaration_order(before);
        lemma_method_positions(before);
        lemma_event_positions(before);
        let p = method_positions(items);
        let q = method_positions(before);
        let e = event_positions(items);
        let f = event_positions(before);
        assert forall|k: int| 0 <= k < p.len() implies (#[trigger] routes_of(items)[k])
            == route_of(items[p[k]]->Signature_0) by {
            if k < q.len() {
                assert(routes_of(items)[k] == routes_of(before)[k]);
                assert(p[k] == q[k]);
                assert(items[q[k]] == before[q[k]]);
            }
        }
        assert forall|k: int| 0 <= k < p.len() implies (#[trigger] functions_of(items)[k])
            == function_entry(items[p[k]]->Signature_0) by {
            if k < q.len() {
                assert(functions_of(items)[k] == functions_of(before)[k]);
                assert(p[k] == q[k]);
                assert(items[q[k]] == before[q[k]]);
            }
        }
        assert forall|k: int| 0 <= k < e.len() implies (#[trigger] events_of(items)[k])
            == event_entry(items[e[k]]->Event_0) by {
            if k < f.len() {
                assert(events_of(items)[k] == events_of(before)[k]);
                assert(e[k] == f[k]);
                assert(items[f[k]] == before[f[k]]);
            }
        }
    }
}

/// A payload shorter than a selector is invalid, whatever the routes and
/// the transferred value.
pub proof fn lemma_short_payload_is_invalid(
    routes: Seq<RouteView>,
    payload: Seq<u8>,
    value_is_zero: bool,
)
    requires
        payload.len() < 4,
    ensures
        resolve_result(routes, payload, value_is_zero) == Err::<InvocationView, DispatchError>(
            DispatchError::InvalidPayload,
        ),
{
}

/// A payload that holds a selector is rejected as unknown exactly when no
/// route answers to the id it starts with.
pub proof fn lemma_unknown_selector(routes: Seq<RouteView>, payload: Seq<u8>, value_is_zero: bool)
    requires
        payload.len() >= 4,
    ensures
        resolve_result(routes, payload, value_is_zero) == Err::<InvocationView, DispatchError>(
            DispatchError::UnknownSelector,
        ) <==> !accepted_ids(routes).contains(be_u32(payload)),
{
    lemma_first_route(routes, be_u32(payload));
}

/// No two routes answer to the same id exactly when the selectors of the
/// table are distinct.
pub proof fn lemma_collision_free(routes: Seq<RouteView>)
    ensures
        !has_collision(routes) <==> selectors(routes).no_duplicates(),
{
    let ids = selectors(routes);
    if has_collision(routes) {
        let (i, j) = choose|i: int, j: int|
            0 <= i < j < routes.len() && (#[trigger] routes[i]).selector == (
            #[trigger] routes[j]).selector;
        assert(ids[i] == ids[j]);
    }
    if !ids.no_duplicates() {
        let (i, j) = choose|i: int, j: int|
            0 <= i < ids.len() && 0 <= j < ids.len() && i != j && ids[i] == ids[j];
        if i < j {
            assert(routes[i].selector == routes[j].selector);
        } else {
            assert(routes[j].selector == routes[i].selector);
        }
    }
}

/// The interface that a description builds carries, for its constructor
/// and for every method, the selector that the canonical signature hashes
/// to.
pub proof fn lemma_built_interface_is_well_formed(
    name: Seq<char>,
    declarations: Seq<DeclarationView>,
)
    requires
        build_result(name, declarations) is Ok,
    ensures
        well_formed(build_result(name, declarations)->Ok_0),
{
    lemma_items_are_canonical(declarations);
}

/// The methods and the constructor of a description carry the selector
/// that their canonical signature hashes to.
pub proof fn lemma_items_are_canonical(declarations: Seq<DeclarationView>)
    ensures
        forall|i: int|
            0 <= i < items_of(declarations).len() ==> ((#[trigger] items_of(
                declarations,
            )[i]) matches ItemView::Signature(signature) ==> has_canonical_selector(signature)),
        constructor_of(declarations) matches Some(signature) ==> has_canonical_selector(signature),
    decreases declarations.len(),
{
    if declarations.len() > 0 {
        lemma_items_are_canonical(declarations.drop_last());
        let before = items_of(declarations.drop_last());
        assert forall|i: int| 0 <= i < items_of(declarations).len() implies ((
        #[trigger] items_of(declarations)[i]) matches ItemView::Signature(signature)
            ==> has_canonical_selector(signature)) by {
            if i < before.len() {
                assert(items_of(declarations)[i] == before[i]);
            }
        }
    }
}

/// A dispatcher without colliding routes accepts exactly as many ids as
/// the interface has methods: the selectors of its methods.
pub proof fn lemma_accepts_one_id_per_method(items: Seq<ItemView>)
    requires
        !has_collision(routes_of(items)),
    ensures
        accepted_ids(routes_of(items)).finite(),
        accepted_ids(routes_of(items)).len() == method_positions(items).len(),
        accepted_ids(routes_of(items)) == selectors(routes_of(items)).to_set(),
{
    let routes = routes_of(items);
    let ids = selectors(routes);
    lemma_declaration_order(items);
    lemma_collision_free(routes);
    assert forall|id: u32| accepted_ids(routes).contains(id) <==> ids.to_set().contains(id) by {
        if has_route(routes, id) {
            let i = choose|i: int| 0 <= i < routes.len() && (#[trigger] routes[i]).selector == id;
            assert(ids[i] == id);
            assert(ids.contains(id));
        }
        if ids.contains(id) {
            let i = choose|i: int| 0 <= i < ids.len() && ids[i] == id;
            assert(routes[i].selector == id);
        }
    }
    assert(accepted_ids(routes) =~= ids.to_set());
    ids.unique_seq_to_set();
    vstd::seq_lib::seq_to_set_is_finite(ids);
}

/// A call of a method that is not payable fails with `ValueNotAccepted`
/// when a value is transferred; the same call without a value passes the
/// checks and goes on to argument decoding.
pub proof fn lemma_value_check(routes: Seq<RouteView>, payload: Seq<u8>, route: int)
    requires
        payload.len() >= 4,
        first_route(routes, be_u32(payload)) == Some(route),
        !routes[route].is_payable,
    ensures
        resolve_result(routes, payload, false) == Err::<InvocationView, DispatchError>(
            DispatchError::ValueNotAccepted,
        ),
        resolve_result(routes, payload, true) == Ok::<InvocationView, DispatchError>(
            InvocationView { route, arguments: payload.skip(4) },
        ),
{
}

/// What the client frames, the dispatcher unframes: the payload of a call
/// starts with the selector it was made for, and a dispatcher that accepts
/// the call takes the first route of that selector and hands on the encoded
/// arguments byte for byte.
pub proof fn lemma_call_reaches_route(
    routes: Seq<RouteView>,
    selector: u32,
    encoded_arguments: Seq<u8>,
    value_is_zero: bool,
)
    requires
        has_route(routes, selector),
    ensures
        be_u32(call_payload(selector, encoded_arguments)) == selector,
        call_payload(selector, encoded_arguments).skip(4) == encoded_arguments,
        first_route(routes, selector) is Some,
        ({
            let route = first_route(routes, selector)->Some_0;
            resolve_result(routes, call_payload(selector, encoded_arguments), value_is_zero) == if
                !routes[route].is_payable && !value_is_zero {
                Err::<InvocationView, DispatchError>(DispatchError::ValueNotAccepted)
            } else {
                Ok::<InvocationView, DispatchError>(
                    InvocationView { route, arguments: encoded_arguments },
                )
            }
        }),
{
    let payload = call_payload(selector, encoded_arguments);
    lemma_be_round_trip(selector);
    lemma_first_route(routes, selector);
    assert(payload.len() >= 4);
    assert(payload[0] == be_bytes(selector)[0]);
    assert(payload[1] == be_bytes(selector)[1]);
    assert(payload[2] == be_bytes(selector)[2]);
    assert(payload[3] == be_bytes(selector)[3]);
    assert(be_u32(payload) == be_u32(be_bytes(selector)));
    assert(payload.skip(4) =~= encoded_arguments);
}

} // verus!
