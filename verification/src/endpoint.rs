//! The dispatcher: a route table from selector to method, and the decisions
//! around one incoming call.

use vstd::prelude::*;
use vstd::string::StringExecFns;

use crate::model::{
    argument_types, clone_types, types_of, Interface, InterfaceView, Item, ItemView, Signature,
    SignatureView, items_view,
};
use crate::selector::be_u32;
use crate::types::ParamType;
use crate::values::U256;

verus! {

/// Why an incoming call was not served.
#[derive(Debug, PartialEq, Eq, Structural, Clone, Copy)]
pub enum DispatchError {
    /// The payload is shorter than a selector.
    InvalidPayload,
    /// No route has the selector that the payload starts with.
    UnknownSelector,
    /// A value was transferred to a method that is not payable.
    ValueNotAccepted,
    /// The argument payload does not decode to the declared types.
    ArgumentDecodeError,
}

/// One entry of the route table.
#[derive(Debug, PartialEq, Eq)]
pub struct Route {
    /// The name of the method that the route leads to.
    pub name: String,
    /// The selector that the route answers to.
    pub selector: u32,
    /// The types to decode from the argument payload, in order.
    pub argument_types: Vec<ParamType>,
    /// The types of the result to encode, in order.
    pub return_types: Vec<ParamType>,
    /// Whether the method accepts a transferred value.
    pub is_payable: bool,
}

/// The mathematical value of a [`Route`].
pub struct RouteView {
    pub name: Seq<char>,
    pub selector: u32,
    pub argument_types: Seq<ParamType>,
    pub return_types: Seq<ParamType>,
    pub is_payable: bool,
}

impl View for Route {
    type V = RouteView;

    open spec fn view(&self) -> RouteView {
        RouteView {
            name: self.name@,
            selector: self.selector,
            argument_types: self.argument_types@,
            return_types: self.return_types@,
            is_payable: self.is_payable,
        }
    }
}

/// The values of a list of routes.
pub open spec fn routes_view(routes: Seq<Route>) -> Seq<RouteView> {
    routes.map_values(|r: Route| r@)
}

/// The dispatcher of one interface.
#[derive(Debug, PartialEq, Eq)]
pub struct Endpoint {
    /// The name the dispatcher is published under.
    pub name: String,
    /// The name of the interface it serves.
    pub interface: String,
    /// The routes, in the declaration order of their methods.
    pub routes: Vec<Route>,
    /// The route of the constructor, if one was declared.
    pub constructor: Option<Route>,
}

/// The mathematical value of an [`Endpoint`].
pub struct EndpointView {
    pub name: Seq<char>,
    pub interface: Seq<char>,
    pub routes: Seq<RouteView>,
    pub constructor: Option<RouteView>,
}

impl View for Endpoint {
    type V = EndpointView;

    open spec fn view(&self) -> EndpointView {
        EndpointView {
            name: self.name@,
            interface: self.interface@,
            routes: routes_view(self.routes@),
            constructor: match self.constructor {
                Some(route) => Some(route@),
                None => None,
            },
        }
    }
}

/// A call that passed every check made before its arguments are decoded.
#[derive(Debug, PartialEq, Eq)]
pub struct Invocation {
    /// The index of the matched route in the table.
    pub route: usize,
    /// The argument payload: what follows the selector.
    pub arguments: Vec<u8>,
}

/// The mathematical value of an [`Invocation`].
pub struct InvocationView {
    pub route: int,
    pub arguments: Seq<u8>,
}

impl View for Invocation {
    type V = InvocationView;

    open spec fn view(&self) -> InvocationView {
        InvocationView { route: self.route as int, arguments: self.arguments@ }
    }
}

/// What came of decoding the arguments, invoking the method and encoding
/// its result.
#[derive(Debug, PartialEq, Eq)]
pub enum HandlerOutcome {
    /// The argument payload did not decode to the declared types; the method
    /// was not invoked.
    DecodeFailed,
    /// The method returned; the bytes are its encoded result.
    Returned(Vec<u8>),
}

/// The implementation behind a dispatcher. For one matched route it decodes
/// the arguments in declaration order, invokes the method and encodes what
/// it returned.
pub trait Handler {
    /// Serves the method behind `route`, the entry at `index` of the table.
    fn call(&mut self, index: usize, route: &Route, arguments: &[u8]) -> HandlerOutcome;

    /// Serves the constructor behind `route`.
    fn construct(&mut self, route: &Route, arguments: &[u8]) -> HandlerOutcome;
}

/// The route that a method or a constructor is reached by.
pub open spec fn route_of(signature: SignatureView) -> RouteView {
    RouteView {
        name: signature.name,
        selector: signature.selector,
        argument_types: types_of(signature.arguments),
        return_types: signature.return_types,
        is_payable: signature.is_payable,
    }
}

/// The route table of a list of items: one route for each method, in the
/// order of the items; events have none.
pub open spec fn routes_of(items: Seq<ItemView>) -> Seq<RouteView>
    decreases items.len(),
{
    if items.len() == 0 {
        Seq::empty()
    } else {
        let before = routes_of(items.drop_last());
        match items.last() {
            ItemView::Signature(signature) => before.push(route_of(signature)),
            ItemView::Event(_) => before,
        }
    }
}

/// The dispatcher of an interface.
pub open spec fn endpoint_of(name: Seq<char>, interface: InterfaceView) -> EndpointView {
    EndpointView {
        name,
        interface: interface.name,
        routes: routes_of(interface.items),
        constructor: match interface.constructor {
            Some(signature) => Some(route_of(signature)),
            None => None,
        },
    }
}

/// Whether some route answers to `id`.
pub open spec fn has_route(routes: Seq<RouteView>, id: u32) -> bool {
    exists|i: int| 0 <= i < routes.len() && (#[trigger] routes[i]).selector == id
}

/// The index of the first route that answers to `id`.
pub open spec fn first_route(routes: Seq<RouteView>, id: u32) -> Option<int>
    decreases routes.len(),
{
    if routes.len() == 0 {
        None
    } else {
        match first_route(routes.drop_last(), id) {
            Some(i) => Some(i),
            None => if routes.last().selector == id {
                Some(routes.len() - 1)
            } else {
                None
            },
        }
    }
}

/// What the checks before argument decoding make of a call: the payload
/// must hold a selector, the selector must have a route, and a route that is
/// not payable takes no transferred value.
pub open spec fn resolve_result(
    routes: Seq<RouteView>,
    payload: Seq<u8>,
    value_is_zero: bool,
) -> Result<InvocationView, DispatchError> {
    if payload.len() < 4 {
        Err(DispatchError::InvalidPayload)
    } else {
        match first_route(routes, be_u32(payload)) {
            None => Err(DispatchError::UnknownSelector),
            Some(i) => if !routes[i].is_payable && !value_is_zero {
                Err(DispatchError::ValueNotAccepted)
            } else {
                Ok(InvocationView { route: i, arguments: payload.skip(4) })
            },
        }
    }
}

/// What the checks before argument decoding make of a constructor call:
/// nothing to do without a constructor, and a constructor that is not
/// payable takes no transferred value.
pub open spec fn resolve_ctor_result(
    constructor: Option<RouteView>,
    payload: Seq<u8>,
    value_is_zero: bool,
) -> Result<Option<Seq<u8>>, DispatchError> {
    match constructor {
        None => Ok(None),
        Some(route) => if !route.is_payable && !value_is_zero {
            Err(DispatchError::ValueNotAccepted)
        } else {
            Ok(Some(payload))
        },
    }
}

/// The reply to a call whose method was reached: a decode failure is an
/// error, a method without return types replies with no bytes, and any
/// other replies with its encoded result.
pub open spec fn respond_result(
    routes: Seq<RouteView>,
    route: int,
    decoded: bool,
    encoded: Seq<u8>,
) -> Result<Seq<u8>, DispatchError> {
    if !(0 <= route < routes.len()) {
        Err(DispatchError::UnknownSelector)
    } else if !decoded {
        Err(DispatchError::ArgumentDecodeError)
    } else if routes[route].return_types.len() == 0 {
        Ok(Seq::empty())
    } else {
        Ok(encoded)
    }
}

/// `first_route` finds the least index whose route answers to `id`, and
/// finds none exactly when no route does.
pub proof fn lemma_first_route(routes: Seq<RouteView>, id: u32)
    ensures
        match first_route(routes, id) {
            Some(i) => 0 <= i < routes.len() && routes[i].selector == id && forall|j: int|
                0 <= j < i ==> (#[trigger] routes[j]).selector != id,
            None => forall|j: int| 0 <= j < routes.len() ==> (#[trigger] routes[j]).selector != id,
        },
        first_route(routes, id) is Some <==> has_route(routes, id),
    decreases routes.len(),
{
    if routes.len() > 0 {
        let before = routes.drop_last();
        lemma_first_route(before, id);
        assert forall|j: int| 0 <= j < before.len() implies before[j] == routes[j] by {}
        match first_route(before, id) {
            Some(i) => {
                assert(routes[i] == before[i]);
                assert forall|j: int| 0 <= j < i implies (#[trigger] routes[j]).selector != id by {
                    assert(routes[j] == before[j]);
                }
            },
            None => {
                assert forall|j: int| 0 <= j < routes.len() - 1 implies (
                #[trigger] routes[j]).selector != id by {
                    assert(routes[j] == before[j]);
                }
            },
        }
    }
}

/// Whether two routes answer to the same id, which leaves the later one
/// unreachable.
pub open spec fn has_collision(routes: Seq<RouteView>) -> bool {
    exists|i: int, j: int|
        0 <= i < j < routes.len() && (#[trigger] routes[i]).selector == (
        #[trigger] routes[j]).selector
}

impl Route {
    /// Builds the route that `signature` is reached by.
    pub fn from_signature(signature: &Signature) -> (route: Route)
        ensures
            route@ == route_of(signature@),
    {
        Route {
            name: signature.name.clone(),
            selector: signature.selector,
            argument_types: argument_types(&signature.arguments),
            return_types: clone_types(&signature.return_types),
            is_payable: signature.is_payable,
        }
    }
}

/// Reads the selector that a payload starts with: its first four bytes in
/// big-endian order. A shorter payload holds none.
pub fn method_id(payload: &[u8]) -> (id: Option<u32>)
    ensures
        id == if payload@.len() < 4 {
            None
        } else {
            Some(be_u32(payload@))
        },
{
    if payload.len() < 4 {
        return None;
    }
    let b0: u8 = payload[0];
    let b1: u8 = payload[1];
    let b2: u8 = payload[2];
    let b3: u8 = payload[3];
    assert((b0 as u32) << 24 == (b0 as u32) * 0x100_0000) by (bit_vector);
    assert((b1 as u32) << 16 == (b1 as u32) * 0x1_0000) by (bit_vector);
    assert((b2 as u32) << 8 == (b2 as u32) * 0x100) by (bit_vector);
    Some(((b0 as u32) << 24) + ((b1 as u32) << 16) + ((b2 as u32) << 8) + (b3 as u32))
}

/// Copies the bytes of `payload` from `start` on.
fn copy_from(payload: &[u8], start: usize) -> (bytes: Vec<u8>)
    requires
        start <= payload@.len(),
    ensures
        bytes@ == payload@.skip(start as int),
{
    let mut bytes: Vec<u8> = Vec::new();
    let mut i: usize = start;
    while i < payload.len()
        invariant
            start <= i <= payload@.len(),
            bytes@ == payload@.subrange(start as int, i as int),
        decreases payload@.len() - i,
    {
        bytes.push(payload[i]);
        assert(bytes@ =~= payload@.subrange(start as int, i + 1));
        i = i + 1;
    }
    assert(bytes@ =~= payload@.skip(start as int));
    bytes
}

/// Builds the dispatcher of `intf`: one route for each method, in
/// declaration order, and the route of the constructor.
pub fn generate_eth_endpoint(endpoint_name: &str, intf: &Interface) -> (endpoint: Endpoint)
    ensures
        endpoint@ == endpoint_of(endpoint_name@, intf@),
{
    let ghost items = items_view(intf.items@);
    let mut routes: Vec<Route> = Vec::new();
    let mut i: usize = 0;
    while i < intf.items.len()
        invariant
            i <= intf.items.len(),
            items == items_view(intf.items@),
            routes_view(routes@) == routes_of(items.take(i as int)),
        decreases intf.items.len() - i,
    {
        proof {
            assert(items.take(i + 1).drop_last() =~= items.take(i as int));
            assert(items.take(i + 1).last() == intf.items@[i as int]@);
        }
        match &intf.items[i] {
            Item::Signature(signature) => {
                routes.push(Route::from_signature(signature));
                assert(routes_view(routes@) =~= routes_of(items.take(i + 1)));
            },
            Item::Event(_) => {},
        }
        i = i + 1;
    }
    assert(items.take(intf.items.len() as int) =~= items);
    let constructor = match &intf.constructor {
        Some(signature) => Some(Route::from_signature(signature)),
        None => None,
    };
    Endpoint {
        name: String::from_str(endpoint_name),
        interface: intf.name.clone(),
        routes,
        constructor,
    }
}

impl Endpoint {
    /// Finds the route that a call with the method id `id` takes: the
    /// first one that answers to it.
    pub fn find_route(&self, id: u32) -> (found: Option<usize>)
        ensures
            match found {
                Some(i) => first_route(self@.routes, id) == Some(i as int),
                None => first_route(self@.routes, id) is None,
            },
    {
        let ghost routes = self@.routes;
        proof {
            lemma_first_route(routes, id);
        }
        let mut i: usize = 0;
        while i < self.routes.len()
            invariant
                i <= self.routes.len(),
                routes == self@.routes,
                forall|j: int| 0 <= j < i ==> (#[trigger] routes[j]).selector != id,
            decreases self.routes.len() - i,
        {
            if self.routes[i].selector == id {
                proof {
                    lemma_first_route(routes, id);
                    assert(routes[i as int] == self.routes@[i as int]@);
                }
                return Some(i);
            }
            i = i + 1;
        }
        None
    }

    /// Makes the checks that come before argument decoding.
    ///
    /// A payload shorter than four bytes is invalid. Its first four bytes,
    /// big-endian, are the method id; the first route with that selector is
    /// the one taken, and there must be one. A route that is not payable
    /// takes the call only when no value was transferred.
    pub fn resolve(&self, payload: &[u8], value: &U256) -> (result: Result<
        Invocation,
        DispatchError,
    >)
        ensures
            match result {
                Ok(invocation) => resolve_result(self@.routes, payload@, value.is_zero()) == Ok::<
                    InvocationView,
                    DispatchError,
                >(invocation@),
                Err(error) => resolve_result(self@.routes, payload@, value.is_zero()) == Err::<
                    InvocationView,
                    DispatchError,
                >(error),
            },
    {
        let id = match method_id(payload) {
            None => {
                return Err(DispatchError::InvalidPayload);
            },
            Some(id) => id,
        };
        match self.find_route(id) {
            None => Err(DispatchError::UnknownSelector),
            Some(i) => {
                proof {
                    lemma_first_route(self@.routes, id);
                    assert(self@.routes[i as int] == self.routes@[i as int]@);
                }
                if !self.routes[i].is_payable && !value.is_zero() {
                    Err(DispatchError::ValueNotAccepted)
                } else {
                    Ok(Invocation { route: i, arguments: copy_from(payload, 4) })
                }
            },
        }
    }

    /// Looks for two routes that answer to the same id. The places of the
    /// first such pair found are returned; `None` says that every route is
    /// reachable.
    pub fn find_collision(&self) -> (found: Option<(usize, usize)>)
        ensures
            found is None <==> !has_collision(self@.routes),
            found matches Some((i, j)) ==> {
                &&& i < j < self.routes.len()
                &&& self.routes[i as int].selector == self.routes[j as int].selector
                &&& forall|a: int|
                    0 <= a < i ==> (#[trigger] self@.routes[a]).selector
                        != self.routes[j as int].selector
                &&& forall|a: int, b: int|
                    0 <= a < b < j ==> (#[trigger] self@.routes[a]).selector != (
                    #[trigger] self@.routes[b]).selector
            },
    {
        let ghost routes = self@.routes;
        let n = self.routes.len();
        let mut j: usize = 0;
        while j < n
            invariant
                j <= n,
                n == self.routes.len(),
                routes == self@.routes,
                forall|a: int, b: int|
                    0 <= a < b < j ==> (#[trigger] routes[a]).selector != (#[trigger] routes[b]).selector,
            decreases n - j,
        {
            let mut i: usize = 0;
            while i < j
                invariant
                    i <= j < n,
                    n == self.routes.len(),
                    routes == self@.routes,
                    forall|a: int, b: int|
                        0 <= a < b < j ==> (#[trigger] routes[a]).selector != (
                        #[trigger] routes[b]).selector,
                    forall|a: int| 0 <= a < i ==> (#[trigger] routes[a]).selector != routes[j as int].selector,
                decreases j - i,
            {
                if self.routes[i].selector == self.routes[j].selector {
                    assert(routes[i as int] == self.routes@[i as int]@);
                    assert(routes[j as int] == self.routes@[j as int]@);
                    return Some((i, j));
                }
                i = i + 1;
            }
            j = j + 1;
        }
        None
    }

    /// Makes the checks that come before the constructor's arguments are
    /// decoded. Without a constructor there is nothing to invoke.
    pub fn resolve_ctor(&self, payload: &[u8], value: &U256) -> (result: Result<
        Option<Vec<u8>>,
        DispatchError,
    >)
        ensures
            match result {
                Ok(Some(arguments)) => resolve_ctor_result(
                    self@.constructor,
                    payload@,
                    value.is_zero(),
                ) == Ok::<Option<Seq<u8>>, DispatchError>(Some(arguments@)),
                Ok(None) => resolve_ctor_result(self@.constructor, payload@, value.is_zero())
                    == Ok::<Option<Seq<u8>>, DispatchError>(None),
                Err(error) => resolve_ctor_result(self@.constructor, payload@, value.is_zero())
                    == Err::<Option<Seq<u8>>, DispatchError>(error),
            },
    {
        match &self.constructor {
            None => Ok(None),
            Some(route) => {
                if !route.is_payable && !value.is_zero() {
                    Err(DispatchError::ValueNotAccepted)
                } else {
                    let arguments = copy_from(payload, 0);
                    assert(arguments@ =~= payload@);
                    Ok(Some(arguments))
                }
            },
        }
    }

    /// Turns what the handler made of a call into the reply.
    pub fn respond(&self, route: usize, outcome: HandlerOutcome) -> (result: Result<
        Vec<u8>,
        DispatchError,
    >)
        ensures
            match result {
                Ok(output) => respond_result(
                    self@.routes,
                    route as int,
                    outcome is Returned,
                    outcome->Returned_0@,
                ) == Ok::<Seq<u8>, DispatchError>(output@),
                Err(error) => respond_result(
                    self@.routes,
                    route as int,
                    outcome is Returned,
                    outcome->Returned_0@,
                ) == Err::<Seq<u8>, DispatchError>(error),
            },
    {
        if route >= self.routes.len() {
            return Err(DispatchError::UnknownSelector);
        }
        match outcome {
            HandlerOutcome::DecodeFailed => Err(DispatchError::ArgumentDecodeError),
            HandlerOutcome::Returned(encoded) => {
                if self.routes[route].return_types.len() == 0 {
                    Ok(Vec::new())
                } else {
                    Ok(encoded)
                }
            },
        }
    }

    /// Turns what the handler made of a constructor call into its result:
    /// a constructor produces no output.
    pub fn respond_ctor(outcome: HandlerOutcome) -> (result: Result<(), DispatchError>)
        ensures
            result == if outcome is Returned {
                Ok::<(), DispatchError>(())
            } else {
                Err::<(), DispatchError>(DispatchError::ArgumentDecodeError)
            },
    {
        match outcome {
            HandlerOutcome::DecodeFailed => Err(DispatchError::ArgumentDecodeError),
            HandlerOutcome::Returned(_) => Ok(()),
        }
    }

    /// Serves one incoming call: makes the checks, hands a call that passed
    /// them to the handler, and replies with what came of it.
    ///
    /// A call that fails a check never reaches the handler, which is left
    /// as it was.
    pub fn dispatch<H: Handler>(&self, handler: &mut H, payload: &[u8], value: &U256) -> (result:
        Result<Vec<u8>, DispatchError>)
        ensures
            match resolve_result(self@.routes, payload@, value.is_zero()) {
                Err(error) => result == Err::<Vec<u8>, DispatchError>(error) && *final(handler)
                    == *old(handler),
                Ok(invocation) => match result {
                    Ok(output) => output@.len() > 0 ==> self@.routes[invocation.route].return_types.len()
                        > 0,
                    Err(error) => error == DispatchError::ArgumentDecodeError,
                },
            },
    {
        match self.resolve(payload, value) {
            Err(error) => Err(error),
            Ok(invocation) => {
                proof {
                    lemma_first_route(self@.routes, be_u32(payload@));
                }
                let outcome = handler.call(
                    invocation.route,
                    &self.routes[invocation.route],
                    invocation.arguments.as_slice(),
                );
                self.respond(invocation.route, outcome)
            },
        }
    }

    /// Serves the constructor call: makes the checks and hands a call that
    /// passed them to the handler. Without a constructor it does nothing.
    pub fn dispatch_ctor<H: Handler>(&self, handler: &mut H, payload: &[u8], value: &U256) -> (result:
        Result<(), DispatchError>)
        ensures
            match resolve_ctor_result(self@.constructor, payload@, value.is_zero()) {
                Err(error) => result == Err::<(), DispatchError>(error) && *final(handler) == *old(
                    handler,
                ),
                Ok(None) => result is Ok && *final(handler) == *old(handler),
                Ok(Some(_)) => result is Err ==> result == Err::<(), DispatchError>(
                    DispatchError::ArgumentDecodeError,
                ),
            },
    {
        match self.resolve_ctor(payload, value) {
            Err(error) => Err(error),
            Ok(None) => Ok(()),
            Ok(Some(arguments)) => {
                match &self.constructor {
                    Some(route) => {
                        let outcome = handler.construct(route, arguments.as_slice());
                        Endpoint::respond_ctor(outcome)
                    },
                    None => Ok(()),
                }
            },
        }
    }
}

} // verus!
