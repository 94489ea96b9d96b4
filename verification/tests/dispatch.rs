use abi_derive::endpoint::{
    generate_eth_endpoint, method_id, DispatchError, Endpoint, Handler, HandlerOutcome,
    Invocation, Route,
};
use abi_derive::model::{Argument, Declaration, Interface};
use abi_derive::types::ParamType;
use abi_derive::values::U256;

fn declaration(name: &str, types: Vec<ParamType>, returns: Vec<ParamType>) -> Declaration {
    let arguments = types
        .into_iter()
        .enumerate()
        .map(|(i, ty)| Argument { name: format!("a{}", i), ty })
        .collect();
    Declaration {
        name: name.to_string(),
        arguments,
        return_types: returns,
        payable: false,
        is_constructor: false,
        is_event: false,
    }
}

fn token() -> Interface {
    let mut constructor = declaration("new", vec![ParamType::Uint(256)], vec![]);
    constructor.is_constructor = true;
    let mut deposit = declaration("deposit", vec![], vec![]);
    deposit.payable = true;
    let mut event = declaration("Transfer", vec![ParamType::Address], vec![]);
    event.is_event = true;
    Interface::from_description(
        "Token",
        &vec![
            constructor,
            declaration("totalSupply", vec![], vec![ParamType::Uint(256)]),
            event,
            declaration(
                "transfer",
                vec![ParamType::Address, ParamType::Uint(256)],
                vec![ParamType::Bool],
            ),
            deposit,
        ],
    )
    .unwrap()
}

fn zero() -> U256 {
    U256::zero()
}

fn one() -> U256 {
    let mut bytes = [0u8; 32];
    bytes[31] = 1;
    U256 { bytes }
}

struct Recorder {
    calls: Vec<(usize, String, Vec<u8>)>,
    constructed: Vec<Vec<u8>>,
    reply: Vec<u8>,
    decodes: bool,
}

impl Recorder {
    fn new(reply: Vec<u8>) -> Recorder {
        Recorder { calls: vec![], constructed: vec![], reply, decodes: true }
    }
}

impl Handler for Recorder {
    fn call(&mut self, index: usize, route: &Route, arguments: &[u8]) -> HandlerOutcome {
        if !self.decodes {
            return HandlerOutcome::DecodeFailed;
        }
        self.calls.push((index, route.name.clone(), arguments.to_vec()));
        HandlerOutcome::Returned(self.reply.clone())
    }

    fn construct(&mut self, _route: &Route, arguments: &[u8]) -> HandlerOutcome {
        if !self.decodes {
            return HandlerOutcome::DecodeFailed;
        }
        self.constructed.push(arguments.to_vec());
        HandlerOutcome::Returned(vec![])
    }
}

#[test]
fn routes_follow_declaration_order() {
    let endpoint = generate_eth_endpoint("TokenEndpoint", &token());
    assert_eq!(endpoint.name, "TokenEndpoint");
    assert_eq!(endpoint.interface, "Token");
    let names: Vec<&str> = endpoint.routes.iter().map(|route| route.name.as_str()).collect();
    assert_eq!(names, vec!["totalSupply", "transfer", "deposit"]);
    let selectors: Vec<u32> = endpoint.routes.iter().map(|route| route.selector).collect();
    assert_eq!(selectors[0], 0x18160ddd);
    assert_eq!(selectors[1], 0xa9059cbb);
    assert_eq!(
        endpoint.routes[1],
        Route {
            name: "transfer".to_string(),
            selector: 0xa9059cbb,
            argument_types: vec![ParamType::Address, ParamType::Uint(256)],
            return_types: vec![ParamType::Bool],
            is_payable: false,
        }
    );
    assert!(endpoint.routes[2].is_payable);
    let constructor = endpoint.constructor.as_ref().unwrap();
    assert_eq!(constructor.argument_types, vec![ParamType::Uint(256)]);
}

#[test]
fn endpoint_without_constructor_or_methods() {
    let interface = Interface::from_description("Empty", &vec![]).unwrap();
    let endpoint = generate_eth_endpoint("E", &interface);
    assert_eq!(
        endpoint,
        Endpoint {
            name: "E".to_string(),
            interface: "Empty".to_string(),
            routes: vec![],
            constructor: None,
        }
    );
}

#[test]
fn short_payloads_are_invalid() {
    let endpoint = generate_eth_endpoint("TokenEndpoint", &token());
    let payload = [0xa9u8, 0x05, 0x9c];
    for len in 0..4 {
        assert_eq!(endpoint.resolve(&payload[..len], &zero()), Err(DispatchError::InvalidPayload));
        assert_eq!(endpoint.resolve(&payload[..len], &one()), Err(DispatchError::InvalidPayload));
        let mut handler = Recorder::new(vec![1]);
        assert_eq!(
            endpoint.dispatch(&mut handler, &payload[..len], &zero()),
            Err(DispatchError::InvalidPayload)
        );
        assert!(handler.calls.is_empty());
    }
}

#[test]
fn method_id_is_big_endian() {
    assert_eq!(method_id(&[0xa9, 0x05, 0x9c, 0xbb]), Some(0xa9059cbb));
    assert_eq!(method_id(&[0, 0, 0, 1, 9, 9]), Some(1));
    assert_eq!(method_id(&[1, 0, 0, 0]), Some(0x0100_0000));
    assert_eq!(method_id(&[0xff, 0xff, 0xff, 0xff]), Some(u32::MAX));
    assert_eq!(method_id(&[0xff, 0xff, 0xff]), None);
    assert_eq!(method_id(&[]), None);
}

#[test]
fn exactly_the_declared_selectors_are_accepted() {
    let endpoint = generate_eth_endpoint("TokenEndpoint", &token());
    let declared = [0x18160dddu32, 0xa9059cbb, endpoint.routes[2].selector];
    assert_eq!(endpoint.find_collision(), None);
    for (place, id) in declared.iter().enumerate() {
        let resolved = endpoint.resolve(&id.to_be_bytes(), &zero()).unwrap();
        assert_eq!(resolved.route, place);
    }
    for id in [0u32, 1, 0x18160dde, 0xa9059cba, 0xbb9c05a9, u32::MAX] {
        assert!(!declared.contains(&id));
        assert_eq!(
            endpoint.resolve(&id.to_be_bytes(), &zero()),
            Err(DispatchError::UnknownSelector)
        );
    }
}

#[test]
fn selector_of_an_event_or_the_constructor_is_unknown() {
    let interface = token();
    let endpoint = generate_eth_endpoint("TokenEndpoint", &interface);
    let constructor = interface.constructor().unwrap().selector;
    assert_eq!(
        endpoint.resolve(&constructor.to_be_bytes(), &zero()),
        Err(DispatchError::UnknownSelector)
    );
}

#[test]
fn value_is_refused_by_a_method_that_is_not_payable() {
    let endpoint = generate_eth_endpoint("TokenEndpoint", &token());
    let mut payload = vec![0xa9, 0x05, 0x9c, 0xbb];
    payload.extend_from_slice(&[7u8; 64]);
    assert_eq!(endpoint.resolve(&payload, &one()), Err(DispatchError::ValueNotAccepted));
    assert_eq!(
        endpoint.resolve(&payload, &zero()),
        Ok(Invocation { route: 1, arguments: vec![7u8; 64] })
    );
    let mut handler = Recorder::new(vec![0u8; 32]);
    assert_eq!(
        endpoint.dispatch(&mut handler, &payload, &one()),
        Err(DispatchError::ValueNotAccepted)
    );
    assert!(handler.calls.is_empty());
    assert_eq!(endpoint.dispatch(&mut handler, &payload, &zero()), Ok(vec![0u8; 32]));
    assert_eq!(handler.calls, vec![(1, "transfer".to_string(), vec![7u8; 64])]);
}

#[test]
fn value_is_taken_by_a_payable_method() {
    let endpoint = generate_eth_endpoint("TokenEndpoint", &token());
    let payload = endpoint.routes[2].selector.to_be_bytes();
    assert_eq!(endpoint.resolve(&payload, &one()), Ok(Invocation { route: 2, arguments: vec![] }));
    assert_eq!(endpoint.resolve(&payload, &zero()), Ok(Invocation { route: 2, arguments: vec![] }));
}

#[test]
fn value_with_a_high_byte_counts_as_nonzero() {
    let endpoint = generate_eth_endpoint("TokenEndpoint", &token());
    let mut bytes = [0u8; 32];
    bytes[0] = 0x80;
    assert!(!U256 { bytes }.is_zero());
    assert!(zero().is_zero());
    assert_eq!(
        endpoint.resolve(&[0x18, 0x16, 0x0d, 0xdd], &U256 { bytes }),
        Err(DispatchError::ValueNotAccepted)
    );
}

#[test]
fn method_without_return_types_replies_with_no_bytes() {
    let endpoint = generate_eth_endpoint("TokenEndpoint", &token());
    let payload = endpoint.routes[2].selector.to_be_bytes();
    let mut handler = Recorder::new(vec![1, 2, 3]);
    assert_eq!(endpoint.dispatch(&mut handler, &payload, &one()), Ok(vec![]));
    assert_eq!(handler.calls.len(), 1);
    assert_eq!(endpoint.respond(2, HandlerOutcome::Returned(vec![9])), Ok(vec![]));
    assert_eq!(endpoint.respond(0, HandlerOutcome::Returned(vec![9])), Ok(vec![9]));
}

#[test]
fn decode_failure_is_an_error() {
    let endpoint = generate_eth_endpoint("TokenEndpoint", &token());
    let mut handler = Recorder::new(vec![]);
    handler.decodes = false;
    assert_eq!(
        endpoint.dispatch(&mut handler, &[0xa9, 0x05, 0x9c, 0xbb, 1], &zero()),
        Err(DispatchError::ArgumentDecodeError)
    );
    assert_eq!(
        endpoint.respond(1, HandlerOutcome::DecodeFailed),
        Err(DispatchError::ArgumentDecodeError)
    );
    assert_eq!(
        endpoint.dispatch_ctor(&mut handler, &[1, 2], &zero()),
        Err(DispatchError::ArgumentDecodeError)
    );
    assert_eq!(
        Endpoint::respond_ctor(HandlerOutcome::DecodeFailed),
        Err(DispatchError::ArgumentDecodeError)
    );
    assert_eq!(Endpoint::respond_ctor(HandlerOutcome::Returned(vec![1])), Ok(()));
}

#[test]
fn reply_for_a_place_without_a_route() {
    let endpoint = generate_eth_endpoint("TokenEndpoint", &token());
    assert_eq!(
        endpoint.respond(3, HandlerOutcome::Returned(vec![1])),
        Err(DispatchError::UnknownSelector)
    );
}

#[test]
fn dispatcher_serves_the_next_call_after_a_failure() {
    let endpoint = generate_eth_endpoint("TokenEndpoint", &token());
    let mut handler = Recorder::new(vec![5u8; 32]);
    assert_eq!(
        endpoint.dispatch(&mut handler, &[1, 2, 3, 4], &zero()),
        Err(DispatchError::UnknownSelector)
    );
    assert_eq!(
        endpoint.dispatch(&mut handler, &[0x18, 0x16, 0x0d, 0xdd], &zero()),
        Ok(vec![5u8; 32])
    );
    assert_eq!(handler.calls, vec![(0, "totalSupply".to_string(), vec![])]);
}

#[test]
fn constructor_call() {
    let endpoint = generate_eth_endpoint("TokenEndpoint", &token());
    let payload = [3u8; 32];
    assert_eq!(endpoint.resolve_ctor(&payload, &zero()), Ok(Some(payload.to_vec())));
    assert_eq!(endpoint.resolve_ctor(&payload, &one()), Err(DispatchError::ValueNotAccepted));
    let mut handler = Recorder::new(vec![]);
    assert_eq!(
        endpoint.dispatch_ctor(&mut handler, &payload, &one()),
        Err(DispatchError::ValueNotAccepted)
    );
    assert!(handler.constructed.is_empty());
    assert_eq!(endpoint.dispatch_ctor(&mut handler, &payload, &zero()), Ok(()));
    assert_eq!(handler.constructed, vec![payload.to_vec()]);
}

#[test]
fn constructor_call_without_a_constructor_does_nothing() {
    let interface = Interface::from_description("Plain", &vec![declaration("f", vec![], vec![])])
        .unwrap();
    let endpoint = generate_eth_endpoint("E", &interface);
    assert_eq!(endpoint.resolve_ctor(&[1, 2, 3], &one()), Ok(None));
    let mut handler = Recorder::new(vec![]);
    assert_eq!(endpoint.dispatch_ctor(&mut handler, &[1, 2, 3], &one()), Ok(()));
    assert!(handler.constructed.is_empty());
}

#[test]
fn colliding_routes_are_found_and_the_first_one_is_taken() {
    let route = |name: &str, selector: u32| Route {
        name: name.to_string(),
        selector,
        argument_types: vec![],
        return_types: vec![],
        is_payable: false,
    };
    let endpoint = Endpoint {
        name: "E".to_string(),
        interface: "I".to_string(),
        routes: vec![route("a", 7), route("b", 8), route("c", 7)],
        constructor: None,
    };
    assert_eq!(endpoint.find_collision(), Some((0, 2)));
    assert_eq!(endpoint.find_route(7), Some(0));
    assert_eq!(endpoint.find_route(8), Some(1));
    assert_eq!(endpoint.find_route(9), None);
    assert_eq!(
        endpoint.resolve(&[0, 0, 0, 7], &zero()),
        Ok(Invocation { route: 0, arguments: vec![] })
    );
}

#[test]
fn route_of_a_signature() {
    let interface = token();
    let constructor = interface.constructor().unwrap();
    let route = Route::from_signature(constructor);
    assert_eq!(route.name, "new");
    assert_eq!(route.selector, constructor.selector);
    assert_eq!(route.argument_types, vec![ParamType::Uint(256)]);
    assert!(route.return_types.is_empty());
    assert!(!route.is_payable);
}
