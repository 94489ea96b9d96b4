use abi_derive::client::{
    generate_eth_client, CallOutcome, CallRequest, CallStub, Client, ClientDefinition,
    ClientError, StubKind, DEFAULT_GAS, RESULT_BUFFER_LEN,
};
use abi_derive::endpoint::{generate_eth_endpoint, Invocation};
use abi_derive::model::{Argument, Declaration, Interface};
use abi_derive::types::ParamType;
use abi_derive::values::{Address, U256};

fn declare(name: &str, types: Vec<ParamType>, returns: Vec<ParamType>) -> Declaration {
    let arguments = types
        .into_iter()
        .enumerate()
        .map(|(i, ty)| Argument { name: format!("a{}", i), ty })
        .collect();
    Declaration {
        name: name.to_string(),
        arguments,
        return_types: returns,
        payable: false,
        is_constructor: false,
        is_event: false,
    }
}

fn token_interface() -> Interface {
    let mut constructor = declare("new", vec![ParamType::Uint(256)], vec![]);
    constructor.is_constructor = true;
    let mut event = declare("Transfer", vec![ParamType::Address], vec![]);
    event.is_event = true;
    let mut deposit = declare("deposit", vec![], vec![]);
    deposit.payable = true;
    Interface::from_description(
        "Token",
        &vec![
            constructor,
            declare("totalSupply", vec![], vec![ParamType::Uint(256)]),
            event,
            declare(
                "transfer",
                vec![ParamType::Address, ParamType::Uint(256)],
                vec![ParamType::Bool],
            ),
            deposit,
        ],
    )
    .unwrap()
}

fn target() -> Address {
    Address { bytes: [0x11; 20] }
}

fn connected() -> Client {
    Client::new(generate_eth_client("TokenClient", &token_interface()), target())
}

#[test]
fn one_stub_for_each_item_in_declaration_order() {
    let definition = generate_eth_client("TokenClient", &token_interface());
    assert_eq!(definition.name, "TokenClient");
    assert_eq!(definition.interface, "Token");
    let names: Vec<&str> = definition.stubs.iter().map(|stub| stub.name.as_str()).collect();
    assert_eq!(names, vec!["totalSupply", "Transfer", "transfer", "deposit"]);
    assert_eq!(definition.stubs[0].kind, StubKind::Method { selector: 0x18160ddd });
    assert_eq!(definition.stubs[0].return_types, vec![ParamType::Uint(256)]);
    assert_eq!(definition.stubs[1].kind, StubKind::Event);
    assert_eq!(
        definition.stubs[2],
        CallStub {
            name: "transfer".to_string(),
            argument_types: vec![ParamType::Address, ParamType::Uint(256)],
            return_types: vec![ParamType::Bool],
            kind: StubKind::Method { selector: 0xa9059cbb },
        }
    );
    assert!(matches!(definition.stubs[3].kind, StubKind::Method { .. }));
    assert!(definition.stubs[3].return_types.is_empty());
    assert!(definition.stubs[1].return_types.is_empty());
    let constructor = definition.constructor.as_ref().unwrap();
    assert_eq!(constructor.kind, StubKind::Constructor);
    assert_eq!(constructor.argument_types, vec![ParamType::Uint(256)]);
}

#[test]
fn client_of_an_empty_interface() {
    let interface = Interface::from_description("Empty", &vec![]).unwrap();
    assert_eq!(
        generate_eth_client("C", &interface),
        ClientDefinition {
            name: "C".to_string(),
            interface: "Empty".to_string(),
            constructor: None,
            stubs: vec![],
        }
    );
}

#[test]
fn new_client_has_no_gas_and_no_value() {
    let client = connected();
    assert_eq!(client.address, target());
    assert_eq!(client.gas, None);
    assert_eq!(client.value, None);
}

#[test]
fn builder_sets_gas_and_value() {
    let value = U256 { bytes: [9; 32] };
    let client = connected().gas(50_000).value(value);
    assert_eq!(client.gas, Some(50_000));
    assert_eq!(client.value, Some(value));
    assert_eq!(client.address, target());
    assert_eq!(client.definition, generate_eth_client("TokenClient", &token_interface()));
}

#[test]
fn payload_is_selector_then_arguments() {
    let client = connected();
    let encoded = [0xabu8; 64];
    let request = client.prepare(2, &encoded).unwrap();
    let mut expected = vec![0xa9, 0x05, 0x9c, 0xbb];
    expected.extend_from_slice(&encoded);
    assert_eq!(request.payload, expected);
    assert_eq!(request.payload.len(), 4 + 2 * 32);
}

#[test]
fn defaults_of_a_request() {
    let request = connected().prepare(0, &[]).unwrap();
    assert_eq!(
        request,
        CallRequest {
            gas: 200000,
            address: target(),
            value: U256 { bytes: [0; 32] },
            payload: vec![0x18, 0x16, 0x0d, 0xdd],
            result_len: 32,
        }
    );
    assert_eq!(DEFAULT_GAS, 200000);
    assert_eq!(RESULT_BUFFER_LEN, 32);
}

#[test]
fn settings_reach_the_request() {
    let value = U256 { bytes: [3; 32] };
    let request = connected().gas(1).value(value).prepare(3, &[]).unwrap();
    assert_eq!(request.gas, 1);
    assert_eq!(request.value, value);
    assert_eq!(request.address, target());
    assert_eq!(request.result_len, 0);
}

#[test]
fn event_cannot_be_called() {
    let client = connected();
    assert_eq!(client.prepare(1, &[]), Err(ClientError::EventNotCallable));
    assert_eq!(client.prepare(1, &[0u8; 32]), Err(ClientError::EventNotCallable));
}

#[test]
fn place_without_a_stub() {
    let client = connected();
    assert_eq!(client.prepare(4, &[]), Err(ClientError::NoSuchMethod));
    assert_eq!(client.prepare(usize::MAX, &[]), Err(ClientError::NoSuchMethod));
}

#[test]
fn constructor_cannot_be_called() {
    let client = connected();
    assert_eq!(client.prepare_ctor(&[0u8; 32]), Err(ClientError::ConstructorNotCallable));
    let stub = client.definition.constructor.as_ref().unwrap();
    assert_eq!(
        stub.request(None, target(), None, &[]),
        Err(ClientError::ConstructorNotCallable)
    );
    let plain = Interface::from_description("Plain", &vec![]).unwrap();
    let without = Client::new(generate_eth_client("C", &plain), target());
    assert_eq!(without.prepare_ctor(&[]), Err(ClientError::NoSuchMethod));
}

#[test]
fn outcome_of_a_call() {
    let client = connected();
    let with_result = client.prepare(0, &[]).unwrap();
    assert_eq!(with_result.finish(CallOutcome::Failed), Err(ClientError::CallFailed));
    assert_eq!(
        with_result.finish(CallOutcome::Returned(vec![1u8; 32])),
        Ok(Some(vec![1u8; 32]))
    );
    let without_result = client.prepare(3, &[]).unwrap();
    assert_eq!(without_result.finish(CallOutcome::Failed), Err(ClientError::CallFailed));
    assert_eq!(without_result.finish(CallOutcome::Returned(vec![])), Ok(None));
}

#[test]
fn framed_call_reaches_its_route_with_the_same_arguments() {
    let interface = token_interface();
    let client = Client::new(generate_eth_client("TokenClient", &interface), target());
    let endpoint = generate_eth_endpoint("TokenEndpoint", &interface);
    let cases: Vec<(usize, usize, Vec<u8>)> = vec![
        (0, 0, vec![]),
        (2, 1, vec![0x5a; 64]),
        (2, 1, (0..=255).collect()),
        (3, 2, vec![1]),
    ];
    for (stub, route, encoded) in cases {
        let request = client.prepare(stub, &encoded).unwrap();
        let invocation = endpoint.resolve(&request.payload, &U256::zero()).unwrap();
        assert_eq!(invocation, Invocation { route, arguments: encoded });
    }
}

#[test]
fn stubs_of_single_items() {
    let interface = token_interface();
    let constructor = interface.constructor().unwrap();
    assert_eq!(CallStub::from_constructor(constructor).kind, StubKind::Constructor);
    assert_eq!(
        CallStub::from_signature(constructor).kind,
        StubKind::Method { selector: constructor.selector }
    );
}

#[test]
fn stubs_are_found_by_name() {
    let definition = generate_eth_client("TokenClient", &token_interface());
    assert_eq!(definition.find("totalSupply"), Some(0));
    assert_eq!(definition.find("Transfer"), Some(1));
    assert_eq!(definition.find("transfer"), Some(2));
    assert_eq!(definition.find("deposit"), Some(3));
    assert_eq!(definition.find("new"), None);
    assert_eq!(definition.find(""), None);
    let client = Client::new(definition, target());
    let place = client.definition.find("transfer").unwrap();
    assert_eq!(client.prepare(place, &[]).unwrap().payload, vec![0xa9, 0x05, 0x9c, 0xbb]);
}
