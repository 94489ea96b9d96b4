use abi_derive::args::Args;
use abi_derive::generate::{
    eth_abi, generate, generate_eth_endpoint_and_client_wrapper, generate_eth_endpoint_wrapper,
};
use abi_derive::manifest::{
    names_from, params_from, ConstructorEntry, EventEntry, FunctionEntry, Manifest, Param,
};
use abi_derive::model::{Argument, Declaration, DescriptionError, Interface};
use abi_derive::types::ParamType;

fn declaration(name: &str, arguments: Vec<(&str, ParamType)>, returns: Vec<ParamType>) -> Declaration {
    Declaration {
        name: name.to_string(),
        arguments: arguments
            .into_iter()
            .map(|(name, ty)| Argument { name: name.to_string(), ty })
            .collect(),
        return_types: returns,
        payable: false,
        is_constructor: false,
        is_event: false,
    }
}

fn param(name: &str, ty: &str) -> Param {
    Param { name: name.to_string(), ty: ty.to_string() }
}

fn vault_description() -> Vec<Declaration> {
    let mut constructor = declaration("constructor", vec![("limit", ParamType::Uint(256))], vec![]);
    constructor.is_constructor = true;
    let mut deposit = declaration("deposit", vec![("memo", ParamType::Bytes)], vec![]);
    deposit.payable = true;
    let balance = declaration(
        "balanceOf",
        vec![("owner", ParamType::Address)],
        vec![ParamType::Uint(256), ParamType::Bool],
    );
    vec![constructor, deposit, balance]
}

#[test]
fn manifest_of_a_payable_and_a_plain_method_with_a_constructor() {
    let interface = Interface::from_description("Vault", &vault_description()).unwrap();
    let manifest = Manifest::from_interface(&interface);
    assert_eq!(manifest.name, "Vault");
    let constructor = manifest.constructor.as_ref().unwrap();
    assert_eq!(constructor.inputs, vec![param("limit", "uint256")]);
    assert_eq!(constructor.inputs.len(), 1);
    assert!(!constructor.payable);
    assert_eq!(manifest.functions.len(), 2);
    assert_eq!(manifest.functions[0].name, "deposit");
    assert!(manifest.functions[0].payable);
    assert_eq!(manifest.functions[0].outputs, Vec::<String>::new());
    assert_eq!(manifest.functions[0].inputs, vec![param("memo", "bytes")]);
    assert_eq!(manifest.functions[1].name, "balanceOf");
    assert!(!manifest.functions[1].payable);
    assert_eq!(manifest.functions[1].outputs, vec!["uint256".to_string(), "bool".to_string()]);
    assert_eq!(manifest.functions[1].selector, 0x70a08231);
    assert!(manifest.events.is_empty());
}

#[test]
fn manifest_keeps_methods_and_events_in_declaration_order() {
    let mut first_event = declaration("Opened", vec![], vec![]);
    first_event.is_event = true;
    let mut second_event = declaration("Closed", vec![("by", ParamType::Address)], vec![]);
    second_event.is_event = true;
    let interface = Interface::from_description(
        "Door",
        &vec![
            declaration("open", vec![], vec![]),
            first_event,
            declaration("close", vec![], vec![]),
            second_event,
            declaration("knock", vec![("times", ParamType::Uint(8))], vec![]),
        ],
    )
    .unwrap();
    let manifest = Manifest::from_interface(&interface);
    let functions: Vec<&str> = manifest.functions.iter().map(|f| f.name.as_str()).collect();
    assert_eq!(functions, vec!["open", "close", "knock"]);
    let events: Vec<&str> = manifest.events.iter().map(|e| e.name.as_str()).collect();
    assert_eq!(events, vec!["Opened", "Closed"]);
    assert_eq!(
        manifest.events[1],
        EventEntry { name: "Closed".to_string(), inputs: vec![param("by", "address")] }
    );
    assert_eq!(manifest.constructor, None);
}

#[test]
fn manifest_of_an_empty_interface() {
    let interface = Interface::from_description("Empty", &vec![]).unwrap();
    assert_eq!(
        Manifest::from_interface(&interface),
        Manifest { name: "Empty".to_string(), constructor: None, functions: vec![], events: vec![] }
    );
}

#[test]
fn entries_of_single_items() {
    let interface = Interface::from_description("Vault", &vault_description()).unwrap();
    let constructor = interface.constructor().unwrap();
    assert_eq!(
        ConstructorEntry::from_signature(constructor),
        ConstructorEntry { inputs: vec![param("limit", "uint256")], payable: false }
    );
    assert_eq!(
        FunctionEntry::from_signature(constructor),
        FunctionEntry {
            name: "constructor".to_string(),
            inputs: vec![param("limit", "uint256")],
            outputs: vec![],
            payable: false,
            selector: constructor.selector,
        }
    );
}

#[test]
fn inputs_and_type_names() {
    let arguments = vec![
        Argument { name: "data".to_string(), ty: ParamType::FixedArray(Box::new(ParamType::Uint(8)), 4) },
        Argument { name: "flag".to_string(), ty: ParamType::Bool },
    ];
    assert_eq!(params_from(&arguments), vec![param("data", "uint8[4]"), param("flag", "bool")]);
    assert_eq!(
        names_from(&vec![ParamType::Text, ParamType::Int(64)]),
        vec!["string".to_string(), "int64".to_string()]
    );
    assert!(params_from(&vec![]).is_empty());
}

#[test]
fn manifest_path_is_derived_from_the_interface_name() {
    let interface = Interface::from_description("Vault", &vault_description()).unwrap();
    let manifest = Manifest::from_interface(&interface);
    assert_eq!(manifest.path("target"), "target/json/Vault.json");
    assert_eq!(manifest.path("."), "./json/Vault.json");
    assert_eq!(manifest.path(""), "/json/Vault.json");
}

#[test]
fn endpoint_wrapper_has_no_client() {
    let interface = Interface::from_description("Vault", &vault_description()).unwrap();
    let artifacts = generate_eth_endpoint_wrapper(&interface, "VaultEndpoint");
    assert_eq!(artifacts.module, "pwasm_abi_impl_Vault");
    assert_eq!(artifacts.endpoint.name, "VaultEndpoint");
    assert_eq!(artifacts.endpoint.routes.len(), 2);
    assert_eq!(artifacts.client, None);
}

#[test]
fn endpoint_and_client_wrapper_has_both() {
    let interface = Interface::from_description("Vault", &vault_description()).unwrap();
    let artifacts = generate_eth_endpoint_and_client_wrapper(&interface, "VaultEndpoint", "VaultClient");
    assert_eq!(artifacts.module, "pwasm_abi_impl_Vault");
    assert_eq!(artifacts.endpoint, generate_eth_endpoint_wrapper(&interface, "VaultEndpoint").endpoint);
    let client = artifacts.client.unwrap();
    assert_eq!(client.name, "VaultClient");
    assert_eq!(client.stubs.len(), 2);
}

#[test]
fn arguments_decide_what_is_generated() {
    let interface = Interface::from_description("Vault", &vault_description()).unwrap();
    let only = Args { endpoint_name: "E".to_string(), client_name: None };
    assert_eq!(generate(&only, &interface), generate_eth_endpoint_wrapper(&interface, "E"));
    let both = Args { endpoint_name: "E".to_string(), client_name: Some("C".to_string()) };
    assert_eq!(
        generate(&both, &interface),
        generate_eth_endpoint_and_client_wrapper(&interface, "E", "C")
    );
}

#[test]
fn one_pass_from_arguments_and_description() {
    let compilation = eth_abi("(VaultEndpoint, VaultClient)", "Vault", &vault_description()).unwrap();
    let interface = Interface::from_description("Vault", &vault_description()).unwrap();
    assert_eq!(compilation.manifest, Manifest::from_interface(&interface));
    assert_eq!(
        compilation.artifacts,
        generate_eth_endpoint_and_client_wrapper(&interface, "VaultEndpoint", "VaultClient")
    );
    let endpoint_only = eth_abi("(VaultEndpoint)", "Vault", &vault_description()).unwrap();
    assert_eq!(endpoint_only.artifacts.client, None);
    assert_eq!(endpoint_only.artifacts.endpoint.name, "VaultEndpoint");
}

#[test]
fn one_pass_reports_a_bad_description() {
    let mut first = declaration("a", vec![], vec![]);
    first.is_constructor = true;
    let mut second = declaration("b", vec![], vec![]);
    second.is_constructor = true;
    assert_eq!(
        eth_abi("(E)", "Twice", &vec![first, second]),
        Err(DescriptionError::MultipleConstructors)
    );
}
