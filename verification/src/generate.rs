//! One compilation pass: from the arguments and the description of an
//! interface to its manifest, its dispatcher and, where asked for, its client.

use vstd::prelude::*;
use vstd::string::StringExecFns;

use crate::args::{parse_args, parsed_args, Args};
use crate::client::{definition_of, generate_eth_client, ClientDefinition, ClientDefinitionView};
use crate::endpoint::{endpoint_of, generate_eth_endpoint, Endpoint, EndpointView};
use crate::manifest::{manifest_of, Manifest};
use crate::model::{
    build_result, declarations_view, Declaration, DescriptionError, Interface, InterfaceView,
};

verus! {

/// What is generated for one interface.
#[derive(Debug, PartialEq, Eq)]
pub struct Artifacts {
    /// The name of the module that holds the generated items.
    pub module: String,
    /// The dispatcher.
    pub endpoint: Endpoint,
    /// The client, where one was asked for.
    pub client: Option<ClientDefinition>,
}

/// The mathematical value of [`Artifacts`].
pub struct ArtifactsView {
    pub module: Seq<char>,
    pub endpoint: EndpointView,
    pub client: Option<ClientDefinitionView>,
}

impl View for Artifacts {
    type V = ArtifactsView;

    open spec fn view(&self) -> ArtifactsView {
        ArtifactsView {
            module: self.module@,
            endpoint: self.endpoint@,
            client: match self.client {
                Some(client) => Some(client@),
                None => None,
            },
        }
    }
}

/// What one compilation pass produces.
#[derive(Debug, PartialEq, Eq)]
pub struct Compilation {
    /// The manifest to publish.
    pub manifest: Manifest,
    /// The generated dispatcher and client.
    pub artifacts: Artifacts,
}

/// The name of the module that holds what is generated for an interface.
pub open spec fn module_name(interface: Seq<char>) -> Seq<char> {
    "pwasm_abi_impl_"@ + interface
}

/// What is generated for an interface under the given names.
pub open spec fn artifacts_of(
    interface: InterfaceView,
    endpoint_name: Seq<char>,
    client_name: Option<Seq<char>>,
) -> ArtifactsView {
    ArtifactsView {
        module: module_name(interface.name),
        endpoint: endpoint_of(endpoint_name, interface),
        client: match client_name {
            Some(name) => Some(definition_of(name, interface)),
            None => None,
        },
    }
}

/// The client name that a text of arguments holds, if it holds one.
pub open spec fn client_name_of(args: Seq<char>) -> Option<Seq<char>> {
    if parsed_args(args).len() == 2 {
        Some(parsed_args(args)[1])
    } else {
        None
    }
}

/// Renders the name of the module that holds what is generated for `intf`.
fn module_name_for(intf: &Interface) -> (name: String)
    ensures
        name@ == module_name(intf@.name),
{
    let mut name = String::from_str("pwasm_abi_impl_");
    name.append(intf.name.as_str());
    name
}

/// Generates the dispatcher of `intf`, in its module.
pub fn generate_eth_endpoint_wrapper(intf: &Interface, endpoint_name: &str) -> (artifacts:
    Artifacts)
    ensures
        artifacts@ == artifacts_of(intf@, endpoint_name@, None),
{
    Artifacts {
        module: module_name_for(intf),
        endpoint: generate_eth_endpoint(endpoint_name, intf),
        client: None,
    }
}

/// Generates the dispatcher and the client of `intf`, in their module.
pub fn generate_eth_endpoint_and_client_wrapper(
    intf: &Interface,
    endpoint_name: &str,
    client_name: &str,
) -> (artifacts: Artifacts)
    ensures
        artifacts@ == artifacts_of(intf@, endpoint_name@, Some(client_name@)),
{
    Artifacts {
        module: module_name_for(intf),
        endpoint: generate_eth_endpoint(endpoint_name, intf),
        client: Some(generate_eth_client(client_name, intf)),
    }
}

/// Generates what `args` asks for: the dispatcher, and the client where a
/// client name is given.
pub fn generate(args: &Args, intf: &Interface) -> (artifacts: Artifacts)
    ensures
        artifacts@ == artifacts_of(
            intf@,
            args.endpoint_name@,
            match args.client_name {
                Some(name) => Some(name@),
                None => None,
            },
        ),
{
    match args.client_name() {
        None => generate_eth_endpoint_wrapper(intf, args.endpoint_name()),
        Some(client_name) => generate_eth_endpoint_and_client_wrapper(
            intf,
            args.endpoint_name(),
            client_name,
        ),
    }
}

/// Derives the artifacts of an interface: `args` holds the endpoint name
/// and, optionally, the client name; `name` and `declarations` describe the
/// interface. A description that is not an interface gives its error.
pub fn eth_abi(args: &str, name: &str, declarations: &Vec<Declaration>) -> (result: Result<
    Compilation,
    DescriptionError,
>)
    requires
        1 <= parsed_args(args@).len() <= 2,
    ensures
        match build_result(name@, declarations_view(declarations@)) {
            Err(error) => result == Err::<Compilation, DescriptionError>(error),
            Ok(interface) => result is Ok && result->Ok_0.manifest@ == manifest_of(interface)
                && result->Ok_0.artifacts@ == artifacts_of(
                interface,
                parsed_args(args@)[0],
                client_name_of(args@),
            ),
        },
{
    let args = parse_args(args);
    match Interface::from_description(name, declarations) {
        Err(error) => Err(error),
        Ok(intf) => {
            let manifest = Manifest::from_interface(&intf);
            let artifacts = generate(&args, &intf);
            Ok(Compilation { manifest, artifacts })
        },
    }
}

} // verus!
