//! The remote-call client: one stub for each declared item, and the
//! decisions around one outgoing call.

use vstd::prelude::*;
use vstd::string::StringExecFns;

use crate::model::{
    argument_types, clone_types, items_view, types_of, Event, EventView, Interface,
    InterfaceView, Item, ItemView, Signature, SignatureView,
};
use crate::selector::{be_bytes, selector_bytes};
use crate::types::ParamType;
use crate::values::{Address, U256};

verus! {

/// The gas limit of a call for which none was set.
pub const DEFAULT_GAS: u64 = 200000;

/// The size in bytes of the buffer that receives the result of a call.
pub const RESULT_BUFFER_LEN: usize = 32;

/// Why a call through the client was not made, or did not come back.
#[derive(Debug, PartialEq, Eq, Structural, Clone, Copy)]
pub enum ClientError {
    /// The client has no stub at the given place.
    NoSuchMethod,
    /// The stub stands for an event, which cannot be called.
    EventNotCallable,
    /// The stub stands for the constructor, which is not called through
    /// the client.
    ConstructorNotCallable,
    /// The call primitive reported a failure.
    CallFailed,
}

/// What a stub stands for.
#[derive(Debug, PartialEq, Eq, Structural, Clone, Copy)]
pub enum StubKind {
    /// A method that can be called.
    Method {
        /// The selector that the call payload starts with.
        selector: u32,
    },
    /// An event: present for conformance with the interface, never callable.
    Event,
    /// The constructor: present for conformance with the interface, never
    /// callable.
    Constructor,
}

/// The stub of one declared item.
#[derive(Debug, PartialEq, Eq)]
pub struct CallStub {
    /// The name of the item.
    pub name: String,
    /// The types of the arguments to encode, in order.
    pub argument_types: Vec<ParamType>,
    /// The types of what a call returns, in order. A result is decoded from
    /// the output of a call exactly when there is one.
    pub return_types: Vec<ParamType>,
    /// What the stub stands for.
    pub kind: StubKind,
}

/// The mathematical value of a [`CallStub`].
pub struct CallStubView {
    pub name: Seq<char>,
    pub argument_types: Seq<ParamType>,
    pub return_types: Seq<ParamType>,
    pub kind: StubKind,
}

impl View for CallStub {
    type V = CallStubView;

    open spec fn view(&self) -> CallStubView {
        CallStubView {
            name: self.name@,
            argument_types: self.argument_types@,
            return_types: self.return_types@,
            kind: self.kind,
        }
    }
}

/// The values of a list of stubs.
pub open spec fn stubs_view(stubs: Seq<CallStub>) -> Seq<CallStubView> {
    stubs.map_values(|s: CallStub| s@)
}

/// The stubs of one interface.
#[derive(Debug, PartialEq, Eq)]
pub struct ClientDefinition {
    /// The name the client is published under.
    pub name: String,
    /// The name of the interface it calls.
    pub interface: String,
    /// The stub of the constructor, if one was declared.
    pub constructor: Option<CallStub>,
    /// One stub for each method and event, in declaration order.
    pub stubs: Vec<CallStub>,
}

/// The mathematical value of a [`ClientDefinition`].
pub struct ClientDefinitionView {
    pub name: Seq<char>,
    pub interface: Seq<char>,
    pub constructor: Option<CallStubView>,
    pub stubs: Seq<CallStubView>,
}

impl View for ClientDefinition {
    type V = ClientDefinitionView;

    open spec fn view(&self) -> ClientDefinitionView {
        ClientDefinitionView {
            name: self.name@,
            interface: self.interface@,
            constructor: match self.constructor {
                Some(stub) => Some(stub@),
                None => None,
            },
            stubs: stubs_view(self.stubs@),
        }
    }
}

/// A client bound to the account it calls.
#[derive(Debug, PartialEq, Eq)]
pub struct Client {
    /// The stubs of the interface.
    pub definition: ClientDefinition,
    /// The gas limit, if one was set.
    pub gas: Option<u64>,
    /// The account that is called.
    pub address: Address,
    /// The value to transfer, if one was set.
    pub value: Option<U256>,
}

/// A call that is ready for the call primitive.
#[derive(Debug, PartialEq, Eq)]
pub struct CallRequest {
    /// The gas limit.
    pub gas: u64,
    /// The account to call.
    pub address: Address,
    /// The value to transfer.
    pub value: U256,
    /// The selector followed by the encoded arguments.
    pub payload: Vec<u8>,
    /// The size of the buffer that receives the output: that of one result,
    /// or nothing where the method returns nothing.
    pub result_len: usize,
}

/// The mathematical value of a [`CallRequest`].
pub struct CallRequestView {
    pub gas: u64,
    pub address: Address,
    pub value: Seq<u8>,
    pub payload: Seq<u8>,
    pub result_len: nat,
}

impl View for CallRequest {
    type V = CallRequestView;

    open spec fn view(&self) -> CallRequestView {
        CallRequestView {
            gas: self.gas,
            address: self.address,
            value: self.value.bytes@,
            payload: self.payload@,
            result_len: self.result_len as nat,
        }
    }
}

/// What the call primitive made of a request.
#[derive(Debug, PartialEq, Eq)]
pub enum CallOutcome {
    /// The call failed.
    Failed,
    /// The call succeeded; the bytes are the contents of the result buffer.
    Returned(Vec<u8>),
}

/// The stub of a method.
pub open spec fn method_stub(signature: SignatureView) -> CallStubView {
    CallStubView {
        name: signature.name,
        argument_types: types_of(signature.arguments),
        return_types: signature.return_types,
        kind: StubKind::Method { selector: signature.selector },
    }
}

/// The stub of an event.
pub open spec fn event_stub(event: EventView) -> CallStubView {
    CallStubView {
        name: event.name,
        argument_types: types_of(event.arguments),
        return_types: Seq::empty(),
        kind: StubKind::Event,
    }
}

/// The stub of the constructor.
pub open spec fn constructor_stub(signature: SignatureView) -> CallStubView {
    CallStubView {
        name: signature.name,
        argument_types: types_of(signature.arguments),
        return_types: signature.return_types,
        kind: StubKind::Constructor,
    }
}

/// The stub of one item.
pub open spec fn stub_of(item: ItemView) -> CallStubView {
    match item {
        ItemView::Signature(signature) => method_stub(signature),
        ItemView::Event(event) => event_stub(event),
    }
}

/// The stubs of a list of items: one for each item, at the place of the item.
pub open spec fn stubs_of(items: Seq<ItemView>) -> Seq<CallStubView> {
    items.map_values(|item: ItemView| stub_of(item))
}

/// The stubs of an interface.
pub open spec fn definition_of(name: Seq<char>, interface: InterfaceView) -> ClientDefinitionView {
    ClientDefinitionView {
        name,
        interface: interface.name,
        constructor: match interface.constructor {
            Some(signature) => Some(constructor_stub(signature)),
            None => None,
        },
        stubs: stubs_of(interface.items),
    }
}

/// The payload of a call: the selector as four big-endian bytes, then the
/// encoded arguments.
pub open spec fn call_payload(selector: u32, encoded_arguments: Seq<u8>) -> Seq<u8> {
    be_bytes(selector) + encoded_arguments
}

/// The bytes of the value that a call transfers: the one set, or zero.
pub open spec fn transferred_value(value: Option<U256>) -> Seq<u8> {
    match value {
        Some(value) => value.bytes@,
        None => Seq::new(32, |i: int| 0u8),
    }
}

/// The gas limit of a call: the one set, or the default.
pub open spec fn gas_limit(gas: Option<u64>) -> u64 {
    match gas {
        Some(gas) => gas,
        None => DEFAULT_GAS,
    }
}

/// The request that calling a stub makes, or the reason why it makes none.
pub open spec fn prepare_result(
    stub: Option<CallStubView>,
    gas: Option<u64>,
    address: Address,
    value: Option<U256>,
    encoded_arguments: Seq<u8>,
) -> Result<CallRequestView, ClientError> {
    match stub {
        None => Err(ClientError::NoSuchMethod),
        Some(stub) => match stub.kind {
            StubKind::Event => Err(ClientError::EventNotCallable),
            StubKind::Constructor => Err(ClientError::ConstructorNotCallable),
            StubKind::Method { selector } => Ok(
                CallRequestView {
                    gas: gas_limit(gas),
                    address,
                    value: transferred_value(value),
                    payload: call_payload(selector, encoded_arguments),
                    result_len: if stub.return_types.len() > 0 {
                        RESULT_BUFFER_LEN as nat
                    } else {
                        0
                    },
                },
            ),
        },
    }
}

/// The stub at `index`, if there is one.
pub open spec fn stub_at(stubs: Seq<CallStubView>, index: int) -> Option<CallStubView> {
    if 0 <= index < stubs.len() {
        Some(stubs[index])
    } else {
        None
    }
}

/// The place of the first stub that goes by `name`.
pub open spec fn first_named(stubs: Seq<CallStubView>, name: Seq<char>) -> Option<int>
    decreases stubs.len(),
{
    if stubs.len() == 0 {
        None
    } else {
        match first_named(stubs.drop_last(), name) {
            Some(i) => Some(i),
            None => if stubs.last().name == name {
                Some(stubs.len() - 1)
            } else {
                None
            },
        }
    }
}

/// `first_named` finds the least place whose stub goes by `name`, and finds
/// none exactly when no stub does.
pub proof fn lemma_first_named(stubs: Seq<CallStubView>, name: Seq<char>)
    ensures
        match first_named(stubs, name) {
            Some(i) => 0 <= i < stubs.len() && stubs[i].name == name && forall|j: int|
                0 <= j < i ==> (#[trigger] stubs[j]).name != name,
            None => forall|j: int| 0 <= j < stubs.len() ==> (#[trigger] stubs[j]).name != name,
        },
    decreases stubs.len(),
{
    if stubs.len() > 0 {
        let before = stubs.drop_last();
        lemma_first_named(before, name);
        match first_named(before, name) {
            Some(i) => {
                assert(stubs[i] == before[i]);
                assert forall|j: int| 0 <= j < i implies (#[trigger] stubs[j]).name != name by {
                    assert(stubs[j] == before[j]);
                }
            },
            None => {
                assert forall|j: int| 0 <= j < stubs.len() - 1 implies (
                #[trigger] stubs[j]).name != name by {
                    assert(stubs[j] == before[j]);
                }
            },
        }
    }
}

impl ClientDefinition {
    /// Finds the place of the stub that goes by `name`: the first one, where
    /// several do.
    pub fn find(&self, name: &str) -> (found: Option<usize>)
        ensures
            match found {
                Some(i) => first_named(self@.stubs, name@) == Some(i as int),
                None => first_named(self@.stubs, name@) is None,
            },
    {
        let ghost stubs = self@.stubs;
        let wanted = String::from_str(name);
        proof {
            lemma_first_named(stubs, name@);
        }
        let mut i: usize = 0;
        while i < self.stubs.len()
            invariant
                i <= self.stubs.len(),
                stubs == self@.stubs,
                wanted@ == name@,
                forall|j: int| 0 <= j < i ==> (#[trigger] stubs[j]).name != name@,
            decreases self.stubs.len() - i,
        {
            assert(stubs[i as int] == self.stubs@[i as int]@);
            if self.stubs[i].name == wanted {
                proof {
                    lemma_first_named(stubs, name@);
                }
                return Some(i);
            }
            i = i + 1;
        }
        None
    }
}

impl CallStub {
    /// Builds the stub of a method.
    pub fn from_signature(signature: &Signature) -> (stub: CallStub)
        ensures
            stub@ == method_stub(signature@),
    {
        CallStub {
            name: signature.name.clone(),
            argument_types: argument_types(&signature.arguments),
            return_types: clone_types(&signature.return_types),
            kind: StubKind::Method { selector: signature.selector },
        }
    }

    /// Builds the stub of an event.
    pub fn from_event(event: &Event) -> (stub: CallStub)
        ensures
            stub@ == event_stub(event@),
    {
        CallStub {
            name: event.name.clone(),
            argument_types: argument_types(&event.arguments),
            return_types: Vec::new(),
            kind: StubKind::Event,
        }
    }

    /// Builds the stub of the constructor.
    pub fn from_constructor(signature: &Signature) -> (stub: CallStub)
        ensures
            stub@ == constructor_stub(signature@),
    {
        CallStub {
            name: signature.name.clone(),
            argument_types: argument_types(&signature.arguments),
            return_types: clone_types(&signature.return_types),
            kind: StubKind::Constructor,
        }
    }

    /// Builds the request of a call through this stub with the given
    /// settings, the arguments being encoded already.
    pub fn request(
        &self,
        gas: Option<u64>,
        address: Address,
        value: Option<U256>,
        encoded_arguments: &[u8],
    ) -> (result: Result<CallRequest, ClientError>)
        ensures
            match result {
                Ok(request) => prepare_result(Some(self@), gas, address, value, encoded_arguments@)
                    == Ok::<CallRequestView, ClientError>(request@),
                Err(error) => prepare_result(Some(self@), gas, address, value, encoded_arguments@)
                    == Err::<CallRequestView, ClientError>(error),
            },
    {
        match self.kind {
            StubKind::Event => Err(ClientError::EventNotCallable),
            StubKind::Constructor => Err(ClientError::ConstructorNotCallable),
            StubKind::Method { selector } => {
                let head = selector_bytes(selector);
                let mut payload: Vec<u8> = Vec::new();
                payload.push(head[0]);
                payload.push(head[1]);
                payload.push(head[2]);
                payload.push(head[3]);
                assert(payload@ =~= be_bytes(selector));
                let mut i: usize = 0;
                while i < encoded_arguments.len()
                    invariant
                        i <= encoded_arguments@.len(),
                        payload@ == be_bytes(selector) + encoded_arguments@.take(i as int),
                    decreases encoded_arguments@.len() - i,
                {
                    payload.push(encoded_arguments[i]);
                    assert(payload@ =~= be_bytes(selector) + encoded_arguments@.take(i + 1));
                    i = i + 1;
                }
                assert(encoded_arguments@.take(encoded_arguments@.len() as int)
                    =~= encoded_arguments@);
                let value = match value {
                    Some(value) => value,
                    None => U256::zero(),
                };
                let gas = match gas {
                    Some(gas) => gas,
                    None => DEFAULT_GAS,
                };
                let result_len: usize = if self.return_types.len() > 0 {
                    RESULT_BUFFER_LEN
                } else {
                    0
                };
                Ok(CallRequest { gas, address, value, payload, result_len })
            },
        }
    }
}

/// Builds the client of `intf`: one stub for each method and event, in
/// declaration order, and the stub of the constructor.
pub fn generate_eth_client(client_name: &str, intf: &Interface) -> (definition: ClientDefinition)
    ensures
        definition@ == definition_of(client_name@, intf@),
{
    let ghost items = items_view(intf.items@);
    let constructor = match &intf.constructor {
        Some(signature) => Some(CallStub::from_constructor(signature)),
        None => None,
    };
    let mut stubs: Vec<CallStub> = Vec::new();
    let mut i: usize = 0;
    while i < intf.items.len()
        invariant
            i <= intf.items.len(),
            items == items_view(intf.items@),
            stubs@.len() == i,
            stubs_view(stubs@) == stubs_of(items.take(i as int)),
        decreases intf.items.len() - i,
    {
        let stub = match &intf.items[i] {
            Item::Signature(signature) => CallStub::from_signature(signature),
            Item::Event(event) => CallStub::from_event(event),
        };
        assert(stub@ == stub_of(items[i as int]));
        let ghost before = stubs@;
        stubs.push(stub);
        assert forall|j: int| 0 <= j < i + 1 implies stubs_view(stubs@)[j] == stubs_of(
            items.take(i + 1),
        )[j] by {
            if j < i {
                assert(stubs_view(before)[j] == stubs_of(items.take(i as int))[j]);
            }
        }
        assert(stubs_view(stubs@) =~= stubs_of(items.take(i + 1)));
        i = i + 1;
    }
    assert(items.take(intf.items.len() as int) =~= items);
    ClientDefinition {
        name: String::from_str(client_name),
        interface: intf.name.clone(),
        constructor,
        stubs,
    }
}

impl Client {
    /// Binds the stubs to the account at `address`. No gas limit and no
    /// value are set.
    pub fn new(definition: ClientDefinition, address: Address) -> (client: Client)
        ensures
            client.definition == definition,
            client.address == address,
            client.gas is None,
            client.value is None,
    {
        Client { definition, gas: None, address, value: None }
    }

    /// Sets the gas limit of the calls.
    pub fn gas(self, gas: u64) -> (client: Client)
        ensures
            client.gas == Some(gas),
            client.definition == self.definition,
            client.address == self.address,
            client.value == self.value,
    {
        Client { definition: self.definition, gas: Some(gas), address: self.address, value: self.value }
    }

    /// Sets the value that the calls transfer.
    pub fn value(self, val: U256) -> (client: Client)
        ensures
            client.value == Some(val),
            client.definition == self.definition,
            client.address == self.address,
            client.gas == self.gas,
    {
        Client { definition: self.definition, gas: self.gas, address: self.address, value: Some(val) }
    }

    /// Prepares the call of the item at `index`, whose arguments are encoded
    /// already: a method gives a request; an event, or a place without a
    /// stub, gives none.
    pub fn prepare(&self, index: usize, encoded_arguments: &[u8]) -> (result: Result<
        CallRequest,
        ClientError,
    >)
        ensures
            match result {
                Ok(request) => prepare_result(
                    stub_at(self.definition@.stubs, index as int),
                    self.gas,
                    self.address,
                    self.value,
                    encoded_arguments@,
                ) == Ok::<CallRequestView, ClientError>(request@),
                Err(error) => prepare_result(
                    stub_at(self.definition@.stubs, index as int),
                    self.gas,
                    self.address,
                    self.value,
                    encoded_arguments@,
                ) == Err::<CallRequestView, ClientError>(error),
            },
    {
        if index >= self.definition.stubs.len() {
            return Err(ClientError::NoSuchMethod);
        }
        self.definition.stubs[index].request(self.gas, self.address, self.value, encoded_arguments)
    }

    /// Prepares the call of the constructor, which always fails: construction
    /// does not go through the client.
    pub fn prepare_ctor(&self, encoded_arguments: &[u8]) -> (result: Result<
        CallRequest,
        ClientError,
    >)
        ensures
            result is Err,
            result->Err_0 == if self.definition@.constructor is Some {
                ClientError::ConstructorNotCallable
            } else {
                ClientError::NoSuchMethod
            },
    {
        match &self.definition.constructor {
            Some(_) => Err(ClientError::ConstructorNotCallable),
            None => Err(ClientError::NoSuchMethod),
        }
    }
}

impl CallRequest {
    /// Turns what the call primitive made of the request into what is left
    /// to decode: a failed call is an error; a call with a result buffer
    /// hands its contents on, from which exactly one value is decoded; a
    /// call without one hands on nothing.
    pub fn finish(&self, outcome: CallOutcome) -> (result: Result<Option<Vec<u8>>, ClientError>)
        ensures
            outcome is Failed ==> result == Err::<Option<Vec<u8>>, ClientError>(
                ClientError::CallFailed,
            ),
            outcome is Returned && self.result_len == 0 ==> result == Ok::<
                Option<Vec<u8>>,
                ClientError,
            >(None),
            outcome is Returned && self.result_len > 0 ==> result == Ok::<
                Option<Vec<u8>>,
                ClientError,
            >(Some(outcome->Returned_0)),
    {
        match outcome {
            CallOutcome::Failed => Err(ClientError::CallFailed),
            CallOutcome::Returned(output) => {
                if self.result_len == 0 {
                    Ok(None)
                } else {
                    Ok(Some(output))
                }
            },
        }
    }
}

} // verus!
