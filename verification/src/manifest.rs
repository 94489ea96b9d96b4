//! The manifest: the description of an interface that is published for
//! tooling, with every type under its canonical name.

use vstd::prelude::*;
use vstd::string::StringExecFns;

use crate::model::{
    items_view, arguments_view, Argument, ArgumentView, Event, EventView, Interface,
    InterfaceView, Item, ItemView, Signature, SignatureView,
};
use crate::types::ParamType;

verus! {

/// A named input of a function, a constructor or an event.
#[derive(Debug, PartialEq, Eq)]
pub struct Param {
    /// The binding name.
    pub name: String,
    /// The canonical name of the type.
    pub ty: String,
}

/// The mathematical value of a [`Param`].
pub struct ParamView {
    pub name: Seq<char>,
    pub ty: Seq<char>,
}

impl View for Param {
    type V = ParamView;

    open spec fn view(&self) -> ParamView {
        ParamView { name: self.name@, ty: self.ty@ }
    }
}

/// The values of a list of inputs.
pub open spec fn params_view(params: Seq<Param>) -> Seq<ParamView> {
    params.map_values(|p: Param| p@)
}

/// The values of a list of texts.
pub open spec fn texts_view(texts: Seq<String>) -> Seq<Seq<char>> {
    texts.map_values(|t: String| t@)
}

/// The constructor of a manifest.
#[derive(Debug, PartialEq, Eq)]
pub struct ConstructorEntry {
    /// The inputs in declaration order.
    pub inputs: Vec<Param>,
    /// Whether the constructor accepts a transferred value.
    pub payable: bool,
}

/// The mathematical value of a [`ConstructorEntry`].
pub struct ConstructorEntryView {
    pub inputs: Seq<ParamView>,
    pub payable: bool,
}

impl View for ConstructorEntry {
    type V = ConstructorEntryView;

    open spec fn view(&self) -> ConstructorEntryView {
        ConstructorEntryView { inputs: params_view(self.inputs@), payable: self.payable }
    }
}

/// A function of a manifest.
#[derive(Debug, PartialEq, Eq)]
pub struct FunctionEntry {
    /// The method name.
    pub name: String,
    /// The inputs in declaration order.
    pub inputs: Vec<Param>,
    /// The canonical names of the return types in declaration order.
    pub outputs: Vec<String>,
    /// Whether the method accepts a transferred value.
    pub payable: bool,
    /// The selector of the method.
    pub selector: u32,
}

/// The mathematical value of a [`FunctionEntry`].
pub struct FunctionEntryView {
    pub name: Seq<char>,
    pub inputs: Seq<ParamView>,
    pub outputs: Seq<Seq<char>>,
    pub payable: bool,
    pub selector: u32,
}

impl View for FunctionEntry {
    type V = FunctionEntryView;

    open spec fn view(&self) -> FunctionEntryView {
        FunctionEntryView {
            name: self.name@,
            inputs: params_view(self.inputs@),
            outputs: texts_view(self.outputs@),
            payable: self.payable,
            selector: self.selector,
        }
    }
}

/// The values of a list of functions.
pub open spec fn functions_view(functions: Seq<FunctionEntry>) -> Seq<FunctionEntryView> {
    functions.map_values(|f: FunctionEntry| f@)
}

/// An event of a manifest.
#[derive(Debug, PartialEq, Eq)]
pub struct EventEntry {
    /// The event name.
    pub name: String,
    /// The inputs in declaration order.
    pub inputs: Vec<Param>,
}

/// The mathematical value of an [`EventEntry`].
pub struct EventEntryView {
    pub name: Seq<char>,
    pub inputs: Seq<ParamView>,
}

impl View for EventEntry {
    type V = EventEntryView;

    open spec fn view(&self) -> EventEntryView {
        EventEntryView { name: self.name@, inputs: params_view(self.inputs@) }
    }
}

/// The values of a list of events.
pub open spec fn events_view(events: Seq<EventEntry>) -> Seq<EventEntryView> {
    events.map_values(|e: EventEntry| e@)
}

/// The manifest of one interface. The order of the fields is the order in
/// which they are published.
#[derive(Debug, PartialEq, Eq)]
pub struct Manifest {
    /// The interface name.
    pub name: String,
    /// The constructor, if one was declared.
    pub constructor: Option<ConstructorEntry>,
    /// The methods in declaration order.
    pub functions: Vec<FunctionEntry>,
    /// The events in declaration order.
    pub events: Vec<EventEntry>,
}

/// The mathematical value of a [`Manifest`].
pub struct ManifestView {
    pub name: Seq<char>,
    pub constructor: Option<ConstructorEntryView>,
    pub functions: Seq<FunctionEntryView>,
    pub events: Seq<EventEntryView>,
}

impl View for Manifest {
    type V = ManifestView;

    open spec fn view(&self) -> ManifestView {
        ManifestView {
            name: self.name@,
            constructor: match self.constructor {
                Some(entry) => Some(entry@),
                None => None,
            },
            functions: functions_view(self.functions@),
            events: events_view(self.events@),
        }
    }
}

/// The input that an argument is published as.
pub open spec fn param_of(argument: ArgumentView) -> ParamView {
    ParamView { name: argument.name, ty: argument.ty.canonical_view() }
}

/// The inputs that a list of arguments is published as.
pub open spec fn params_of(arguments: Seq<ArgumentView>) -> Seq<ParamView> {
    arguments.map_values(|a: ArgumentView| param_of(a))
}

/// The canonical names of a list of types.
pub open spec fn tys(types: Seq<ParamType>) -> Seq<Seq<char>> {
    types.map_values(|t: ParamType| t.canonical_view())
}

/// The entry that a constructor is published as.
pub open spec fn constructor_entry(signature: SignatureView) -> ConstructorEntryView {
    ConstructorEntryView { inputs: params_of(signature.arguments), payable: signature.is_payable }
}

/// The entry that a method is published as.
pub open spec fn function_entry(signature: SignatureView) -> FunctionEntryView {
    FunctionEntryView {
        name: signature.name,
        inputs: params_of(signature.arguments),
        outputs: tys(signature.return_types),
        payable: signature.is_payable,
        selector: signature.selector,
    }
}

/// The entry that an event is published as.
pub open spec fn event_entry(event: EventView) -> EventEntryView {
    EventEntryView { name: event.name, inputs: params_of(event.arguments) }
}

/// The functions of a list of items: one for each method, in the order of
/// the items.
pub open spec fn functions_of(items: Seq<ItemView>) -> Seq<FunctionEntryView>
    decreases items.len(),
{
    if items.len() == 0 {
        Seq::empty()
    } else {
        let before = functions_of(items.drop_last());
        match items.last() {
            ItemView::Signature(signature) => before.push(function_entry(signature)),
            ItemView::Event(_) => before,
        }
    }
}

/// The events of a list of items: one for each event, in the order of the
/// items.
pub open spec fn events_of(items: Seq<ItemView>) -> Seq<EventEntryView>
    decreases items.len(),
{
    if items.len() == 0 {
        Seq::empty()
    } else {
        let before = events_of(items.drop_last());
        match items.last() {
            ItemView::Signature(_) => before,
            ItemView::Event(event) => before.push(event_entry(event)),
        }
    }
}

/// The manifest of an interface.
pub open spec fn manifest_of(interface: InterfaceView) -> ManifestView {
    ManifestView {
        name: interface.name,
        constructor: match interface.constructor {
            Some(signature) => Some(constructor_entry(signature)),
            None => None,
        },
        functions: functions_of(interface.items),
        events: events_of(interface.items),
    }
}

/// The place of the manifest of the interface `name` below `target_dir`.
pub open spec fn manifest_path(target_dir: Seq<char>, name: Seq<char>) -> Seq<char> {
    target_dir + "/json/"@ + name + ".json"@
}

/// Renders the inputs that a list of arguments is published as.
pub fn params_from(arguments: &Vec<Argument>) -> (params: Vec<Param>)
    ensures
        params_view(params@) == params_of(arguments_view(arguments@)),
{
    let mut params: Vec<Param> = Vec::new();
    let mut i: usize = 0;
    while i < arguments.len()
        invariant
            i <= arguments.len(),
            params@.len() == i,
            forall|j: int| 0 <= j < i ==> (#[trigger] params@[j])@ == param_of(arguments@[j]@),
        decreases arguments.len() - i,
    {
        let argument = &arguments[i];
        params.push(Param { name: argument.name.clone(), ty: argument.ty.canonical() });
        i = i + 1;
    }
    assert(params_view(params@) =~= params_of(arguments_view(arguments@)));
    params
}

/// Renders the canonical names of a list of types.
pub fn names_from(types: &Vec<ParamType>) -> (names: Vec<String>)
    ensures
        texts_view(names@) == tys(types@),
{
    let mut names: Vec<String> = Vec::new();
    let mut i: usize = 0;
    while i < types.len()
        invariant
            i <= types.len(),
            names@.len() == i,
            forall|j: int| 0 <= j < i ==> (#[trigger] names@[j])@ == types@[j].canonical_view(),
        decreases types.len() - i,
    {
        names.push(types[i].canonical());
        i = i + 1;
    }
    assert(texts_view(names@) =~= tys(types@));
    names
}

impl ConstructorEntry {
    /// Builds the entry of the constructor.
    pub fn from_signature(signature: &Signature) -> (entry: ConstructorEntry)
        ensures
            entry@ == constructor_entry(signature@),
    {
        ConstructorEntry { inputs: params_from(&signature.arguments), payable: signature.is_payable }
    }
}

impl FunctionEntry {
    /// Builds the entry of a method.
    pub fn from_signature(signature: &Signature) -> (entry: FunctionEntry)
        ensures
            entry@ == function_entry(signature@),
    {
        FunctionEntry {
            name: signature.name.clone(),
            inputs: params_from(&signature.arguments),
            outputs: names_from(&signature.return_types),
            payable: signature.is_payable,
            selector: signature.selector,
        }
    }
}

impl EventEntry {
    /// Builds the entry of an event.
    pub fn from_event(event: &Event) -> (entry: EventEntry)
        ensures
            entry@ == event_entry(event@),
    {
        EventEntry { name: event.name.clone(), inputs: params_from(&event.arguments) }
    }
}

impl Manifest {
    /// Builds the manifest of `intf`: its name, its constructor if it has
    /// one, then its methods and its events, each in declaration order.
    pub fn from_interface(intf: &Interface) -> (manifest: Manifest)
        ensures
            manifest@ == manifest_of(intf@),
    {
        let ghost items = items_view(intf.items@);
        let constructor = match &intf.constructor {
            Some(signature) => Some(ConstructorEntry::from_signature(signature)),
            None => None,
        };
        let mut functions: Vec<FunctionEntry> = Vec::new();
        let mut events: Vec<EventEntry> = Vec::new();
        let mut i: usize = 0;
        while i < intf.items.len()
            invariant
                i <= intf.items.len(),
                items == items_view(intf.items@),
                functions_view(functions@) == functions_of(items.take(i as int)),
                events_view(events@) == events_of(items.take(i as int)),
            decreases intf.items.len() - i,
        {
            proof {
                assert(items.take(i + 1).drop_last() =~= items.take(i as int));
                assert(items.take(i + 1).last() == intf.items@[i as int]@);
            }
            match &intf.items[i] {
                Item::Signature(signature) => {
                    functions.push(FunctionEntry::from_signature(signature));
                    assert(functions_view(functions@) =~= functions_of(items.take(i + 1)));
                },
                Item::Event(event) => {
                    events.push(EventEntry::from_event(event));
                    assert(events_view(events@) =~= events_of(items.take(i + 1)));
                },
            }
            i = i + 1;
        }
        assert(items.take(intf.items.len() as int) =~= items);
        Manifest { name: intf.name.clone(), constructor, functions, events }
    }

    /// The place of the manifest below `target_dir`: in the directory
    /// `json`, under the interface name with the extension `.json`.
    pub fn path(&self, target_dir: &str) -> (path: String)
        ensures
            path@ == manifest_path(target_dir@, self.name@),
    {
        let mut path = String::from_str(target_dir);
        path.append("/json/");
        path.append(self.name.as_str());
        path.append(".json");
        path
    }
}

} // verus!
