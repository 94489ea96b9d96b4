//! The interface model: callable methods, an optional constructor and events,
//! built once from a description and read by every generator.

use vstd::prelude::*;
use vstd::string::StringExecFns;

use crate::selector::{canonical_signature, selector, selector_of, signature_text};
use crate::types::ParamType;

verus! {

/// A named, typed argument.
#[derive(Debug, PartialEq, Eq)]
pub struct Argument {
    /// The binding name.
    pub name: String,
    /// The type.
    pub ty: ParamType,
}

/// The mathematical value of an [`Argument`].
pub struct ArgumentView {
    pub name: Seq<char>,
    pub ty: ParamType,
}

impl View for Argument {
    type V = ArgumentView;

    open spec fn view(&self) -> ArgumentView {
        ArgumentView { name: self.name@, ty: self.ty }
    }
}

impl Clone for Argument {
    fn clone(&self) -> (copy: Self)
        ensures
            copy == *self,
    {
        Argument { name: self.name.clone(), ty: self.ty.clone() }
    }
}

/// The values of a list of arguments.
pub open spec fn arguments_view(arguments: Seq<Argument>) -> Seq<ArgumentView> {
    arguments.map_values(|a: Argument| a@)
}

/// The types of a list of arguments, in order.
pub open spec fn types_of(arguments: Seq<ArgumentView>) -> Seq<ParamType> {
    arguments.map_values(|a: ArgumentView| a.ty)
}

/// A callable method or a constructor.
#[derive(Debug, PartialEq, Eq)]
pub struct Signature {
    /// The method name.
    pub name: String,
    /// The arguments in declaration order.
    pub arguments: Vec<Argument>,
    /// The return types in declaration order.
    pub return_types: Vec<ParamType>,
    /// The four-byte selector, as a big-endian integer.
    pub selector: u32,
    /// Whether the method accepts a transferred value.
    pub is_payable: bool,
}

/// The mathematical value of a [`Signature`].
pub struct SignatureView {
    pub name: Seq<char>,
    pub arguments: Seq<ArgumentView>,
    pub return_types: Seq<ParamType>,
    pub selector: u32,
    pub is_payable: bool,
}

impl View for Signature {
    type V = SignatureView;

    open spec fn view(&self) -> SignatureView {
        SignatureView {
            name: self.name@,
            arguments: arguments_view(self.arguments@),
            return_types: self.return_types@,
            selector: self.selector,
            is_payable: self.is_payable,
        }
    }
}

/// An event that the interface can log.
#[derive(Debug, PartialEq, Eq)]
pub struct Event {
    /// The event name.
    pub name: String,
    /// The arguments in declaration order.
    pub arguments: Vec<Argument>,
}

/// The mathematical value of an [`Event`].
pub struct EventView {
    pub name: Seq<char>,
    pub arguments: Seq<ArgumentView>,
}

impl View for Event {
    type V = EventView;

    open spec fn view(&self) -> EventView {
        EventView { name: self.name@, arguments: arguments_view(self.arguments@) }
    }
}

/// One declared item of an interface, other than its constructor.
#[derive(Debug, PartialEq, Eq)]
pub enum Item {
    /// A callable method.
    Signature(Signature),
    /// An event.
    Event(Event),
}

/// The mathematical value of an [`Item`].
pub enum ItemView {
    Signature(SignatureView),
    Event(EventView),
}

impl View for Item {
    type V = ItemView;

    open spec fn view(&self) -> ItemView {
        match self {
            Item::Signature(signature) => ItemView::Signature(signature@),
            Item::Event(event) => ItemView::Event(event@),
        }
    }
}

/// The values of a list of items.
pub open spec fn items_view(items: Seq<Item>) -> Seq<ItemView> {
    items.map_values(|i: Item| i@)
}

/// A described interface.
#[derive(Debug, PartialEq, Eq)]
pub struct Interface {
    /// The interface name.
    pub name: String,
    /// The constructor, if one was declared.
    pub constructor: Option<Signature>,
    /// The methods and events in declaration order.
    pub items: Vec<Item>,
}

/// The mathematical value of an [`Interface`].
pub struct InterfaceView {
    pub name: Seq<char>,
    pub constructor: Option<SignatureView>,
    pub items: Seq<ItemView>,
}

impl View for Interface {
    type V = InterfaceView;

    open spec fn view(&self) -> InterfaceView {
        InterfaceView {
            name: self.name@,
            constructor: match self.constructor {
                Some(signature) => Some(signature@),
                None => None,
            },
            items: items_view(self.items@),
        }
    }
}

/// One raw declaration of an interface description.
#[derive(Debug, PartialEq, Eq)]
pub struct Declaration {
    /// The declared name.
    pub name: String,
    /// The arguments in declaration order.
    pub arguments: Vec<Argument>,
    /// The return types in declaration order.
    pub return_types: Vec<ParamType>,
    /// Set by the `payable` attribute.
    pub payable: bool,
    /// Set by the `constructor` attribute.
    pub is_constructor: bool,
    /// Set by the `event` attribute.
    pub is_event: bool,
}

/// The mathematical value of a [`Declaration`].
pub struct DeclarationView {
    pub name: Seq<char>,
    pub arguments: Seq<ArgumentView>,
    pub return_types: Seq<ParamType>,
    pub payable: bool,
    pub is_constructor: bool,
    pub is_event: bool,
}

impl View for Declaration {
    type V = DeclarationView;

    open spec fn view(&self) -> DeclarationView {
        DeclarationView {
            name: self.name@,
            arguments: arguments_view(self.arguments@),
            return_types: self.return_types@,
            payable: self.payable,
            is_constructor: self.is_constructor,
            is_event: self.is_event,
        }
    }
}

/// The values of a list of declarations.
pub open spec fn declarations_view(declarations: Seq<Declaration>) -> Seq<DeclarationView> {
    declarations.map_values(|d: Declaration| d@)
}

/// Whether a signature carries the selector that its canonical signature
/// hashes to.
pub open spec fn has_canonical_selector(signature: SignatureView) -> bool {
    signature.selector == selector_of(signature.name, types_of(signature.arguments))
}

/// Whether the constructor and every method of an interface carry the
/// selector that their canonical signature hashes to.
pub open spec fn well_formed(interface: InterfaceView) -> bool {
    &&& interface.constructor matches Some(signature) ==> has_canonical_selector(signature)
    &&& forall|i: int|
        0 <= i < interface.items.len() ==> ((#[trigger] interface.items[i]) matches ItemView::Signature(
            signature,
        ) ==> has_canonical_selector(signature))
}

/// The shapes a declaration may have.
#[derive(Debug, PartialEq, Eq, Structural, Clone, Copy)]
pub enum Shape {
    /// A plain or payable method.
    Method,
    /// The constructor.
    Constructor,
    /// An event.
    Event,
}

/// Why a description is not an interface.
#[derive(Debug, PartialEq, Eq, Structural, Clone, Copy)]
pub enum DescriptionError {
    /// A declaration is none of plain method, payable method, constructor
    /// or event.
    UnsupportedDeclaration,
    /// More than one declaration is marked as the constructor.
    MultipleConstructors,
}

/// The shape of a declaration, if it has one of the supported shapes. An
/// event is neither a constructor nor payable and returns nothing; a
/// constructor is not an event.
pub open spec fn shape_of(declaration: DeclarationView) -> Option<Shape> {
    if declaration.is_event {
        if declaration.is_constructor || declaration.payable || declaration.return_types.len()
            > 0 {
            None
        } else {
            Some(Shape::Event)
        }
    } else if declaration.is_constructor {
        Some(Shape::Constructor)
    } else {
        Some(Shape::Method)
    }
}

/// The signature that a method or constructor declaration stands for, with
/// the selector that its canonical signature hashes to.
pub open spec fn signature_of(declaration: DeclarationView) -> SignatureView {
    SignatureView {
        name: declaration.name,
        arguments: declaration.arguments,
        return_types: declaration.return_types,
        selector: selector_of(declaration.name, types_of(declaration.arguments)),
        is_payable: declaration.payable,
    }
}

/// The event that an event declaration stands for.
pub open spec fn event_of(declaration: DeclarationView) -> EventView {
    EventView { name: declaration.name, arguments: declaration.arguments }
}

/// The number of declarations that are marked as the constructor and not as
/// an event.
pub open spec fn constructor_count(declarations: Seq<DeclarationView>) -> nat
    decreases declarations.len(),
{
    if declarations.len() == 0 {
        0
    } else {
        constructor_count(declarations.drop_last()) + if shape_of(declarations.last()) == Some(
            Shape::Constructor,
        ) {
            1nat
        } else {
            0nat
        }
    }
}

/// Whether every declaration has a supported shape.
pub open spec fn all_supported(declarations: Seq<DeclarationView>) -> bool {
    forall|i: int| 0 <= i < declarations.len() ==> (#[trigger] shape_of(declarations[i])) is Some
}

/// The methods and events of a description, in declaration order.
pub open spec fn items_of(declarations: Seq<DeclarationView>) -> Seq<ItemView>
    decreases declarations.len(),
{
    if declarations.len() == 0 {
        Seq::empty()
    } else {
        let before = items_of(declarations.drop_last());
        match shape_of(declarations.last()) {
            Some(Shape::Method) => before.push(ItemView::Signature(signature_of(declarations.last()))),
            Some(Shape::Event) => before.push(ItemView::Event(event_of(declarations.last()))),
            _ => before,
        }
    }
}

/// The constructor of a description: the last declaration of that shape.
pub open spec fn constructor_of(declarations: Seq<DeclarationView>) -> Option<SignatureView>
    decreases declarations.len(),
{
    if declarations.len() == 0 {
        None
    } else if shape_of(declarations.last()) == Some(Shape::Constructor) {
        Some(signature_of(declarations.last()))
    } else {
        constructor_of(declarations.drop_last())
    }
}

/// What a description builds: the interface, or the reason why there is none.
/// An unsupported declaration is reported before a repeated constructor.
pub open spec fn build_result(name: Seq<char>, declarations: Seq<DeclarationView>) -> Result<
    InterfaceView,
    DescriptionError,
> {
    if !all_supported(declarations) {
        Err(DescriptionError::UnsupportedDeclaration)
    } else if constructor_count(declarations) > 1 {
        Err(DescriptionError::MultipleConstructors)
    } else {
        Ok(
            InterfaceView {
                name,
                constructor: constructor_of(declarations),
                items: items_of(declarations),
            },
        )
    }
}

/// Copies a list of arguments.
pub fn clone_arguments(arguments: &Vec<Argument>) -> (copy: Vec<Argument>)
    ensures
        copy@ == arguments@,
{
    let mut copy: Vec<Argument> = Vec::new();
    let mut i: usize = 0;
    while i < arguments.len()
        invariant
            i <= arguments.len(),
            copy@ == arguments@.take(i as int),
        decreases arguments.len() - i,
    {
        copy.push(arguments[i].clone());
        assert(copy@ =~= arguments@.take(i + 1));
        i = i + 1;
    }
    assert(arguments@.take(arguments.len() as int) =~= arguments@);
    copy
}

/// Copies a list of types.
pub fn clone_types(types: &Vec<ParamType>) -> (copy: Vec<ParamType>)
    ensures
        copy@ == types@,
{
    let mut copy: Vec<ParamType> = Vec::new();
    let mut i: usize = 0;
    while i < types.len()
        invariant
            i <= types.len(),
            copy@ == types@.take(i as int),
        decreases types.len() - i,
    {
        copy.push(types[i].clone());
        assert(copy@ =~= types@.take(i + 1));
        i = i + 1;
    }
    assert(types@.take(types.len() as int) =~= types@);
    copy
}

/// Collects the types of a list of arguments, in order.
pub fn argument_types(arguments: &Vec<Argument>) -> (types: Vec<ParamType>)
    ensures
        types@ == types_of(arguments_view(arguments@)),
{
    let mut types: Vec<ParamType> = Vec::new();
    let mut i: usize = 0;
    while i < arguments.len()
        invariant
            i <= arguments.len(),
            types@ == types_of(arguments_view(arguments@.take(i as int))),
        decreases arguments.len() - i,
    {
        types.push(arguments[i].ty.clone());
        assert(types@ =~= types_of(arguments_view(arguments@.take(i + 1))));
        i = i + 1;
    }
    assert(arguments@.take(arguments.len() as int) =~= arguments@);
    types
}

impl Declaration {
    /// Classifies the declaration.
    pub fn shape(&self) -> (shape: Option<Shape>)
        ensures
            shape == shape_of(self@),
    {
        if self.is_event {
            if self.is_constructor || self.payable || self.return_types.len() > 0 {
                None
            } else {
                Some(Shape::Event)
            }
        } else if self.is_constructor {
            Some(Shape::Constructor)
        } else {
            Some(Shape::Method)
        }
    }

    /// Builds the signature of a method or constructor declaration and
    /// computes its selector.
    pub fn to_signature(&self) -> (signature: Signature)
        ensures
            signature@ == signature_of(self@),
    {
        let types = argument_types(&self.arguments);
        let selector = selector(self.name.as_str(), &types);
        Signature {
            name: self.name.clone(),
            arguments: clone_arguments(&self.arguments),
            return_types: clone_types(&self.return_types),
            selector,
            is_payable: self.payable,
        }
    }

    /// Builds the event of an event declaration.
    pub fn to_event(&self) -> (event: Event)
        ensures
            event@ == event_of(self@),
    {
        Event { name: self.name.clone(), arguments: clone_arguments(&self.arguments) }
    }
}

impl Signature {
    /// Builds the canonical signature: the name, then the canonical names of
    /// the argument types, comma-joined in parentheses.
    pub fn canonical(&self) -> (text: String)
        ensures
            text@ == signature_text(self@.name, types_of(self@.arguments)),
    {
        let types = argument_types(&self.arguments);
        canonical_signature(self.name.as_str(), &types)
    }
}

impl Event {
    /// Builds the canonical signature: the name, then the canonical names of
    /// the argument types, comma-joined in parentheses.
    pub fn canonical(&self) -> (text: String)
        ensures
            text@ == signature_text(self@.name, types_of(self@.arguments)),
    {
        let types = argument_types(&self.arguments);
        canonical_signature(self.name.as_str(), &types)
    }
}

impl Interface {
    /// Builds the interface that a name and its declarations describe.
    ///
    /// Fails when a declaration has no supported shape, or when more than one
    /// declaration is marked as the constructor.
    pub fn from_description(name: &str, declarations: &Vec<Declaration>) -> (result: Result<
        Interface,
        DescriptionError,
    >)
        ensures
            match result {
                Ok(interface) => build_result(name@, declarations_view(declarations@)) == Ok::<
                    InterfaceView,
                    DescriptionError,
                >(interface@),
                Err(error) => build_result(name@, declarations_view(declarations@)) == Err::<
                    InterfaceView,
                    DescriptionError,
                >(error),
            },
    {
        let ghost all = declarations_view(declarations@);
        let mut constructor: Option<Signature> = None;
        let mut constructors: usize = 0;
        let mut supported = true;
        let mut items: Vec<Item> = Vec::new();
        let mut i: usize = 0;
        while i < declarations.len()
            invariant
                i <= declarations.len(),
                all == declarations_view(declarations@),
                supported == all_supported(all.take(i as int)),
                constructors == constructor_count(all.take(i as int)),
                constructors <= i,
                items_view(items@) == items_of(all.take(i as int)),
                match constructor {
                    Some(signature) => constructor_of(all.take(i as int)) == Some(signature@),
                    None => constructor_of(all.take(i as int)) is None,
                },
            decreases declarations.len() - i,
        {
            let declaration = &declarations[i];
            proof {
                assert(all.take(i + 1).drop_last() =~= all.take(i as int));
                assert(all.take(i + 1).last() == declaration@);
                assert(all_supported(all.take(i + 1)) == (all_supported(all.take(i as int))
                    && shape_of(declaration@) is Some)) by {
                    if all_supported(all.take(i as int)) && shape_of(declaration@) is Some {
                        assert forall|j: int| 0 <= j < all.take(i + 1).len() implies (
                        #[trigger] shape_of(all.take(i + 1)[j])) is Some by {
                            if j < i {
                                assert(all.take(i + 1)[j] == all.take(i as int)[j]);
                            }
                        }
                    }
                    if all_supported(all.take(i + 1)) {
                        assert(shape_of(all.take(i + 1)[i as int]) is Some);
                        assert forall|j: int| 0 <= j < all.take(i as int).len() implies (
                        #[trigger] shape_of(all.take(i as int)[j])) is Some by {
                            assert(all.take(i + 1)[j] == all.take(i as int)[j]);
                        }
                    }
                }
            }
            match declaration.shape() {
                None => {
                    supported = false;
                },
                Some(Shape::Method) => {
                    items.push(Item::Signature(declaration.to_signature()));
                    assert(items_view(items@) =~= items_of(all.take(i + 1)));
                },
                Some(Shape::Event) => {
                    items.push(Item::Event(declaration.to_event()));
                    assert(items_view(items@) =~= items_of(all.take(i + 1)));
                },
                Some(Shape::Constructor) => {
                    constructor = Some(declaration.to_signature());
                    constructors = constructors + 1;
                },
            }
            i = i + 1;
        }
        assert(all.take(declarations.len() as int) =~= all);
        if !supported {
            Err(DescriptionError::UnsupportedDeclaration)
        } else if constructors > 1 {
            Err(DescriptionError::MultipleConstructors)
        } else {
            Ok(Interface { name: String::from_str(name), constructor, items })
        }
    }

    /// Returns the interface name.
    pub fn name(&self) -> (name: &str)
        ensures
            name@ == self@.name,
    {
        self.name.as_str()
    }

    /// Returns the constructor, if one was declared.
    pub fn constructor(&self) -> (constructor: Option<&Signature>)
        ensures
            constructor == match self.constructor {
                Some(signature) => Some(&signature),
                None => None,
            },
    {
        self.constructor.as_ref()
    }

    /// Returns the methods and events in declaration order.
    pub fn items(&self) -> (items: &[Item])
        ensures
            items@ == self.items@,
    {
        self.items.as_slice()
    }
}

} // verus!
