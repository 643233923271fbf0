//! The syntax tree that the parser builds.

pub mod enum_syntax;
pub mod field_syntax;
pub mod message_syntax;

pub use enum_syntax::{
    BuiltInType, CustomType, Endianness, EnumDeclarationSyntax, EnumValue, EnumValueView, EnumView,
    FixedStringType, Signedness,
};
pub use field_syntax::{FieldDeclaration, FieldView};
pub use message_syntax::{
    member_views, MemberDeclaration, MemberView, MessageDeclarationSyntax, MessageView,
};

use vstd::prelude::*;

verus! {

/// A declaration at the top level of a schema.
#[derive(Debug, PartialEq, Eq)]
pub enum DeclarationSyntax {
    Message(MessageDeclarationSyntax),
    Enum(EnumDeclarationSyntax),
}

/// What a `DeclarationSyntax` stands for.
pub ghost enum DeclarationView {
    Message(MessageView),
    Enum(EnumView),
}

impl View for DeclarationSyntax {
    type V = DeclarationView;

    open spec fn view(&self) -> DeclarationView {
        match self {
            DeclarationSyntax::Message(message) => DeclarationView::Message(message@),
            DeclarationSyntax::Enum(declared) => DeclarationView::Enum(declared@),
        }
    }
}

impl DeclarationView {
    /// A message among the declarations is well formed.
    pub open spec fn well_formed(self) -> bool {
        self matches DeclarationView::Message(message) ==> message.well_formed()
    }
}

/// The views of a sequence of declarations, in the same order.
pub open spec fn declaration_views(declarations: Seq<DeclarationSyntax>) -> Seq<DeclarationView> {
    declarations.map_values(|declaration: DeclarationSyntax| declaration@)
}

/// The namespace of a schema: the parts of a dotted name, in order.
#[derive(Debug, PartialEq, Eq)]
pub struct ProtocolDeclarationSyntax {
    pub components: Vec<String>,
}

/// What a `ProtocolDeclarationSyntax` stands for.
pub ghost struct ProtocolView {
    pub components: Seq<Seq<char>>,
}

impl View for ProtocolDeclarationSyntax {
    type V = ProtocolView;

    open spec fn view(&self) -> ProtocolView {
        ProtocolView { components: self.components.deep_view() }
    }
}

impl ProtocolView {
    /// A dotted name has at least one part.
    pub open spec fn well_formed(self) -> bool {
        self.components.len() > 0
    }
}

impl ProtocolDeclarationSyntax {
    pub fn new(components: Vec<String>) -> (protocol: ProtocolDeclarationSyntax)
        ensures
            protocol.components == components,
            protocol@.components == components.deep_view(),
            protocol@.well_formed() == (components.len() > 0),
    {
        ProtocolDeclarationSyntax { components }
    }
}

/// A whole schema: its namespace and its declarations in order.
#[derive(Debug, PartialEq, Eq)]
pub struct SyntaxUnit {
    pub protocol: ProtocolDeclarationSyntax,
    pub declarations: Vec<DeclarationSyntax>,
}

/// What a `SyntaxUnit` stands for.
pub ghost struct UnitView {
    pub protocol: ProtocolView,
    pub declarations: Seq<DeclarationView>,
}

impl UnitView {
    /// The namespace has a name, and every declaration is well formed.
    pub open spec fn well_formed(self) -> bool {
        &&& self.protocol.well_formed()
        &&& forall|i: int|
            0 <= i < self.declarations.len() ==> (#[trigger] self.declarations[i]).well_formed()
    }
}

impl View for SyntaxUnit {
    type V = UnitView;

    open spec fn view(&self) -> UnitView {
        UnitView {
            protocol: self.protocol@,
            declarations: declaration_views(self.declarations@),
        }
    }
}

impl SyntaxUnit {
    /// A schema with a namespace and no declaration yet.
    pub fn new(protocol: ProtocolDeclarationSyntax) -> (unit: SyntaxUnit)
        ensures
            unit.protocol == protocol,
            unit.declarations@.len() == 0,
            unit@ == (UnitView { protocol: protocol@, declarations: Seq::empty() }),
    {
        let unit = SyntaxUnit { protocol, declarations: Vec::new() };
        assert(declaration_views(unit.declarations@) =~= Seq::empty());
        unit
    }

    /// Adds a declaration behind those that are there.
    pub fn add_declaration(&mut self, decl: DeclarationSyntax)
        ensures
            final(self).protocol == old(self).protocol,
            final(self).declarations@ == old(self).declarations@.push(decl),
            final(self)@ == (UnitView {
                protocol: old(self)@.protocol,
                declarations: old(self)@.declarations.push(decl@),
            }),
    {
        self.declarations.push(decl);
        assert(declaration_views(self.declarations@) =~= declaration_views(
            old(self).declarations@,
        ).push(decl@));
    }
}

} // verus!
