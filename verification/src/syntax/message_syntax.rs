//! A message: a name, a number and the members in the order of the wire.

use crate::syntax::field_syntax::{FieldDeclaration, FieldView};
use vstd::prelude::*;

verus! {

/// One entry of a message body: a named field, or a run of padding bytes
/// without a name.
#[derive(Debug, PartialEq, Eq)]
pub enum MemberDeclaration {
    Field(FieldDeclaration),
    Padding(usize),
}

/// What a `MemberDeclaration` stands for.
pub ghost enum MemberView {
    Field(FieldView),
    Padding(usize),
}

impl View for MemberDeclaration {
    type V = MemberView;

    open spec fn view(&self) -> MemberView {
        match self {
            MemberDeclaration::Field(field) => MemberView::Field(field@),
            MemberDeclaration::Padding(count) => MemberView::Padding(*count),
        }
    }
}

impl MemberView {
    /// A member that is a field holds a well-formed field.
    pub open spec fn well_formed(self) -> bool {
        self matches MemberView::Field(field) ==> field.well_formed()
    }
}

/// The views of a sequence of members, in the same order.
pub open spec fn member_views(members: Seq<MemberDeclaration>) -> Seq<MemberView> {
    members.map_values(|member: MemberDeclaration| member@)
}

#[derive(Debug, PartialEq, Eq)]
pub struct MessageDeclarationSyntax {
    pub name: String,
    pub id: usize,
    pub members: Vec<MemberDeclaration>,
}

/// What a `MessageDeclarationSyntax` stands for.
pub ghost struct MessageView {
    pub name: Seq<char>,
    pub id: usize,
    pub members: Seq<MemberView>,
}

impl MessageView {
    /// Every member of the message is well formed.
    pub open spec fn well_formed(self) -> bool {
        forall|i: int| 0 <= i < self.members.len() ==> (#[trigger] self.members[i]).well_formed()
    }
}

impl View for MessageDeclarationSyntax {
    type V = MessageView;

    open spec fn view(&self) -> MessageView {
        MessageView { name: self.name@, id: self.id, members: member_views(self.members@) }
    }
}

} // verus!
