//! A named field of a message.

use crate::data_types::FieldType_;
use vstd::prelude::*;

verus! {

#[derive(Debug, PartialEq, Eq)]
pub struct FieldDeclaration {
    pub name: String,
    pub field_type: FieldType_,
    pub description: Option<String>,
}

/// What a `FieldDeclaration` stands for.
pub ghost struct FieldView {
    pub name: Seq<char>,
    pub field_type: FieldType_,
    pub description: Option<Seq<char>>,
}

impl View for FieldDeclaration {
    type V = FieldView;

    open spec fn view(&self) -> FieldView {
        FieldView {
            name: self.name@,
            field_type: self.field_type,
            description: match self.description {
                Some(text) => Some(text@),
                None => None,
            },
        }
    }
}

impl FieldView {
    /// An array-like type of a field holds at least one element.
    pub open spec fn well_formed(self) -> bool {
        self.field_type matches FieldType_::Vector(array) ==> array.well_formed()
    }
}

} // verus!
