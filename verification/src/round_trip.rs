//! From a syntax tree to a text and back: every schema that can be written
//! has a text from which the lexer and the parser, one after the other,
//! build that same schema.

use crate::data_types::FieldType_;
use crate::lexer::laws::{is_identifier, lemma_type_name_is_identifier, lexical_kind};
use crate::lexer::scan::tokens_of;
use crate::lexer::spaced::{kinds_of, lemma_spaced_kinds_are_found, spaced};
use crate::lexer::{Keyword, TokenKind};
use crate::parser::grammar::{done, unit};
use crate::parser::number::{lemma_numeral_value, numeral};
use crate::parser::written::{
    element_type, lemma_unit_written, reads, writable_declaration, writable_member,
    writable_unit, written_declaration, written_declarations, written_member, written_members,
    written_name, written_protocol, written_unit,
};
use crate::syntax::{DeclarationView, MemberView, UnitView};
use vstd::prelude::*;

verus! {

/// A text for the schema: its tokens, each with a space behind it.
pub open spec fn render(schema: UnitView) -> Seq<char> {
    spaced(written_unit(schema))
}

/// The member's name, where it has one, is the text of an identifier.
pub open spec fn named_member(declared: MemberView) -> bool {
    declared matches MemberView::Field(field) ==> is_identifier(field.name)
}

/// The names of the declaration and of its members are texts of
/// identifiers.
pub open spec fn named_declaration(declared: DeclarationView) -> bool {
    declared matches DeclarationView::Message(message) ==> {
        &&& is_identifier(message.name)
        &&& forall|i: int|
            0 <= i < message.members.len() ==> named_member(#[trigger] message.members[i])
    }
}

/// Every name in the schema is the text of an identifier: the parts of
/// the namespace, the names of the messages and of their fields.
pub open spec fn named_unit(schema: UnitView) -> bool {
    &&& forall|i: int|
        0 <= i < schema.protocol.components.len() ==> is_identifier(
            #[trigger] schema.protocol.components[i],
        )
    &&& forall|i: int|
        0 <= i < schema.declarations.len() ==> named_declaration(
            #[trigger] schema.declarations[i],
        )
}

/// Every kind of the sequence is one that the lexer can find.
pub open spec fn all_lexical(kinds: Seq<TokenKind>) -> bool {
    forall|i: int| 0 <= i < kinds.len() ==> lexical_kind(#[trigger] kinds[i])
}

/// Two sequences of lexical kinds, one behind the other, are one.
proof fn lemma_all_lexical_both(first: Seq<TokenKind>, second: Seq<TokenKind>)
    requires
        all_lexical(first),
        all_lexical(second),
    ensures
        all_lexical(first + second),
{
    assert forall|i: int| 0 <= i < (first + second).len() implies lexical_kind(
        #[trigger] (first + second)[i],
    ) by {
        if i < first.len() {
            assert((first + second)[i] == first[i]);
        } else {
            assert((first + second)[i] == second[i - first.len()]);
        }
    }
}

/// A member with a lexical name is written in lexical tokens.
proof fn lemma_member_lexical(declared: MemberView)
    requires
        writable_member(declared),
        named_member(declared),
    ensures
        all_lexical(written_member(declared)),
{
    match declared {
        MemberView::Padding(count) => {
            lemma_numeral_value(count as nat);
        },
        MemberView::Field(field) => {
            match field.field_type {
                FieldType_::Scalar(scalar) => {
                    lemma_type_name_is_identifier(scalar);
                },
                FieldType_::Vector(array) => {
                    lemma_type_name_is_identifier(element_type(array));
                    lemma_numeral_value(array.length() as nat);
                },
                FieldType_::Padding(count) => {},
            }
        },
    }
}

/// Members with lexical names are written in lexical tokens.
proof fn lemma_members_lexical(declared: Seq<MemberView>)
    requires
        forall|i: int| 0 <= i < declared.len() ==> writable_member(#[trigger] declared[i]),
        forall|i: int| 0 <= i < declared.len() ==> named_member(#[trigger] declared[i]),
    ensures
        all_lexical(written_members(declared)),
    decreases declared.len(),
{
    if declared.len() > 0 {
        lemma_member_lexical(declared[0]);
        let others = declared.drop_first();
        assert forall|i: int| 0 <= i < others.len() implies writable_member(
            #[trigger] others[i],
        ) && named_member(others[i]) by {
            assert(others[i] == declared[i + 1]);
        }
        lemma_members_lexical(others);
        lemma_all_lexical_both(written_member(declared[0]), written_members(others));
    }
}

/// Declarations with lexical names are written in lexical tokens.
proof fn lemma_declarations_lexical(declared: Seq<DeclarationView>)
    requires
        forall|i: int| 0 <= i < declared.len() ==> writable_declaration(#[trigger] declared[i]),
        forall|i: int| 0 <= i < declared.len() ==> named_declaration(#[trigger] declared[i]),
    ensures
        all_lexical(written_declarations(declared)),
    decreases declared.len(),
{
    if declared.len() > 0 {
        let read = declared[0]->Message_0;
        assert(writable_declaration(declared[0]) && named_declaration(declared[0]));
        lemma_members_lexical(read.members);
        lemma_numeral_value(read.id as nat);
        let head = seq![
            TokenKind::Keyword(Keyword::Message),
            TokenKind::Identifier(read.name),
            TokenKind::OpenBracket,
            TokenKind::IntegerLiteral(numeral(read.id as nat)),
            TokenKind::CloseBracket,
            TokenKind::OpenBrace,
        ];
        lemma_all_lexical_both(head, written_members(read.members));
        lemma_all_lexical_both(
            head + written_members(read.members),
            seq![TokenKind::CloseBrace],
        );
        let others = declared.drop_first();
        assert forall|i: int| 0 <= i < others.len() implies writable_declaration(
            #[trigger] others[i],
        ) && named_declaration(others[i]) by {
            assert(others[i] == declared[i + 1]);
        }
        lemma_declarations_lexical(others);
        lemma_all_lexical_both(written_declaration(declared[0]), written_declarations(others));
    }
}

/// A schema that can be written, with lexical names, is read back from
/// its text: the tokens of the text, parsed, give the schema, and none is
/// left over.
pub proof fn lemma_rendered_schema_is_read_back(schema: UnitView)
    requires
        writable_unit(schema),
        named_unit(schema),
    ensures
        unit(tokens_of(render(schema)), 0) == done(
            schema,
            tokens_of(render(schema)).len() as int,
        ),
{
    let kinds = written_unit(schema);
    let name = written_name(schema.protocol.components);
    assert(all_lexical(name)) by {
        assert forall|i: int| 0 <= i < name.len() implies lexical_kind(#[trigger] name[i]) by {
            if i % 2 == 0 {
                assert(is_identifier(schema.protocol.components[i / 2]));
            }
        }
    }
    lemma_all_lexical_both(seq![TokenKind::Keyword(Keyword::Protocol)], name);
    lemma_all_lexical_both(
        seq![TokenKind::Keyword(Keyword::Protocol)] + name,
        seq![TokenKind::SemiColon],
    );
    lemma_declarations_lexical(schema.declarations);
    lemma_all_lexical_both(
        written_protocol(schema.protocol),
        written_declarations(schema.declarations),
    );
    lemma_spaced_kinds_are_found(kinds);
    let tokens = tokens_of(render(schema));
    assert(kinds_of(tokens) == kinds);
    assert(tokens.len() == kinds.len());
    assert forall|i: int| 0 <= i < kinds.len() implies (#[trigger] tokens[0 + i]).kind
        == kinds[i] by {
        assert(kinds_of(tokens)[i] == tokens[i].kind);
    }
    assert(reads(tokens, 0, kinds));
    lemma_unit_written(tokens, schema);
}

} // verus!
