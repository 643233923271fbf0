//! The way a syntax tree is written in tokens, and that what is written is
//! parsed back to the same tree.

use crate::data_types::scalar::ByteSize;
use crate::data_types::{ArrayLike, FieldType_, ScalarType};
use crate::lexer::{Keyword, TokenKind, TokenView};
use crate::parser::grammar::{
    declaration, declarations, done, has_token, member, members, name_parts, name_run,
    protocol, qualified_name, unit,
};
use crate::parser::number::{lemma_numeral_value, numeral};
use crate::syntax::{
    DeclarationView, FieldView, MemberView, MessageView, ProtocolView, UnitView,
};
use vstd::prelude::*;

verus! {

/// The tokens from `at` on are of the given kinds, one after another.
pub open spec fn reads(tokens: Seq<TokenView>, at: int, kinds: Seq<TokenKind>) -> bool {
    &&& 0 <= at
    &&& at + kinds.len() <= tokens.len()
    &&& forall|i: int| 0 <= i < kinds.len() ==> (#[trigger] tokens[at + i]).kind == kinds[i]
}

/// A dotted name: its parts with a dot between each two.
pub open spec fn written_name(parts: Seq<Seq<char>>) -> Seq<TokenKind> {
    Seq::new(
        if parts.len() == 0 {
            0
        } else {
            (2 * parts.len() - 1) as nat
        },
        |i: int|
            if i % 2 == 0 {
                TokenKind::Identifier(parts[i / 2])
            } else {
                TokenKind::Dot
            },
    )
}

/// The declaration of a namespace.
pub open spec fn written_protocol(named: ProtocolView) -> Seq<TokenKind> {
    seq![TokenKind::Keyword(Keyword::Protocol)] + written_name(named.components)
        + seq![TokenKind::SemiColon]
}

/// Reading tokens that are of some kinds and then of others is reading
/// the first and, behind them, the second.
pub proof fn lemma_reads_both(
    tokens: Seq<TokenView>,
    at: int,
    first: Seq<TokenKind>,
    second: Seq<TokenKind>,
)
    ensures
        reads(tokens, at, first + second) <==> reads(tokens, at, first) && reads(
            tokens,
            at + first.len(),
            second,
        ),
{
    let both = first + second;
    if reads(tokens, at, both) {
        assert forall|i: int| 0 <= i < first.len() implies (#[trigger] tokens[at + i]).kind
            == first[i] by {
            assert(both[i] == first[i]);
        }
        assert forall|i: int| 0 <= i < second.len() implies (#[trigger] tokens[at + first.len()
            + i]).kind == second[i] by {
            assert(both[first.len() + i] == second[i]);
            assert(tokens[at + (first.len() + i)].kind == both[first.len() + i]);
        }
    }
    if reads(tokens, at, first) && reads(tokens, at + first.len(), second) {
        assert forall|i: int| 0 <= i < both.len() implies (#[trigger] tokens[at + i]).kind
            == both[i] by {
            if i >= first.len() {
                assert(tokens[at + first.len() + (i - first.len())].kind == second[i
                    - first.len()]);
            }
        }
    }
}

/// In a dotted name that is written, identifiers and dots take turns up
/// to its end.
proof fn lemma_name_run_written(
    tokens: Seq<TokenView>,
    at: int,
    parts: Seq<Seq<char>>,
    from: int,
)
    requires
        parts.len() > 0,
        reads(tokens, at, written_name(parts)),
        0 <= from <= 2 * parts.len() - 1,
        has_token(tokens, at + 2 * parts.len() - 1) ==> tokens[at + 2 * parts.len() - 1].kind
            != TokenKind::Dot,
    ensures
        name_run(tokens, at + from, from % 2 == 1) == 2 * parts.len() - 1 - from,
    decreases 2 * parts.len() - 1 - from,
{
    if from < 2 * parts.len() - 1 {
        assert(tokens[at + from].kind == written_name(parts)[from]);
        lemma_name_run_written(tokens, at, parts, from + 1);
    }
}

/// A dotted name that is written, and that no dot follows, is read as its
/// parts.
pub proof fn lemma_name_written(tokens: Seq<TokenView>, at: int, parts: Seq<Seq<char>>)
    requires
        parts.len() > 0,
        reads(tokens, at, written_name(parts)),
        has_token(tokens, at + written_name(parts).len()) ==> tokens[at + written_name(
            parts,
        ).len()].kind != TokenKind::Dot,
    ensures
        qualified_name(tokens, at) == done(parts, at + written_name(parts).len()),
{
    lemma_name_run_written(tokens, at, parts, 0);
    let read = name_parts(tokens, at, parts.len());
    assert forall|k: int| 0 <= k < parts.len() implies read[k] == parts[k] by {
        assert(tokens[at + 2 * k].kind == written_name(parts)[2 * k]);
    }
    assert(read =~= parts);
}

/// The declaration of a namespace that is written is read as that
/// namespace.
pub proof fn lemma_protocol_written(tokens: Seq<TokenView>, at: int, named: ProtocolView)
    requires
        named.well_formed(),
        reads(tokens, at, written_protocol(named)),
    ensures
        protocol(tokens, at) == done(named, at + written_protocol(named).len()),
{
    let head = seq![TokenKind::Keyword(Keyword::Protocol)];
    let name = written_name(named.components);
    let end = seq![TokenKind::SemiColon];
    lemma_reads_both(tokens, at, head + name, end);
    lemma_reads_both(tokens, at, head, name);
    assert(tokens[at + 0].kind == head[0]);
    assert(tokens[at + 1 + name.len() + 0].kind == end[0]);
    lemma_name_written(tokens, at + 1, named.components);
}

/// The scalar whose name stands in front of the brackets of an array-like
/// type: `byte` for a blob, `ascii` for a string, the element type for an
/// array.
pub open spec fn element_type(array: ArrayLike) -> ScalarType {
    match array {
        ArrayLike::FixedArray { scalar, length } => scalar,
        ArrayLike::AsciiString { length } => ScalarType::ByteSized(ByteSize::Ascii),
        ArrayLike::Bytes { length } => ScalarType::ByteSized(ByteSize::Byte),
    }
}

/// The type of a field: the name of a scalar, with a length in brackets
/// for an array-like type.
pub open spec fn written_type(field_type: FieldType_) -> Seq<TokenKind> {
    match field_type {
        FieldType_::Scalar(scalar) => seq![TokenKind::Identifier(scalar.spelling())],
        FieldType_::Vector(array) => seq![
            TokenKind::Identifier(element_type(array).spelling()),
            TokenKind::OpenBracket,
            TokenKind::IntegerLiteral(numeral(array.length() as nat)),
            TokenKind::CloseBracket,
        ],
        FieldType_::Padding(count) => Seq::empty(),
    }
}

/// A field: its type, a colon, its name and a semicolon.
pub open spec fn written_field(declared: FieldView) -> Seq<TokenKind> {
    written_type(declared.field_type) + seq![
        TokenKind::Colon,
        TokenKind::Identifier(declared.name),
        TokenKind::SemiColon,
    ]
}

/// A member: a field, or the number of padding bytes and a semicolon.
pub open spec fn written_member(declared: MemberView) -> Seq<TokenKind> {
    match declared {
        MemberView::Field(field) => written_field(field),
        MemberView::Padding(count) => seq![
            TokenKind::IntegerLiteral(numeral(count as nat)),
            TokenKind::SemiColon,
        ],
    }
}

/// The members of a message, one after another.
pub open spec fn written_members(declared: Seq<MemberView>) -> Seq<TokenKind>
    decreases declared.len(),
{
    if declared.len() == 0 {
        Seq::empty()
    } else {
        written_member(declared[0]) + written_members(declared.drop_first())
    }
}

/// A message: the keyword, the name, the number in brackets and the
/// members in braces.
pub open spec fn written_message(declared: MessageView) -> Seq<TokenKind> {
    seq![
        TokenKind::Keyword(Keyword::Message),
        TokenKind::Identifier(declared.name),
        TokenKind::OpenBracket,
        TokenKind::IntegerLiteral(numeral(declared.id as nat)),
        TokenKind::CloseBracket,
        TokenKind::OpenBrace,
    ] + written_members(declared.members) + seq![TokenKind::CloseBrace]
}

/// A declaration. Only messages can be written.
pub open spec fn written_declaration(declared: DeclarationView) -> Seq<TokenKind> {
    match declared {
        DeclarationView::Message(message) => written_message(message),
        DeclarationView::Enum(_) => Seq::empty(),
    }
}

/// Declarations, one after another.
pub open spec fn written_declarations(declared: Seq<DeclarationView>) -> Seq<TokenKind>
    decreases declared.len(),
{
    if declared.len() == 0 {
        Seq::empty()
    } else {
        written_declaration(declared[0]) + written_declarations(declared.drop_first())
    }
}

/// A whole schema: the namespace and the declarations.
pub open spec fn written_unit(schema: UnitView) -> Seq<TokenKind> {
    written_protocol(schema.protocol) + written_declarations(schema.declarations)
}

/// The field can be written: it has a type, which is a scalar or an
/// array-like type of at least one element, where an array is not made of
/// single bytes; and it has no description, for which there is no syntax.
pub open spec fn writable_field(declared: FieldView) -> bool {
    &&& declared.description is None
    &&& match declared.field_type {
        FieldType_::Scalar(scalar) => true,
        FieldType_::Vector(array) => {
            &&& array.length() > 0
            &&& array matches ArrayLike::FixedArray { scalar, length } ==> !(scalar is ByteSized)
        },
        FieldType_::Padding(count) => false,
    }
}

/// The member can be written.
pub open spec fn writable_member(declared: MemberView) -> bool {
    declared matches MemberView::Field(field) ==> writable_field(field)
}

/// The declaration can be written: it is a message, and its members can
/// be written.
pub open spec fn writable_declaration(declared: DeclarationView) -> bool {
    match declared {
        DeclarationView::Message(message) => forall|i: int|
            0 <= i < message.members.len() ==> writable_member(#[trigger] message.members[i]),
        DeclarationView::Enum(_) => false,
    }
}

/// The schema can be written: its namespace has a name, and its
/// declarations can be written.
pub open spec fn writable_unit(schema: UnitView) -> bool {
    &&& schema.protocol.well_formed()
    &&& forall|i: int|
        0 <= i < schema.declarations.len() ==> writable_declaration(
            #[trigger] schema.declarations[i],
        )
}

/// A member that is written is read as that member.
pub proof fn lemma_member_written(tokens: Seq<TokenView>, at: int, declared: MemberView)
    requires
        writable_member(declared),
        reads(tokens, at, written_member(declared)),
    ensures
        written_member(declared).len() >= 2,
        tokens[at].kind is Identifier || tokens[at].kind is IntegerLiteral,
        member(tokens, at) == done(Some(declared), at + written_member(declared).len()),
{
    let kinds = written_member(declared);
    match declared {
        MemberView::Padding(count) => {
            lemma_numeral_value(count as nat);
            assert(tokens[at + 0].kind == kinds[0]);
            assert(tokens[at + 1].kind == kinds[1]);
        },
        MemberView::Field(field) => {
            let typed = written_type(field.field_type);
            let rest = seq![
                TokenKind::Colon,
                TokenKind::Identifier(field.name),
                TokenKind::SemiColon,
            ];
            lemma_reads_both(tokens, at, typed, rest);
            let behind = at + typed.len();
            assert(tokens[behind + 0].kind == rest[0]);
            assert(tokens[behind + 1].kind == rest[1]);
            assert(tokens[behind + 2].kind == rest[2]);
            assert(tokens[at + 0].kind == typed[0]);
            match field.field_type {
                FieldType_::Scalar(scalar) => {
                    scalar.lemma_spelling_names_type(scalar.spelling());
                },
                FieldType_::Vector(array) => {
                    let scalar = element_type(array);
                    scalar.lemma_spelling_names_type(scalar.spelling());
                    lemma_numeral_value(array.length() as nat);
                    assert(tokens[at + 1].kind == typed[1]);
                    assert(tokens[at + 2].kind == typed[2]);
                    assert(tokens[at + 3].kind == typed[3]);
                    assert(ArrayLike::of_scalar(scalar, array.length()) == array);
                },
                FieldType_::Padding(count) => {},
            }
        },
    }
}

/// Members that are written, with the closing brace behind them, are read
/// as these members, in their order.
pub proof fn lemma_members_written(
    tokens: Seq<TokenView>,
    at: int,
    declared: Seq<MemberView>,
    found: Seq<MemberView>,
)
    requires
        forall|i: int| 0 <= i < declared.len() ==> writable_member(#[trigger] declared[i]),
        reads(tokens, at, written_members(declared) + seq![TokenKind::CloseBrace]),
    ensures
        members(tokens, at, found) == done(
            found + declared,
            at + written_members(declared).len() + 1,
        ),
    decreases declared.len(),
{
    let brace = seq![TokenKind::CloseBrace];
    lemma_reads_both(tokens, at, written_members(declared), brace);
    if declared.len() == 0 {
        assert(tokens[at + 0].kind == brace[0]);
        assert(found + declared =~= found);
    } else {
        let one = written_member(declared[0]);
        let others = written_members(declared.drop_first());
        lemma_reads_both(tokens, at, one, others);
        lemma_member_written(tokens, at, declared[0]);
        lemma_reads_both(tokens, at + one.len(), others, brace);
        assert(one + others + brace =~= one + (others + brace));
        lemma_reads_both(tokens, at, one, others + brace);
        lemma_members_written(
            tokens,
            at + one.len(),
            declared.drop_first(),
            found.push(declared[0]),
        );
        assert(found.push(declared[0]) + declared.drop_first() =~= found + declared);
    }
}

/// A declaration that is written is read as that declaration.
pub proof fn lemma_declaration_written(
    tokens: Seq<TokenView>,
    at: int,
    declared: DeclarationView,
)
    requires
        writable_declaration(declared),
        reads(tokens, at, written_declaration(declared)),
    ensures
        written_declaration(declared).len() > 0,
        declaration(tokens, at) == done(Some(declared), at + written_declaration(declared).len()),
{
    let read = declared->Message_0;
    let head = seq![
        TokenKind::Keyword(Keyword::Message),
        TokenKind::Identifier(read.name),
        TokenKind::OpenBracket,
        TokenKind::IntegerLiteral(numeral(read.id as nat)),
        TokenKind::CloseBracket,
        TokenKind::OpenBrace,
    ];
    let body = written_members(read.members);
    let brace = seq![TokenKind::CloseBrace];
    assert(head + body + brace =~= head + (body + brace));
    lemma_reads_both(tokens, at, head, body + brace);
    assert(tokens[at + 0].kind == head[0]);
    assert(tokens[at + 1].kind == head[1]);
    assert(tokens[at + 2].kind == head[2]);
    assert(tokens[at + 3].kind == head[3]);
    assert(tokens[at + 4].kind == head[4]);
    assert(tokens[at + 5].kind == head[5]);
    lemma_numeral_value(read.id as nat);
    lemma_members_written(tokens, at + 6, read.members, Seq::empty());
    assert(Seq::<MemberView>::empty() + read.members =~= read.members);
}

/// Declarations that are written, with nothing behind them, are read as
/// these declarations, in their order.
pub proof fn lemma_declarations_written(
    tokens: Seq<TokenView>,
    at: int,
    declared: Seq<DeclarationView>,
    found: Seq<DeclarationView>,
)
    requires
        forall|i: int| 0 <= i < declared.len() ==> writable_declaration(#[trigger] declared[i]),
        reads(tokens, at, written_declarations(declared)),
        at + written_declarations(declared).len() == tokens.len(),
    ensures
        declarations(tokens, at, found) == done(found + declared, tokens.len() as int),
    decreases declared.len(),
{
    if declared.len() == 0 {
        assert(found + declared =~= found);
    } else {
        let one = written_declaration(declared[0]);
        let others = written_declarations(declared.drop_first());
        lemma_reads_both(tokens, at, one, others);
        lemma_declaration_written(tokens, at, declared[0]);
        lemma_declarations_written(
            tokens,
            at + one.len(),
            declared.drop_first(),
            found.push(declared[0]),
        );
        assert(found.push(declared[0]) + declared.drop_first() =~= found + declared);
    }
}

/// A schema that is written is parsed back to the same schema: where the
/// tokens are of the kinds with which a schema is written, whatever their
/// places, parsing them gives that schema and consumes them all.
pub proof fn lemma_unit_written(tokens: Seq<TokenView>, schema: UnitView)
    requires
        writable_unit(schema),
        reads(tokens, 0, written_unit(schema)),
        written_unit(schema).len() == tokens.len(),
    ensures
        unit(tokens, 0) == done(schema, tokens.len() as int),
{
    let head = written_protocol(schema.protocol);
    lemma_reads_both(tokens, 0, head, written_declarations(schema.declarations));
    lemma_protocol_written(tokens, 0, schema.protocol);
    lemma_declarations_written(tokens, head.len() as int, schema.declarations, Seq::empty());
    assert(Seq::<DeclarationView>::empty() + schema.declarations =~= schema.declarations);
}

} // verus!
