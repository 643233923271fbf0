//! What holds of everything that is parsed: the order of what is read is
//! the order in which it is written, the end of the tokens behind a
//! declaration is no failure, and what is built is well formed.

use crate::data_types::ScalarType;
use crate::lexer::{TokenKind, TokenView};
use crate::parser::grammar::{
    declaration, declarations, done, expect, field, has_token, lemma_declaration_moves_on,
    lemma_member_moves_on, member, members, message, number, protocol, qualified_name, unit,
    vector_type, Step,
};
use crate::syntax::{DeclarationView, MemberView, ProtocolView, UnitView};
use vstd::prelude::*;

verus! {

/// The outcome of reading with `found` put in front of what was read.
pub open spec fn behind<T>(found: Seq<T>, read: Step<Seq<T>>) -> Step<Seq<T>> {
    Step {
        result: match read.result {
            Ok(more) => Ok(found + more),
            Err(error) => Err(error),
        },
        position: read.position,
    }
}

/// The members that were found before stay in front, in their order, and
/// have no part in what is read behind them.
pub proof fn lemma_members_keep_order(tokens: Seq<TokenView>, at: int, found: Seq<MemberView>)
    ensures
        members(tokens, at, found) == behind(found, members(tokens, at, Seq::empty())),
    decreases tokens.len() - at,
{
    let none = Seq::<MemberView>::empty();
    if !has_token(tokens, at) {
    } else if tokens[at].kind == TokenKind::CloseBrace {
        assert(found + none =~= found);
    } else {
        lemma_member_moves_on(tokens, at);
        let one = member(tokens, at);
        match one.result {
            Err(error) => {},
            Ok(None) => {
                lemma_members_keep_order(tokens, one.position, found);
            },
            Ok(Some(declared)) => {
                lemma_members_keep_order(tokens, one.position, found.push(declared));
                lemma_members_keep_order(tokens, one.position, none.push(declared));
                let rest = members(tokens, one.position, none);
                if let Ok(more) = rest.result {
                    assert(found.push(declared) + more =~= found + (none.push(declared) + more));
                }
            },
        }
    }
}

/// The declarations that were found before stay in front, in their
/// order, and have no part in what is read behind them.
pub proof fn lemma_declarations_keep_order(
    tokens: Seq<TokenView>,
    at: int,
    found: Seq<DeclarationView>,
)
    ensures
        declarations(tokens, at, found) == behind(found, declarations(tokens, at, Seq::empty())),
    decreases tokens.len() - at,
{
    let none = Seq::<DeclarationView>::empty();
    lemma_declaration_moves_on(tokens, at);
    let one = declaration(tokens, at);
    match one.result {
        Err(error) => {},
        Ok(None) => {
            assert(found + none =~= found);
        },
        Ok(Some(declared)) => {
            lemma_declarations_keep_order(tokens, one.position, found.push(declared));
            lemma_declarations_keep_order(tokens, one.position, none.push(declared));
            let rest = declarations(tokens, one.position, none);
            if let Ok(more) = rest.result {
                assert(found.push(declared) + more =~= found + (none.push(declared) + more));
            }
        },
    }
}

/// Where declarations follow one another up to the end of the tokens,
/// reading them finds each of them, in order, and no failure: `cuts`
/// holds the position in front of each declaration and, last, the end.
pub proof fn lemma_declarations_to_the_end(
    tokens: Seq<TokenView>,
    cuts: Seq<int>,
    declared: Seq<DeclarationView>,
    found: Seq<DeclarationView>,
)
    requires
        cuts.len() == declared.len() + 1,
        cuts.last() == tokens.len(),
        forall|i: int|
            0 <= i < declared.len() ==> #[trigger] declaration(tokens, cuts[i]) == done(
                Some(declared[i]),
                cuts[i + 1],
            ),
    ensures
        declarations(tokens, cuts[0], found) == done(found + declared, tokens.len() as int),
    decreases declared.len(),
{
    if declared.len() == 0 {
        assert(found + declared =~= found);
    } else {
        assert(declaration(tokens, cuts[0]) == done(Some(declared[0]), cuts[1]));
        let later = cuts.drop_first();
        let others = declared.drop_first();
        assert forall|i: int| 0 <= i < others.len() implies #[trigger] declaration(
            tokens,
            later[i],
        ) == done(Some(others[i]), later[i + 1]) by {
            assert(declaration(tokens, cuts[i + 1]) == done(Some(declared[i + 1]), cuts[i + 2]));
        }
        lemma_declarations_to_the_end(tokens, later, others, found.push(declared[0]));
        assert(found.push(declared[0]) + others =~= found + declared);
    }
}

/// Where the namespace is followed by declarations up to the end of the
/// tokens, the schema is parsed, and holds exactly these declarations.
pub proof fn lemma_unit_to_the_end(
    tokens: Seq<TokenView>,
    named: ProtocolView,
    cuts: Seq<int>,
    declared: Seq<DeclarationView>,
)
    requires
        cuts.len() == declared.len() + 1,
        cuts.last() == tokens.len(),
        protocol(tokens, 0) == done(named, cuts[0]),
        forall|i: int|
            0 <= i < declared.len() ==> #[trigger] declaration(tokens, cuts[i]) == done(
                Some(declared[i]),
                cuts[i + 1],
            ),
    ensures
        unit(tokens, 0) == done(
            UnitView { protocol: named, declarations: declared },
            tokens.len() as int,
        ),
{
    lemma_declarations_to_the_end(tokens, cuts, declared, Seq::empty());
    assert(Seq::<DeclarationView>::empty() + declared =~= declared);
}

/// A member that is read is well formed: an array in it has at least one
/// element.
pub proof fn lemma_member_well_formed(tokens: Seq<TokenView>, at: int)
    ensures
        member(tokens, at).result matches Ok(Some(read)) ==> read.well_formed(),
        forall|type_text: Seq<char>|
            (#[trigger] field(tokens, at, type_text)).result matches Ok(read)
                ==> read.well_formed(),
        forall|scalar: ScalarType|
            (#[trigger] vector_type(tokens, at, scalar)).result matches Ok(read)
                ==> read.well_formed(),
{
}

/// A dotted name that is read has at least one part, and so has the
/// namespace that is declared with it.
pub proof fn lemma_name_has_parts(tokens: Seq<TokenView>, at: int)
    ensures
        qualified_name(tokens, at).result matches Ok(parts) ==> parts.len() > 0,
        protocol(tokens, at).result matches Ok(named) ==> named.well_formed(),
{
}

/// The members of a message body that is read are well formed, where
/// those found before were.
pub proof fn lemma_members_well_formed(tokens: Seq<TokenView>, at: int, found: Seq<MemberView>)
    requires
        forall|i: int| 0 <= i < found.len() ==> (#[trigger] found[i]).well_formed(),
    ensures
        members(tokens, at, found).result matches Ok(all) ==> forall|i: int|
            0 <= i < all.len() ==> (#[trigger] all[i]).well_formed(),
    decreases tokens.len() - at,
{
    if has_token(tokens, at) && tokens[at].kind != TokenKind::CloseBrace {
        lemma_member_moves_on(tokens, at);
        let one = member(tokens, at);
        match one.result {
            Err(error) => {},
            Ok(None) => {
                lemma_members_well_formed(tokens, one.position, found);
            },
            Ok(Some(declared)) => {
                lemma_member_well_formed(tokens, at);
                lemma_members_well_formed(tokens, one.position, found.push(declared));
            },
        }
    }
}

/// The declarations that are read are well formed, where those found
/// before were.
pub proof fn lemma_declarations_well_formed(
    tokens: Seq<TokenView>,
    at: int,
    found: Seq<DeclarationView>,
)
    requires
        forall|i: int| 0 <= i < found.len() ==> (#[trigger] found[i]).well_formed(),
    ensures
        declarations(tokens, at, found).result matches Ok(all) ==> forall|i: int|
            0 <= i < all.len() ==> (#[trigger] all[i]).well_formed(),
    decreases tokens.len() - at,
{
    lemma_declaration_moves_on(tokens, at);
    let one = declaration(tokens, at);
    match one.result {
        Err(error) => {},
        Ok(None) => {},
        Ok(Some(declared)) => {
            lemma_message_well_formed(tokens, at + 1);
            lemma_declarations_well_formed(tokens, one.position, found.push(declared));
        },
    }
}

/// A message that is read is well formed: no array in it is empty.
pub proof fn lemma_message_well_formed(tokens: Seq<TokenView>, at: int)
    ensures
        message(tokens, at).result matches Ok(read) ==> read.well_formed(),
{
    if has_token(tokens, at) {
        let open = expect(tokens, at + 1, TokenKind::OpenBracket);
        let id = number(tokens, open.position);
        let close = expect(tokens, id.position, TokenKind::CloseBracket);
        let brace = expect(tokens, close.position, TokenKind::OpenBrace);
        lemma_members_well_formed(tokens, brace.position, Seq::empty());
    }
}

/// A schema that is parsed is well formed: its namespace has at least
/// one part, and no array in its messages is empty.
pub proof fn lemma_unit_well_formed(tokens: Seq<TokenView>, at: int)
    ensures
        unit(tokens, at).result matches Ok(read) ==> read.well_formed(),
{
    let head = protocol(tokens, at);
    if head.result is Ok {
        lemma_name_has_parts(tokens, at);
        lemma_declarations_well_formed(tokens, head.position, Seq::empty());
    }
}

} // verus!
