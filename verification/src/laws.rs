//! The laws the library states of itself, proved from the grammar model
//! and the display rules.

use vstd::prelude::*;

use crate::grammar::LexItem;
use crate::grammar::TokenModel;
use crate::grammar::ident_end;
use crate::grammar::item_end;
use crate::grammar::item_start;
use crate::grammar::lemma_munch_facts;
use crate::grammar::lemma_skip_trivia;
use crate::grammar::lex_from;
use crate::grammar::lex_model;
use crate::grammar::munch;
use crate::grammar::skip_trivia;
use crate::render::token_text;

verus! {

/// Whether a token corresponds to exactly one literal string, carrying no
/// payload.
pub open spec fn is_fixed(t: TokenModel) -> bool {
    !(t is Integer) && !(t is Float) && !(t is Str) && !(t is Ident)
}

/// Span soundness, from any scan position: every lexeme lies within the
/// source and is non-empty, and consecutive lexemes do not overlap and come
/// in strictly increasing span order.
pub proof fn lemma_lex_from_spans(s: Seq<char>, i: int)
    requires
        0 <= i <= s.len(),
    ensures
        forall|k: int|
            0 <= k < lex_from(s, i).len() ==> i <= item_start(#[trigger] lex_from(s, i)[k])
                && item_start(lex_from(s, i)[k]) < item_end(lex_from(s, i)[k]) && item_end(
                lex_from(s, i)[k],
            ) <= s.len(),
        forall|k: int|
            0 <= k && k + 1 < lex_from(s, i).len() ==> item_end(#[trigger] lex_from(s, i)[k])
                <= item_start(lex_from(s, i)[k + 1]),
    decreases s.len() - i,
{
    lemma_skip_trivia(s, i);
    let j: int = skip_trivia(s, i);
    if j < s.len() {
        lemma_munch_facts(s, j);
        let item: LexItem = munch(s, j).0;
        let next: int = munch(s, j).1;
        lemma_lex_from_spans(s, next);
        lemma_skip_trivia(s, next);
        let items: Seq<LexItem> = lex_from(s, i);
        let rest: Seq<LexItem> = lex_from(s, next);
        assert(items == seq![item] + rest);
        assert forall|k: int|
            0 <= k < items.len() implies i <= item_start(#[trigger] items[k]) && item_start(
            items[k],
        ) < item_end(items[k]) && item_end(items[k]) <= s.len() by {
            if k > 0 {
                assert(items[k] == rest[k - 1]);
            }
        }
        assert forall|k: int|
            0 <= k && k + 1 < items.len() implies item_end(#[trigger] items[k]) <= item_start(
            items[k + 1],
        ) by {
            if k == 0 {
                assert(items[1] == rest[0]);
            } else {
                assert(items[k] == rest[k - 1]);
                assert(items[k + 1] == rest[k]);
            }
        }
    }
}

/// Span soundness: the spans of the lexemes produced from a source are
/// non-empty, lie within the source, do not overlap, and are strictly
/// ordered by their start.
pub proof fn lemma_spans_ordered(s: Seq<char>)
    ensures
        forall|k: int|
            0 <= k < lex_model(s).len() ==> 0 <= item_start(#[trigger] lex_model(s)[k])
                && item_start(lex_model(s)[k]) < item_end(lex_model(s)[k]) && item_end(
                lex_model(s)[k],
            ) <= s.len(),
        forall|k: int|
            0 <= k && k + 1 < lex_model(s).len() ==> item_end(#[trigger] lex_model(s)[k])
                <= item_start(lex_model(s)[k + 1]),
{
    lemma_lex_from_spans(s, 0);
}

/// A source holding exactly one lexeme, with no leading trivia, tokenizes
/// to exactly that lexeme.
proof fn lemma_lex_single(s: Seq<char>, item: LexItem)
    requires
        s.len() > 0,
        skip_trivia(s, 0) == 0,
        munch(s, 0) == (item, s.len() as int),
    ensures
        lex_model(s) == seq![item],
{
    assert(skip_trivia(s, s.len() as int) == s.len() as int);
    assert(lex_from(s, s.len() as int) =~= Seq::<LexItem>::empty());
    assert(lex_model(s) =~= seq![item]);
}

/// Round-trip: the display text of every fixed-text token re-tokenizes to
/// exactly that token, spanning the whole text.
pub proof fn lemma_fixed_round_trip(t: TokenModel)
    requires
        is_fixed(t),
    ensures
        lex_model(token_text(t)) == seq![
            (LexItem::Token { token: t, start: 0, end: token_text(t).len() as int }),
        ],
{
    match t {
        TokenModel::Period | TokenModel::Comma | TokenModel::Semi | TokenModel::Bang
        | TokenModel::Question | TokenModel::Colon | TokenModel::LParen | TokenModel::RParen
        | TokenModel::LSquare | TokenModel::RSquare | TokenModel::LBrace | TokenModel::RBrace
        | TokenModel::Plus | TokenModel::Minus | TokenModel::Star | TokenModel::Slash
        | TokenModel::Modulus | TokenModel::Less | TokenModel::Greater | TokenModel::Eq => {
            let s: Seq<char> = token_text(t);
            assert(munch(s, 0) == (LexItem::Token { token: t, start: 0, end: 1 }, 1int));
            lemma_lex_single(s, LexItem::Token { token: t, start: 0, end: 1 });
        },
        TokenModel::ColonColon | TokenModel::StraightArrow | TokenModel::EqArrow
        | TokenModel::EqEq | TokenModel::Ne | TokenModel::LessEq | TokenModel::GreaterEq
        | TokenModel::AndAnd | TokenModel::OrOr | TokenModel::PlusEq | TokenModel::MinusEq
        | TokenModel::StarEq | TokenModel::SlashEq => {
            let s: Seq<char> = token_text(t);
            assert(munch(s, 0) == (LexItem::Token { token: t, start: 0, end: 2 }, 2int));
            lemma_lex_single(s, LexItem::Token { token: t, start: 0, end: 2 });
        },
        TokenModel::EqEqEq | TokenModel::Nee => {
            let s: Seq<char> = token_text(t);
            assert(munch(s, 0) == (LexItem::Token { token: t, start: 0, end: 3 }, 3int));
            lemma_lex_single(s, LexItem::Token { token: t, start: 0, end: 3 });
        },
        TokenModel::Fn | TokenModel::If => {
            let s: Seq<char> = token_text(t);
            reveal_with_fuel(ident_end, 8);
            assert(ident_end(s, 0) == 2);
            assert(s.subrange(0, 2) =~= s);
            assert(munch(s, 0) == (LexItem::Token { token: t, start: 0, end: 2 }, 2int));
            lemma_lex_single(s, LexItem::Token { token: t, start: 0, end: 2 });
        },
        TokenModel::Let | TokenModel::For | TokenModel::Use | TokenModel::Mod => {
            let s: Seq<char> = token_text(t);
            reveal_with_fuel(ident_end, 8);
            assert(ident_end(s, 0) == 3);
            assert(s.subrange(0, 3) =~= s);
            assert(munch(s, 0) == (LexItem::Token { token: t, start: 0, end: 3 }, 3int));
            lemma_lex_single(s, LexItem::Token { token: t, start: 0, end: 3 });
        },
        TokenModel::Else | TokenModel::Impl | TokenModel::Enum | TokenModel::SelfValue => {
            let s: Seq<char> = token_text(t);
            reveal_with_fuel(ident_end, 8);
            assert(ident_end(s, 0) == 4);
            assert(s.subrange(0, 4) =~= s);
            assert(munch(s, 0) == (LexItem::Token { token: t, start: 0, end: 4 }, 4int));
            lemma_lex_single(s, LexItem::Token { token: t, start: 0, end: 4 });
        },
        TokenModel::While | TokenModel::Class | TokenModel::Super | TokenModel::Const => {
            let s: Seq<char> = token_text(t);
            reveal_with_fuel(ident_end, 8);
            assert(ident_end(s, 0) == 5);
            assert(s.subrange(0, 5) =~= s);
            assert(munch(s, 0) == (LexItem::Token { token: t, start: 0, end: 5 }, 5int));
            lemma_lex_single(s, LexItem::Token { token: t, start: 0, end: 5 });
        },
        TokenModel::Return | TokenModel::Struct | TokenModel::Static => {
            let s: Seq<char> = token_text(t);
            reveal_with_fuel(ident_end, 8);
            assert(ident_end(s, 0) == 6);
            assert(s.subrange(0, 6) =~= s);
            assert(munch(s, 0) == (LexItem::Token { token: t, start: 0, end: 6 }, 6int));
            lemma_lex_single(s, LexItem::Token { token: t, start: 0, end: 6 });
        },
        TokenModel::Integer(..) | TokenModel::Float(..) | TokenModel::Str(..)
        | TokenModel::Ident(..) => {
        },
    }
}

} // verus!
