//! What holds of every pass of the lexer.
use vstd::prelude::*;

use crate::lexer::{
    carriage_return_message, comment_end, end_of, ends_before, escapable_char, ident_char,
    ident_end, lemma_ident_end_bounds, lemma_newline_from_bounds, lemma_token_at_bounds,
    lemma_trivia_end_bounds, lex, lex_from, newline_from, scan_literal, starts_comment, token_at,
    whitespace_char, whitespace_end, TokenKindView, TokenView,
};
use crate::location::{
    advanced, lemma_advance_bounds, lemma_advanced_concat, lemma_advanced_forward, loc_le, Location,
};

verus! {

/// `s` holds, from index `i` on, only whitespace and line comments. A line
/// comment runs from `//` through the next newline, or to the end of `s`.
pub open spec fn trivia_only_from(s: Seq<char>, i: int) -> bool
    decreases s.len() - i,
    via trivia_only_from_decreases
{
    if i < 0 || i >= s.len() {
        true
    } else if whitespace_char(s[i]) {
        trivia_only_from(s, i + 1)
    } else if starts_comment(s, i) {
        trivia_only_from(s, comment_end(s, i))
    } else {
        false
    }
}

#[via_fn]
proof fn trivia_only_from_decreases(s: Seq<char>, i: int) {
    if 0 <= i < s.len() {
        lemma_newline_from_bounds(s, i);
    }
}

/// `s` holds only whitespace and line comments.
pub open spec fn trivia_only(s: Seq<char>) -> bool {
    trivia_only_from(s, 0)
}

proof fn lemma_trivia_after_whitespace(s: Seq<char>, i: int)
    requires
        0 <= i <= s.len(),
        trivia_only_from(s, i),
    ensures
        trivia_only_from(s, whitespace_end(s, i)),
    decreases s.len() - i,
{
    if i < s.len() && whitespace_char(s[i]) {
        lemma_trivia_after_whitespace(s, i + 1);
    }
}

proof fn lemma_trivia_lexes_from(s: Seq<char>, i: int, loc: Location)
    requires
        0 <= i <= s.len(),
        trivia_only_from(s, i),
    ensures
        lex_from(s, i, loc) == Ok::<Seq<TokenView>, (Seq<char>, Location)>(Seq::empty()),
    decreases s.len() - i,
{
    if i < s.len() {
        let w = whitespace_end(s, i);
        lemma_trivia_end_bounds(s, i);
        lemma_trivia_after_whitespace(s, i);
        lemma_newline_from_bounds(s, w);
        let j = comment_end(s, w);
        if whitespace_char(s[i]) {
            lemma_trivia_end_bounds(s, i + 1);
        } else {
            lemma_newline_from_bounds(s, i);
        }
        assert(j > i);
        lemma_trivia_lexes_from(s, j, advanced(loc, s.subrange(i, j)));
    }
}

/// Text made only of whitespace and line comments lexes, without error, to no
/// tokens.
pub proof fn lemma_trivia_lexes_to_nothing(s: Seq<char>)
    requires
        trivia_only(s),
    ensures
        lex(s) == Ok::<Seq<TokenView>, (Seq<char>, Location)>(Seq::empty()),
{
    lemma_trivia_lexes_from(s, 0, Location { line: 0, column: 0 });
}

/// A non-empty run of identifier characters lexes to a single node token that
/// holds the whole text, starts at the origin and is as wide as the text.
pub proof fn lemma_identifier_is_one_node(s: Seq<char>)
    requires
        s.len() > 0,
        forall|k: int| 0 <= k < s.len() ==> ident_char(#[trigger] s[k]),
    ensures
        lex(s) == Ok::<Seq<TokenView>, (Seq<char>, Location)>(
            seq![TokenView { kind: TokenKindView::Node(s), loc: Location { line: 0, column: 0 } }],
        ),
        end_of(
            TokenView { kind: TokenKindView::Node(s), loc: Location { line: 0, column: 0 } },
        ) == (0int, s.len() as int),
{
    lemma_whole_ident(s, 0);
    assert(s.subrange(0, s.len() as int) =~= s);
    let origin = Location { line: 0, column: 0 };
    let tok = TokenView { kind: TokenKindView::Node(s), loc: origin };
    assert(ident_char(s[0]));
    assert(whitespace_end(s, 0) == 0);
    assert(comment_end(s, 0) == 0);
    assert(token_at(s, 0) == Ok::<(TokenKindView, int), Seq<char>>(
        (TokenKindView::Node(s), s.len() as int),
    ));
    assert(lex_from(s, s.len() as int, advanced(origin, s)) == Ok::<
        Seq<TokenView>,
        (Seq<char>, Location),
    >(Seq::empty()));
    assert(seq![tok] + Seq::<TokenView>::empty() =~= seq![tok]);
}

proof fn lemma_whole_ident(s: Seq<char>, i: int)
    requires
        0 <= i <= s.len(),
        forall|k: int| 0 <= k < s.len() ==> ident_char(#[trigger] s[k]),
    ensures
        ident_end(s, i) == s.len(),
    decreases s.len() - i,
{
    if i < s.len() {
        lemma_whole_ident(s, i + 1);
    }
}

/// The end of `t` comes no later than `loc`.
pub open spec fn ends_by(t: TokenView, loc: Location) -> bool {
    end_of(t).0 < loc.line || (end_of(t).0 == loc.line && end_of(t).1 <= loc.column)
}

proof fn lemma_lex_from_in_order(s: Seq<char>, i: int, loc: Location)
    requires
        0 <= i <= s.len(),
        loc.line + (s.len() - i) <= usize::MAX,
        loc.column + (s.len() - i) <= usize::MAX,
    ensures
        lex_from(s, i, loc) matches Ok(ts) ==> {
            &&& ts.len() > 0 ==> loc_le(loc, ts[0].loc)
            &&& forall|k: int| 0 < k < ts.len() ==> ends_before(#[trigger] ts[k - 1], ts[k])
        },
    decreases s.len() - i,
{
    if i < s.len() {
        lemma_trivia_end_bounds(s, i);
        lemma_token_at_bounds(s, i);
        let j = comment_end(s, whitespace_end(s, i));
        if j > i {
            let t = s.subrange(i, j);
            lemma_advanced_forward(loc, t);
            lemma_lex_from_in_order(s, j, advanced(loc, t));
        } else if let Ok((kind, end)) = token_at(s, i) {
            let t = s.subrange(i, end);
            let next = advanced(loc, t);
            lemma_advanced_forward(loc, t);
            lemma_lex_from_in_order(s, end, next);
            let tok = TokenView { kind, loc };
            if let Ok(rest) = lex_from(s, end, next) {
                let ts = seq![tok] + rest;
                assert(ends_by(tok, next));
                assert forall|k: int| 0 < k < ts.len() implies ends_before(
                    #[trigger] ts[k - 1],
                    ts[k],
                ) by {
                    if k == 1 {
                        assert(ts[0] == tok);
                        assert(ts[1] == rest[0]);
                    } else {
                        assert(ts[k - 1] == rest[k - 2]);
                        assert(ts[k] == rest[k - 1]);
                    }
                }
            }
        }
    }
}

/// In a successful pass each token starts no earlier than the one before it
/// ends.
pub proof fn lemma_tokens_in_order(s: Seq<char>)
    requires
        s.len() <= usize::MAX,
    ensures
        lex(s) matches Ok(ts) ==> forall|k: int|
            0 < k < ts.len() ==> ends_before(#[trigger] ts[k - 1], ts[k]),
{
    lemma_lex_from_in_order(s, 0, Location { line: 0, column: 0 });
}

/// Some step of the lexer on `s`, from index `i` on, reads a line comment
/// that runs to the end of `s` without a newline.
pub open spec fn stops_in_open_comment(s: Seq<char>, i: int) -> bool
    decreases s.len() - i,
    via stops_in_open_comment_decreases
{
    if i < 0 || i >= s.len() {
        false
    } else {
        let w = whitespace_end(s, i);
        let j = comment_end(s, w);
        if j > i {
            (starts_comment(s, w) && newline_from(s, w) == s.len()) || stops_in_open_comment(s, j)
        } else {
            match token_at(s, i) {
                Ok((_, end)) => stops_in_open_comment(s, end),
                Err(_) => false,
            }
        }
    }
}

#[via_fn]
proof fn stops_in_open_comment_decreases(s: Seq<char>, i: int) {
    if 0 <= i < s.len() {
        lemma_trivia_end_bounds(s, i);
        lemma_token_at_bounds(s, i);
    }
}

proof fn lemma_whitespace_end_extended(a: Seq<char>, s: Seq<char>, k: int)
    requires
        s.len() > a.len(),
        s[a.len() as int] == '\r',
        forall|x: int| 0 <= x < a.len() ==> #[trigger] s[x] == a[x],
        0 <= k <= a.len(),
    ensures
        whitespace_end(s, k) == whitespace_end(a, k),
    decreases a.len() - k,
{
    if k < a.len() {
        lemma_whitespace_end_extended(a, s, k + 1);
    }
}

proof fn lemma_newline_from_extended(a: Seq<char>, s: Seq<char>, k: int)
    requires
        s.len() > a.len(),
        forall|x: int| 0 <= x < a.len() ==> #[trigger] s[x] == a[x],
        0 <= k <= a.len(),
        newline_from(a, k) < a.len(),
    ensures
        newline_from(s, k) == newline_from(a, k),
    decreases a.len() - k,
{
    if k < a.len() && a[k] != '\n' {
        lemma_newline_from_extended(a, s, k + 1);
    }
}

proof fn lemma_ident_end_extended(a: Seq<char>, s: Seq<char>, k: int)
    requires
        s.len() > a.len(),
        s[a.len() as int] == '\r',
        forall|x: int| 0 <= x < a.len() ==> #[trigger] s[x] == a[x],
        0 <= k <= a.len(),
    ensures
        ident_end(s, k) == ident_end(a, k),
        ident_end(a, k) <= a.len(),
    decreases a.len() - k,
{
    if k < a.len() {
        lemma_ident_end_extended(a, s, k + 1);
    }
}

proof fn lemma_scan_literal_extended(a: Seq<char>, s: Seq<char>, k: int, acc: Seq<char>)
    requires
        s.len() > a.len(),
        forall|x: int| 0 <= x < a.len() ==> #[trigger] s[x] == a[x],
        0 <= k,
        scan_literal(a, k, acc) is Ok,
    ensures
        scan_literal(s, k, acc) == scan_literal(a, k, acc),
    decreases a.len() - k,
{
    if k < a.len() {
        if a[k] == '\\' {
            if k + 1 < a.len() && escapable_char(a[k + 1]) {
                lemma_scan_literal_extended(a, s, k + 2, acc.push(a[k + 1]));
            }
        } else if a[k] != '\'' {
            lemma_scan_literal_extended(a, s, k + 1, acc.push(a[k]));
        }
    }
}

proof fn lemma_trivia_extended(a: Seq<char>, s: Seq<char>, i: int)
    requires
        s.len() > a.len(),
        s[a.len() as int] == '\r',
        forall|x: int| 0 <= x < a.len() ==> #[trigger] s[x] == a[x],
        0 <= i < a.len(),
        !(starts_comment(a, whitespace_end(a, i)) && newline_from(a, whitespace_end(a, i))
            == a.len()),
    ensures
        whitespace_end(s, i) == whitespace_end(a, i),
        comment_end(s, whitespace_end(s, i)) == comment_end(a, whitespace_end(a, i)),
{
    lemma_trivia_end_bounds(a, i);
    lemma_whitespace_end_extended(a, s, i);
    let w = whitespace_end(a, i);
    if starts_comment(a, w) {
        lemma_newline_from_bounds(a, w);
        lemma_newline_from_extended(a, s, w);
    }
}

proof fn lemma_token_at_extended(a: Seq<char>, s: Seq<char>, i: int)
    requires
        s.len() > a.len(),
        s[a.len() as int] == '\r',
        forall|x: int| 0 <= x < a.len() ==> #[trigger] s[x] == a[x],
        0 <= i < a.len(),
        token_at(a, i) is Ok,
    ensures
        token_at(s, i) == token_at(a, i),
{
    let c = a[i];
    if c == '\'' {
        lemma_scan_literal_extended(a, s, i + 1, Seq::empty());
    } else if ident_char(c) {
        lemma_ident_end_extended(a, s, i);
        lemma_ident_end_bounds(a, i);
        assert(s.subrange(i, ident_end(s, i)) =~= a.subrange(i, ident_end(a, i)));
    }
}

proof fn lemma_carriage_return_from(a: Seq<char>, s: Seq<char>, i: int, loc: Location)
    requires
        s.len() > a.len(),
        s[a.len() as int] == '\r',
        forall|x: int| 0 <= x < a.len() ==> #[trigger] s[x] == a[x],
        0 <= i <= a.len(),
        loc.line + (a.len() - i) <= usize::MAX,
        loc.column + (a.len() - i) <= usize::MAX,
        lex_from(a, i, loc) is Ok,
        !stops_in_open_comment(a, i),
    ensures
        lex_from(s, i, loc) == Err::<Seq<TokenView>, (Seq<char>, Location)>(
            (carriage_return_message(), advanced(loc, a.subrange(i, a.len() as int))),
        ),
    decreases a.len() - i,
{
    let n = a.len() as int;
    if i == n {
        assert(whitespace_end(s, i) == i);
        assert(!starts_comment(s, i));
        assert(a.subrange(i, n) =~= Seq::<char>::empty());
        lemma_advance_bounds(a.subrange(i, n));
    } else {
        lemma_trivia_end_bounds(a, i);
        lemma_token_at_bounds(a, i);
        lemma_trivia_extended(a, s, i);
        let j = comment_end(a, whitespace_end(a, i));
        let end = if j > i {
            j
        } else {
            lemma_token_at_extended(a, s, i);
            token_at(a, i)->Ok_0.1
        };
        let t = a.subrange(i, end);
        assert(s.subrange(i, end) =~= t);
        lemma_advanced_forward(loc, t);
        lemma_carriage_return_from(a, s, end, advanced(loc, t));
        lemma_advanced_concat(loc, t, a.subrange(end, n));
        assert(t + a.subrange(end, n) =~= a.subrange(i, n));
    }
}

/// A carriage return after text that lexes cleanly, that is without error and
/// without ending inside a line comment, fails the whole pass with the
/// carriage-return error, located where that text ends.
pub proof fn lemma_carriage_return_rejected(a: Seq<char>, b: Seq<char>)
    requires
        a.len() <= usize::MAX,
        lex(a) is Ok,
        !stops_in_open_comment(a, 0),
    ensures
        lex(a + seq!['\r'] + b) == Err::<Seq<TokenView>, (Seq<char>, Location)>(
            (carriage_return_message(), advanced(Location { line: 0, column: 0 }, a)),
        ),
{
    let s = a + seq!['\r'] + b;
    assert(s[a.len() as int] == '\r');
    assert(a.subrange(0, a.len() as int) =~= a);
    lemma_carriage_return_from(a, s, 0, Location { line: 0, column: 0 });
}

} // verus!
