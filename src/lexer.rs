//! Hand-written lexer for grammar sources.
use vstd::prelude::*;
use vstd::std_specs::iter::IteratorSpec;
use vstd::string::*;

use crate::error::Error;
use crate::location::{advanced, lemma_advance_bounds, Location, Range};
use crate::text::push_char;

verus! {

broadcast use {vstd::string::axiom_spec_iter, vstd::string::next_postcondition};

/// The kind of a token, with the text it carries.
#[derive(Debug, PartialEq, Eq)]
pub enum TokenKind {
    /// An identifier naming a node.
    Node(String),
    /// A quoted literal, with its escapes decoded.
    Token(String),
    /// `=`
    Eq,
    /// `*`
    Star,
    /// `|`
    Pipe,
    /// `?`
    QMark,
    /// `:`
    Colon,
    /// `(`
    LParen,
    /// `)`
    RParen,
}

/// What a [`TokenKind`] stands for, with its text as a sequence of characters.
pub enum TokenKindView {
    Node(Seq<char>),
    Token(Seq<char>),
    Eq,
    Star,
    Pipe,
    QMark,
    Colon,
    LParen,
    RParen,
}

impl View for TokenKind {
    type V = TokenKindView;

    open spec fn view(&self) -> TokenKindView {
        match self {
            TokenKind::Node(s) => TokenKindView::Node(s@),
            TokenKind::Token(s) => TokenKindView::Token(s@),
            TokenKind::Eq => TokenKindView::Eq,
            TokenKind::Star => TokenKindView::Star,
            TokenKind::Pipe => TokenKindView::Pipe,
            TokenKind::QMark => TokenKindView::QMark,
            TokenKind::Colon => TokenKindView::Colon,
            TokenKind::LParen => TokenKindView::LParen,
            TokenKind::RParen => TokenKindView::RParen,
        }
    }
}

/// Width of a token of kind `k`, in characters: the length of its text for a
/// node or a literal, one for punctuation.
pub open spec fn size_of_kind(k: TokenKindView) -> nat {
    match k {
        TokenKindView::Node(s) => s.len(),
        TokenKindView::Token(s) => s.len(),
        _ => 1,
    }
}

impl TokenKind {
    /// Width of the token in characters: its text for a node or a literal, one
    /// for punctuation.
    pub fn size_hint(&self) -> (r: usize)
        ensures
            r == size_of_kind(self@),
    {
        match self {
            TokenKind::Node(s) => s.as_str().unicode_len(),
            TokenKind::Token(s) => s.as_str().unicode_len(),
            TokenKind::Eq => 1,
            TokenKind::Star => 1,
            TokenKind::Pipe => 1,
            TokenKind::QMark => 1,
            TokenKind::Colon => 1,
            TokenKind::LParen => 1,
            TokenKind::RParen => 1,
        }
    }
}

/// A token and where it starts.
#[derive(Debug)]
pub struct Token {
    pub kind: TokenKind,
    pub loc: Location,
}

impl Token {
    /// The location just past the token, on the line where it starts.
    pub fn end_location(&self) -> (r: Location)
        requires
            self.loc.column + size_of_kind(self.kind@) <= usize::MAX,
        ensures
            r.line == end_of(self@).0,
            r.column == end_of(self@).1,
    {
        Location { line: self.loc.line, column: self.loc.column + self.kind.size_hint() }
    }

    /// The span that the token covers.
    pub fn range(&self) -> (r: Range)
        requires
            self.loc.column + size_of_kind(self.kind@) <= usize::MAX,
        ensures
            r.begin == self.loc,
            r.ex_end.line == end_of(self@).0,
            r.ex_end.column == end_of(self@).1,
    {
        Range { begin: self.loc, ex_end: self.end_location() }
    }
}

/// What a [`Token`] stands for.
pub struct TokenView {
    pub kind: TokenKindView,
    pub loc: Location,
}

impl View for Token {
    type V = TokenView;

    open spec fn view(&self) -> TokenView {
        TokenView { kind: self.kind@, loc: self.loc }
    }
}

/// Line and column just past `t`, as integers; a token never spans lines.
pub open spec fn end_of(t: TokenView) -> (int, int) {
    (t.loc.line as int, t.loc.column + size_of_kind(t.kind))
}

/// `t` ends no later than `u` begins.
pub open spec fn ends_before(t: TokenView, u: TokenView) -> bool {
    end_of(t).0 < u.loc.line || (end_of(t).0 == u.loc.line && end_of(t).1 <= u.loc.column)
}

// ---------------------------------------------------------------------------
// The language of the lexer, as spec functions over the characters of a source
// and positions in it.

/// Whitespace between tokens. A carriage return is not whitespace.
pub open spec fn whitespace_char(c: char) -> bool {
    c == ' ' || c == '\t' || c == '\n'
}

/// Characters of an identifier: ASCII letters and the underscore.
pub open spec fn ident_char(c: char) -> bool {
    ('a' <= c && c <= 'z') || ('A' <= c && c <= 'Z') || c == '_'
}

/// Characters that may follow a backslash inside a literal.
pub open spec fn escapable_char(c: char) -> bool {
    c == '\\' || c == '\''
}

/// End of the run of whitespace that starts at `i`.
pub open spec fn whitespace_end(s: Seq<char>, i: int) -> int
    decreases s.len() - i,
{
    if 0 <= i < s.len() && whitespace_char(s[i]) {
        whitespace_end(s, i + 1)
    } else {
        i
    }
}

/// Index of the first newline at or after `i`, or the length of `s`.
pub open spec fn newline_from(s: Seq<char>, i: int) -> int
    decreases s.len() - i,
{
    if 0 <= i < s.len() && s[i] != '\n' {
        newline_from(s, i + 1)
    } else {
        i
    }
}

/// A line comment starts at `i`.
pub open spec fn starts_comment(s: Seq<char>, i: int) -> bool {
    0 <= i && i + 1 < s.len() && s[i] == '/' && s[i + 1] == '/'
}

/// End of the line comment that starts at `i`, its newline included; `i` where
/// no comment starts.
pub open spec fn comment_end(s: Seq<char>, i: int) -> int {
    if starts_comment(s, i) {
        let n = newline_from(s, i);
        if n < s.len() {
            n + 1
        } else {
            n
        }
    } else {
        i
    }
}

/// End of the identifier characters that start at `i`.
pub open spec fn ident_end(s: Seq<char>, i: int) -> int
    decreases s.len() - i,
{
    if 0 <= i < s.len() && ident_char(s[i]) {
        ident_end(s, i + 1)
    } else {
        i
    }
}

/// Message for a literal that the input ends inside.
pub open spec fn unclosed_literal_message() -> Seq<char> {
    "unclosed token literal"@
}

/// Message for a backslash followed by anything but `\` or `'`.
pub open spec fn invalid_escape_message() -> Seq<char> {
    "invalid escape in token literal"@
}

/// Message for a carriage return.
pub open spec fn carriage_return_message() -> Seq<char> {
    "unexpected `\\r`, only Unix-style line endings allowed"@
}

/// Message for a character that starts no token.
pub open spec fn unexpected_char_message(c: char) -> Seq<char> {
    "unexpected character: `"@.push(c) + "`"@
}

/// Reads the rest of a quoted literal from `i`, after its opening quote, with
/// `acc` decoded so far: the decoded text and the index past the closing
/// quote, or the message of the failure.
pub open spec fn scan_literal(s: Seq<char>, i: int, acc: Seq<char>) -> Result<
    (Seq<char>, int),
    Seq<char>,
>
    decreases s.len() - i,
{
    if i < 0 || i >= s.len() {
        Err(unclosed_literal_message())
    } else if s[i] == '\\' {
        if i + 1 < s.len() && escapable_char(s[i + 1]) {
            scan_literal(s, i + 2, acc.push(s[i + 1]))
        } else {
            Err(invalid_escape_message())
        }
    } else if s[i] == '\'' {
        Ok((acc, i + 1))
    } else {
        scan_literal(s, i + 1, acc.push(s[i]))
    }
}

/// The single-character token kind of `c`, if it is punctuation.
pub open spec fn punct_kind(c: char) -> Option<TokenKindView> {
    if c == '=' {
        Some(TokenKindView::Eq)
    } else if c == '*' {
        Some(TokenKindView::Star)
    } else if c == '?' {
        Some(TokenKindView::QMark)
    } else if c == '(' {
        Some(TokenKindView::LParen)
    } else if c == ')' {
        Some(TokenKindView::RParen)
    } else if c == '|' {
        Some(TokenKindView::Pipe)
    } else if c == ':' {
        Some(TokenKindView::Colon)
    } else {
        None
    }
}

/// The token that starts at `i`, with the index just past it, or the message
/// of the failure.
pub open spec fn token_at(s: Seq<char>, i: int) -> Result<(TokenKindView, int), Seq<char>> {
    let c = s[i];
    if punct_kind(c) is Some {
        Ok((punct_kind(c)->0, i + 1))
    } else if c == '\'' {
        match scan_literal(s, i + 1, Seq::empty()) {
            Ok((text, end)) => Ok((TokenKindView::Token(text), end)),
            Err(m) => Err(m),
        }
    } else if ident_char(c) {
        Ok((TokenKindView::Node(s.subrange(i, ident_end(s, i))), ident_end(s, i)))
    } else if c == '\r' {
        Err(carriage_return_message())
    } else {
        Err(unexpected_char_message(c))
    }
}

/// Where a literal scan succeeds it ends past its start, within `s`, and
/// decodes fewer characters than it reads.
pub proof fn lemma_scan_literal_bounds(s: Seq<char>, i: int, acc: Seq<char>)
    ensures
        scan_literal(s, i, acc) matches Ok((text, end)) ==> {
            &&& 0 <= i < end <= s.len()
            &&& acc.len() <= text.len()
            &&& text.len() - acc.len() <= end - i - 1
        },
    decreases s.len() - i,
{
    if 0 <= i < s.len() {
        if s[i] == '\\' {
            if i + 1 < s.len() && escapable_char(s[i + 1]) {
                lemma_scan_literal_bounds(s, i + 2, acc.push(s[i + 1]));
            }
        } else if s[i] != '\'' {
            lemma_scan_literal_bounds(s, i + 1, acc.push(s[i]));
        }
    }
}

/// The identifier that starts at `i` ends within `s`.
pub proof fn lemma_ident_end_bounds(s: Seq<char>, i: int)
    requires
        0 <= i <= s.len(),
    ensures
        i <= ident_end(s, i) <= s.len(),
        forall|k: int| i <= k < ident_end(s, i) ==> ident_char(#[trigger] s[k]),
    decreases s.len() - i,
{
    if i < s.len() && ident_char(s[i]) {
        lemma_ident_end_bounds(s, i + 1);
    }
}

/// A token read at `i` ends past `i`, within `s`, and is no wider than the
/// text it was read from.
pub proof fn lemma_token_at_bounds(s: Seq<char>, i: int)
    requires
        0 <= i < s.len(),
    ensures
        token_at(s, i) matches Ok((kind, end)) ==> {
            &&& i < end <= s.len()
            &&& size_of_kind(kind) <= end - i
        },
{
    let c = s[i];
    if punct_kind(c) is Some {
    } else if c == '\'' {
        lemma_scan_literal_bounds(s, i + 1, Seq::empty());
    } else if ident_char(c) {
        lemma_ident_end_bounds(s, i);
        lemma_ident_end_bounds(s, i + 1);
    }
}

/// Whitespace and a comment read from `i` stay within `s`.
pub proof fn lemma_trivia_end_bounds(s: Seq<char>, i: int)
    requires
        0 <= i <= s.len(),
    ensures
        i <= whitespace_end(s, i) <= comment_end(s, whitespace_end(s, i)) <= s.len(),
    decreases s.len() - i,
{
    if i < s.len() && whitespace_char(s[i]) {
        lemma_trivia_end_bounds(s, i + 1);
    } else {
        lemma_newline_from_bounds(s, i);
    }
}

/// The next newline from `i` lies within `s`.
pub proof fn lemma_newline_from_bounds(s: Seq<char>, i: int)
    requires
        0 <= i <= s.len(),
    ensures
        i <= newline_from(s, i) <= s.len(),
        newline_from(s, i) < s.len() ==> s[newline_from(s, i)] == '\n',
        forall|k: int| i <= k < newline_from(s, i) ==> #[trigger] s[k] != '\n',
    decreases s.len() - i,
{
    if i < s.len() && s[i] != '\n' {
        lemma_newline_from_bounds(s, i + 1);
    }
}

/// Prepends the tokens `prefix` to a lexing outcome.
pub open spec fn prepend(prefix: Seq<TokenView>, r: Result<Seq<TokenView>, (Seq<char>, Location)>) -> Result<
    Seq<TokenView>,
    (Seq<char>, Location),
> {
    match r {
        Ok(rest) => Ok(prefix + rest),
        Err(e) => Err(e),
    }
}

/// Prepending twice is prepending the concatenation.
pub proof fn lemma_prepend_prepend(
    a: Seq<TokenView>,
    b: Seq<TokenView>,
    r: Result<Seq<TokenView>, (Seq<char>, Location)>,
)
    ensures
        prepend(a, prepend(b, r)) == prepend(a + b, r),
{
    if let Ok(rest) = r {
        assert(a + (b + rest) =~= (a + b) + rest);
    }
}

/// Lexes `s` from index `i`, which lies at location `loc`: the tokens read, or
/// the message of the first failure and the location of the step it stopped.
///
/// Each step skips whitespace and then one line comment; where that reads
/// nothing it reads one token. The location moves over all that the step read.
pub open spec fn lex_from(s: Seq<char>, i: int, loc: Location) -> Result<
    Seq<TokenView>,
    (Seq<char>, Location),
>
    decreases s.len() - i,
    via lex_from_decreases
{
    if i < 0 || i >= s.len() {
        Ok(Seq::empty())
    } else {
        let j = comment_end(s, whitespace_end(s, i));
        if j > i {
            lex_from(s, j, advanced(loc, s.subrange(i, j)))
        } else {
            match token_at(s, i) {
                Err(m) => Err((m, loc)),
                Ok((kind, end)) => prepend(
                    seq![TokenView { kind, loc }],
                    lex_from(s, end, advanced(loc, s.subrange(i, end))),
                ),
            }
        }
    }
}

#[via_fn]
proof fn lex_from_decreases(s: Seq<char>, i: int, loc: Location) {
    if 0 <= i < s.len() {
        lemma_trivia_end_bounds(s, i);
        lemma_token_at_bounds(s, i);
    }
}

/// The outcome of lexing all of `s` from the start of its first line.
pub open spec fn lex(s: Seq<char>) -> Result<Seq<TokenView>, (Seq<char>, Location)> {
    lex_from(s, 0, Location { line: 0, column: 0 })
}

// ---------------------------------------------------------------------------
// Executable lexer.

pub fn is_escapable(c: char) -> (r: bool)
    ensures
        r == escapable_char(c),
{
    c == '\\' || c == '\''
}

pub fn is_whitespace(c: char) -> (r: bool)
    ensures
        r == whitespace_char(c),
{
    c == ' ' || c == '\t' || c == '\n'
}

pub fn is_ident_char(c: char) -> (r: bool)
    ensures
        r == ident_char(c),
{
    ('a' <= c && c <= 'z') || ('A' <= c && c <= 'Z') || c == '_'
}

/// The characters of `s`, in order.
fn chars_of(s: &str) -> (v: Vec<char>)
    ensures
        v@ == s@,
{
    let mut it = s.chars();
    let mut v: Vec<char> = Vec::new();
    loop
        invariant
            v@ + it.remaining() == s@,
            it.decrease() is Some,
        ensures
            v@ == s@,
        decreases it.decrease()->0,
    {
        match it.next() {
            Some(c) => {
                v.push(c);
            },
            None => {
                assert(v@ + it.remaining() =~= v@);
                break ;
            },
        }
    }
    v
}

/// Moves `pos` past the whitespace that starts there.
pub fn skip_ws(input: &[char], pos: &mut usize)
    requires
        *old(pos) <= input@.len(),
    ensures
        *final(pos) == whitespace_end(input@, *old(pos) as int),
{
    while *pos < input.len() && is_whitespace(input[*pos])
        invariant
            *pos <= input@.len(),
            whitespace_end(input@, *pos as int) == whitespace_end(input@, *old(pos) as int),
        decreases input@.len() - *pos,
    {
        *pos = *pos + 1;
    }
}

/// Moves `pos` past a line comment that starts there, its newline included.
pub fn skip_comment(input: &[char], pos: &mut usize)
    requires
        *old(pos) <= input@.len(),
    ensures
        *final(pos) == comment_end(input@, *old(pos) as int),
{
    let start = *pos;
    if start < input.len() && start + 1 < input.len() && input[start] == '/' && input[start + 1] == '/' {
        let mut i = start;
        while i < input.len() && input[i] != '\n'
            invariant
                start <= i <= input@.len(),
                newline_from(input@, i as int) == newline_from(input@, start as int),
            decreases input@.len() - i,
        {
            i = i + 1;
        }
        if i < input.len() {
            i = i + 1;
        }
        *pos = i;
    }
}

/// Reads the token that starts at `pos` and moves `pos` past it.
pub fn advance(input: &[char], pos: &mut usize) -> (r: Result<TokenKind, Error>)
    requires
        *old(pos) < input@.len(),
    ensures
        match token_at(input@, *old(pos) as int) {
            Ok((kind, end)) => r matches Ok(k) && k@ == kind && *final(pos) == end,
            Err(m) => r matches Err(Error::Simple { message, location: None }) && message@ == m,
        },
{
    let start = *pos;
    let c = input[start];
    let kind = if c == '=' {
        TokenKind::Eq
    } else if c == '*' {
        TokenKind::Star
    } else if c == '?' {
        TokenKind::QMark
    } else if c == '(' {
        TokenKind::LParen
    } else if c == ')' {
        TokenKind::RParen
    } else if c == '|' {
        TokenKind::Pipe
    } else if c == ':' {
        TokenKind::Colon
    } else if c == '\'' {
        let mut buf = String::new();
        let mut i = start + 1;
        loop
            invariant_except_break
                scan_literal(input@, i as int, buf@) == scan_literal(
                    input@,
                    start + 1,
                    Seq::empty(),
                ),
            invariant
                start < i <= input@.len(),
                input@[start as int] == '\'',
                start == *old(pos),
            ensures
                scan_literal(input@, start + 1, Seq::empty()) == Ok::<(Seq<char>, int), Seq<char>>(
                    (buf@, i as int),
                ),
            decreases input@.len() - i,
        {
            if i >= input.len() {
                return Err(Error::simple(String::from_str("unclosed token literal")));
            }
            let d = input[i];
            if d == '\\' {
                if i + 1 < input.len() && is_escapable(input[i + 1]) {
                    push_char(&mut buf, input[i + 1]);
                    i = i + 2;
                } else {
                    return Err(Error::simple(String::from_str("invalid escape in token literal")));
                }
            } else if d == '\'' {
                i = i + 1;
                break ;
            } else {
                push_char(&mut buf, d);
                i = i + 1;
            }
        }
        *pos = i;
        return Ok(TokenKind::Token(buf));
    } else if is_ident_char(c) {
        let mut buf = String::new();
        let mut i = start;
        while i < input.len() && is_ident_char(input[i])
            invariant
                start <= i <= input@.len(),
                ident_end(input@, i as int) == ident_end(input@, start as int),
                buf@ == input@.subrange(start as int, i as int),
            decreases input@.len() - i,
        {
            proof {
                assert(input@.subrange(start as int, i + 1) =~= input@.subrange(
                    start as int,
                    i as int,
                ).push(input@[i as int]));
            }
            push_char(&mut buf, input[i]);
            i = i + 1;
        }
        *pos = i;
        return Ok(TokenKind::Node(buf));
    } else if c == '\r' {
        return Err(
            Error::simple(
                String::from_str("unexpected `\\r`, only Unix-style line endings allowed"),
            ),
        );
    } else {
        let mut message = String::from_str("unexpected character: `");
        push_char(&mut message, c);
        message.append("`");
        return Err(Error::simple(message));
    };
    *pos = start + 1;
    Ok(kind)
}

/// The views of `tokens`, in order.
pub open spec fn tokens_view(tokens: Seq<Token>) -> Seq<TokenView> {
    tokens.map_values(|t: Token| t@)
}

/// Splits `input` into tokens.
///
/// Whitespace (space, tab, newline) and `//` line comments separate tokens.
/// The first failure stops the pass; its error carries the location of the
/// step that failed.
pub fn tokenize(input: &str) -> (r: Result<Vec<Token>, Error>)
    ensures
        match lex(input@) {
            Ok(tokens) => r matches Ok(v) && tokens_view(v@) == tokens,
            Err((m, l)) => r matches Err(Error::Simple { message, location: Some(at) }) && message@
                == m && at == l,
        },
{
    let chars = chars_of(input);
    let s = chars.as_slice();
    let mut res: Vec<Token> = Vec::new();
    let mut loc = Location { line: 0, column: 0 };
    let mut pos: usize = 0;
    proof {
        assert(tokens_view(res@) =~= Seq::<TokenView>::empty());
        assert(prepend(Seq::empty(), lex(s@)) =~= lex(s@));
    }
    while pos < s.len()
        invariant
            s@ == input@,
            pos <= s@.len(),
            loc.line <= pos,
            loc.column <= pos,
            lex(s@) == prepend(tokens_view(res@), lex_from(s@, pos as int, loc)),
        decreases s@.len() - pos,
    {
        let start = pos;
        skip_ws(s, &mut pos);
        proof {
            lemma_trivia_end_bounds(s@, start as int);
        }
        skip_comment(s, &mut pos);
        if pos == start {
            let ghost before = res@;
            proof {
                lemma_token_at_bounds(s@, start as int);
            }
            match advance(s, &mut pos) {
                Ok(kind) => {
                    res.push(Token { kind, loc });
                    proof {
                        assert(tokens_view(res@) =~= tokens_view(before) + seq![res@.last()@]);
                        lemma_prepend_prepend(
                            tokens_view(before),
                            seq![res@.last()@],
                            lex_from(s@, pos as int, advanced(loc, s@.subrange(start as int, pos as int))),
                        );
                    }
                },
                Err(err) => {
                    return Err(err.with_location(loc));
                },
            }
        }
        let consumed = vstd::slice::slice_subrange(s, start, pos);
        proof {
            lemma_advance_bounds(consumed@);
        }
        loc.advance(consumed);
    }
    proof {
        assert(tokens_view(res@) + Seq::<TokenView>::empty() =~= tokens_view(res@));
    }
    Ok(res)
}

} // verus!
