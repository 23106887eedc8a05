//! The scanner: a single left-to-right pass over the source characters that
//! classifies lexemes, tracks lines, and reports lexical errors without
//! stopping.
use vstd::prelude::*;
use crate::lox::{report_views, Lox, ReportView};
use crate::token::{views, LiteralView, Token, TokenLiteral, TokenType, TokenView};

verus! {

// ---------------------------------------------------------------------------
// The model: what the token sequence of a text is.
// ---------------------------------------------------------------------------

pub open spec fn is_digit_char(c: char) -> bool {
    '0' <= c && c <= '9'
}

pub open spec fn is_alpha_char(c: char) -> bool {
    ('a' <= c && c <= 'z') || ('A' <= c && c <= 'Z') || c == '_'
}

pub open spec fn is_alphanumeric_char(c: char) -> bool {
    is_alpha_char(c) || is_digit_char(c)
}

/// The kinds of character runs the scanner consumes greedily.
pub enum Run {
    /// Decimal digits.
    Digits,
    /// Letters, digits and underscores.
    Word,
    /// Anything up to a newline (a line comment).
    ToNewline,
    /// Anything up to a double quote (a string body).
    ToQuote,
}

pub open spec fn in_run(c: char, k: Run) -> bool {
    match k {
        Run::Digits => is_digit_char(c),
        Run::Word => is_alphanumeric_char(c),
        Run::ToNewline => c != '\n',
        Run::ToQuote => c != '"',
    }
}

/// The first position at or after `i` whose character does not belong to the
/// run `k`, or the end of `src`.
pub open spec fn run_end(src: Seq<char>, i: int, k: Run) -> int
    decreases src.len() - i,
{
    if 0 <= i < src.len() && in_run(src[i], k) {
        run_end(src, i + 1, k)
    } else {
        i
    }
}

/// Whether position `i` of `src` holds `c`.
pub open spec fn next_is(src: Seq<char>, i: int, c: char) -> bool {
    0 <= i < src.len() && src[i] == c
}

/// The number of newline characters in `src[0..i]`.
pub open spec fn newlines_before(src: Seq<char>, i: int) -> nat
    decreases i,
{
    if i <= 0 {
        0
    } else {
        newlines_before(src, i - 1) + if src[i - 1] == '\n' {
            1nat
        } else {
            0nat
        }
    }
}

/// The 1-based line on which position `i` lies.
pub open spec fn line_at(src: Seq<char>, i: int) -> nat {
    1 + newlines_before(src, i)
}

/// Categories of the punctuation marks that always stand alone.
pub open spec fn single_char_type(c: char) -> Option<TokenType> {
    if c == '(' {
        Some(TokenType::LeftParen)
    } else if c == ')' {
        Some(TokenType::RightParen)
    } else if c == '{' {
        Some(TokenType::LeftBrace)
    } else if c == '}' {
        Some(TokenType::RightBrace)
    } else if c == ',' {
        Some(TokenType::Comma)
    } else if c == '.' {
        Some(TokenType::Dot)
    } else if c == '-' {
        Some(TokenType::Minus)
    } else if c == '+' {
        Some(TokenType::Plus)
    } else if c == ';' {
        Some(TokenType::Semicolon)
    } else if c == '*' {
        Some(TokenType::Star)
    } else {
        None
    }
}

/// Categories of the operators that take an optional trailing `=`.
pub open spec fn pair_type(c: char, with_equal: bool) -> Option<TokenType> {
    if c == '!' {
        Some(if with_equal { TokenType::BangEqual } else { TokenType::Bang })
    } else if c == '=' {
        Some(if with_equal { TokenType::EqualEqual } else { TokenType::Equal })
    } else if c == '<' {
        Some(if with_equal { TokenType::LessEqual } else { TokenType::Less })
    } else if c == '>' {
        Some(if with_equal { TokenType::GreaterEqual } else { TokenType::Greater })
    } else {
        None
    }
}

/// The category of an identifier-shaped lexeme: a keyword on an exact match
/// of the whole text, otherwise an identifier.
pub open spec fn keyword_kind(s: Seq<char>) -> TokenType {
    if s == "and"@ {
        TokenType::And
    } else if s == "class"@ {
        TokenType::Class
    } else if s == "else"@ {
        TokenType::Else
    } else if s == "false"@ {
        TokenType::False
    } else if s == "for"@ {
        TokenType::For
    } else if s == "fun"@ {
        TokenType::Fun
    } else if s == "if"@ {
        TokenType::If
    } else if s == "nil"@ {
        TokenType::Nil
    } else if s == "or"@ {
        TokenType::Or
    } else if s == "print"@ {
        TokenType::Print
    } else if s == "return"@ {
        TokenType::Return
    } else if s == "super"@ {
        TokenType::Super
    } else if s == "this"@ {
        TokenType::This
    } else if s == "true"@ {
        TokenType::True
    } else if s == "var"@ {
        TokenType::Var
    } else if s == "while"@ {
        TokenType::While
    } else {
        TokenType::Identifier
    }
}

/// End of a number lexeme starting at `s`: a run of digits, then a `.` and a
/// second run only where a digit follows the `.`.
pub open spec fn number_end(src: Seq<char>, s: int) -> int {
    let i = run_end(src, s + 1, Run::Digits);
    if next_is(src, i, '.') && i + 1 < src.len() && is_digit_char(src[i + 1]) {
        run_end(src, i + 2, Run::Digits)
    } else {
        i
    }
}

/// The position just past the lexeme that starts at `s`.
pub open spec fn lexeme_end(src: Seq<char>, s: int) -> int {
    let c = src[s];
    if single_char_type(c) is Some {
        s + 1
    } else if pair_type(c, false) is Some {
        if next_is(src, s + 1, '=') {
            s + 2
        } else {
            s + 1
        }
    } else if c == '/' && next_is(src, s + 1, '/') {
        run_end(src, s + 2, Run::ToNewline)
    } else if c == '"' {
        let q = run_end(src, s + 1, Run::ToQuote);
        if q < src.len() {
            q + 1
        } else {
            q
        }
    } else if is_digit_char(c) {
        number_end(src, s)
    } else if is_alpha_char(c) {
        run_end(src, s + 1, Run::Word)
    } else {
        s + 1
    }
}

/// The category of the token that the lexeme at `s` yields, if it yields one.
pub open spec fn kind_at(src: Seq<char>, s: int) -> Option<TokenType> {
    let c = src[s];
    if single_char_type(c) is Some {
        single_char_type(c)
    } else if pair_type(c, false) is Some {
        pair_type(c, next_is(src, s + 1, '='))
    } else if c == '/' {
        if next_is(src, s + 1, '/') {
            None
        } else {
            Some(TokenType::Slash)
        }
    } else if c == '"' {
        if run_end(src, s + 1, Run::ToQuote) < src.len() {
            Some(TokenType::String)
        } else {
            None
        }
    } else if is_digit_char(c) {
        Some(TokenType::Number)
    } else if is_alpha_char(c) {
        Some(keyword_kind(src.subrange(s, lexeme_end(src, s))))
    } else {
        None
    }
}

/// The literal value carried by the token that the lexeme at `s` yields.
pub open spec fn literal_at(src: Seq<char>, s: int) -> LiteralView {
    let c = src[s];
    let e = lexeme_end(src, s);
    if c == '"' {
        LiteralView::String(src.subrange(s + 1, e - 1))
    } else if is_digit_char(c) {
        LiteralView::Number(src.subrange(s, e))
    } else if is_alpha_char(c) {
        LiteralView::Name(src.subrange(s, e))
    } else {
        LiteralView::Absent
    }
}

/// The token that the lexeme at `s` yields, if any.
pub open spec fn token_at(src: Seq<char>, s: int) -> Option<TokenView> {
    match kind_at(src, s) {
        Some(t) => Some(
            TokenView {
                token_type: t,
                lexeme: src.subrange(s, lexeme_end(src, s)),
                literal: literal_at(src, s),
                line: line_at(src, s),
            },
        ),
        None => None,
    }
}

/// The lexical error that the lexeme at `s` reports, if any.
pub open spec fn error_at(src: Seq<char>, s: int) -> Option<ReportView> {
    let c = src[s];
    if c == '"' && run_end(src, s + 1, Run::ToQuote) >= src.len() {
        Some(
            ReportView {
                line: line_at(src, src.len() as int),
                location: Seq::empty(),
                message: "Unterminated string."@,
            },
        )
    } else if single_char_type(c) is None && pair_type(c, false) is None && c != '/' && c != '"'
        && c != ' ' && c != '\r' && c != '\t' && c != '\n' && !is_alphanumeric_char(c) {
        Some(
            ReportView {
                line: line_at(src, s),
                location: Seq::empty(),
                message: "Unexpected character."@,
            },
        )
    } else {
        None
    }
}

/// The end-of-input marker for `src`: empty lexeme, on the line the text ends on.
pub open spec fn eof_token(src: Seq<char>) -> TokenView {
    TokenView {
        token_type: TokenType::Eof,
        lexeme: Seq::empty(),
        literal: LiteralView::Absent,
        line: line_at(src, src.len() as int),
    }
}

/// The empty sequence, or the one element that `o` holds.
pub open spec fn opt_seq<T>(o: Option<T>) -> Seq<T> {
    match o {
        Some(x) => seq![x],
        None => Seq::empty(),
    }
}

/// The tokens of `src` from position `s` on, ending with the end marker.
pub open spec fn tokens_from(src: Seq<char>, s: int) -> Seq<TokenView>
    decreases src.len() - s,
    via tokens_from_decreases
{
    if s < 0 || s >= src.len() {
        seq![eof_token(src)]
    } else {
        opt_seq(token_at(src, s)) + tokens_from(src, lexeme_end(src, s))
    }
}

/// The lexical errors reported while scanning `src` from position `s` on.
pub open spec fn errors_from(src: Seq<char>, s: int) -> Seq<ReportView>
    decreases src.len() - s,
    via errors_from_decreases
{
    if s < 0 || s >= src.len() {
        Seq::empty()
    } else {
        opt_seq(error_at(src, s)) + errors_from(src, lexeme_end(src, s))
    }
}

#[via_fn]
proof fn tokens_from_decreases(src: Seq<char>, s: int) {
    lemma_lexeme_end_advances(src, s);
}

#[via_fn]
proof fn errors_from_decreases(src: Seq<char>, s: int) {
    lemma_lexeme_end_advances(src, s);
}

/// The tokens of the whole text.
pub open spec fn scan(src: Seq<char>) -> Seq<TokenView> {
    tokens_from(src, 0)
}

/// The lexical errors of the whole text.
pub open spec fn scan_errors(src: Seq<char>) -> Seq<ReportView> {
    errors_from(src, 0)
}

pub proof fn lemma_run_end_bounds(src: Seq<char>, i: int, k: Run)
    ensures
        i <= run_end(src, i, k),
        0 <= i <= src.len() ==> run_end(src, i, k) <= src.len(),
        forall|j: int| i <= j < run_end(src, i, k) ==> in_run(#[trigger] src[j], k),
        0 <= i <= src.len() ==> (run_end(src, i, k) == src.len() || !in_run(src[run_end(src, i, k)], k)),
    decreases src.len() - i,
{
    if 0 <= i < src.len() && in_run(src[i], k) {
        lemma_run_end_bounds(src, i + 1, k);
    }
}

pub proof fn lemma_lexeme_end_advances(src: Seq<char>, s: int)
    ensures
        s < lexeme_end(src, s),
        0 <= s < src.len() ==> lexeme_end(src, s) <= src.len(),
{
    lemma_run_end_bounds(src, s + 1, Run::ToQuote);
    lemma_run_end_bounds(src, s + 2, Run::ToNewline);
    lemma_run_end_bounds(src, s + 1, Run::Word);
    lemma_run_end_bounds(src, s + 1, Run::Digits);
    let i = run_end(src, s + 1, Run::Digits);
    lemma_run_end_bounds(src, i + 2, Run::Digits);
}

} // verus!

verus! {

// ---------------------------------------------------------------------------
// The scanner.
// ---------------------------------------------------------------------------

/// The character at `i`, or `'\0'` past the end.
pub open spec fn char_at(src: Seq<char>, i: int) -> char {
    if 0 <= i < src.len() {
        src[i]
    } else {
        '\0'
    }
}

/// Scanning state: the source, the tokens so far, the start of the lexeme
/// being built, the read position and the current line.
pub struct Scanner {
    source: Vec<char>,
    tokens: Vec<Token>,
    start: usize,
    current: usize,
    line: usize,
}

impl Scanner {
    /// The source text being scanned.
    pub closed spec fn source_view(&self) -> Seq<char> {
        self.source@
    }

    /// The tokens produced so far.
    pub closed spec fn emitted(&self) -> Seq<TokenView> {
        views(self.tokens@)
    }

    /// The read position.
    pub closed spec fn position(&self) -> int {
        self.current as int
    }

    /// The cursors agree with the source: the read position lies within it,
    /// and the line counter is the line of the read position.
    pub closed spec fn wf(&self) -> bool {
        &&& self.source@.len() < usize::MAX
        &&& self.start <= self.current <= self.source@.len()
        &&& self.line == line_at(self.source@, self.current as int)
        &&& self.line <= self.current + 1
    }

    /// The state right after the first character of the lexeme at `start`
    /// was consumed.
    closed spec fn begun(&self) -> bool {
        &&& self.wf()
        &&& self.current == self.start + 1
        &&& self.line == line_at(self.source@, self.start as int)
    }

    /// `self` is `prev` after the whole lexeme at `prev.start` was scanned.
    closed spec fn scanned(&self, prev: Scanner) -> bool {
        let src = prev.source@;
        let s = prev.start as int;
        &&& self.wf()
        &&& self.source@ == src
        &&& self.start == prev.start
        &&& self.current == lexeme_end(src, s)
        &&& views(self.tokens@) == views(prev.tokens@) + opt_seq(token_at(src, s))
    }

    /// A scanner at the start of `source`, with no tokens yet.
    pub fn new(source: &String) -> (r: Scanner)
        requires
            source@.len() < usize::MAX,
        ensures
            r.wf(),
            r.source_view() == source@,
            r.emitted() == Seq::<TokenView>::empty(),
            r.position() == 0,
    {
        let chars = crate::text::to_chars(source.as_str());
        let r = Scanner { source: chars, tokens: Vec::new(), start: 0, current: 0, line: 1 };
        assert(views(r.tokens@) =~= Seq::<TokenView>::empty());
        r
    }

    fn is_at_end(&self) -> (r: bool)
        ensures
            r == (self.current >= self.source@.len()),
    {
        self.current >= self.source.len()
    }

    fn is_digit(&self, c: char) -> (r: bool)
        ensures
            r == is_digit_char(c),
    {
        c >= '0' && c <= '9'
    }

    fn is_alpha(&self, c: char) -> (r: bool)
        ensures
            r == is_alpha_char(c),
    {
        (c >= 'a' && c <= 'z') || (c >= 'A' && c <= 'Z') || c == '_'
    }

    fn is_alphanumeric(&self, c: char) -> (r: bool)
        ensures
            r == is_alphanumeric_char(c),
    {
        self.is_alpha(c) || self.is_digit(c)
    }

    /// Consumes the character at the read position and returns it.
    fn advanced(&mut self) -> (c: char)
        requires
            old(self).current < old(self).source@.len() < usize::MAX,
        ensures
            c == old(self).source@[old(self).current as int],
            final(self).current == old(self).current + 1,
            final(self).source == old(self).source,
            final(self).tokens == old(self).tokens,
            final(self).start == old(self).start,
            final(self).line == old(self).line,
    {
        let c = self.source[self.current];
        self.current = self.current + 1;
        c
    }

    /// Consumes the character at the read position when it is `expected`.
    fn match_char(&mut self, expected: char) -> (r: bool)
        requires
            old(self).current <= old(self).source@.len() < usize::MAX,
        ensures
            r == next_is(old(self).source@, old(self).current as int, expected),
            final(self).current == old(self).current + if r {
                1usize
            } else {
                0usize
            },
            final(self).source == old(self).source,
            final(self).tokens == old(self).tokens,
            final(self).start == old(self).start,
            final(self).line == old(self).line,
    {
        if self.is_at_end() {
            return false;
        }
        if self.source[self.current] != expected {
            return false;
        }
        self.current = self.current + 1;
        true
    }

    /// The character at the read position, without consuming it.
    fn peek(&self) -> (c: char)
        ensures
            c == char_at(self.source@, self.current as int),
    {
        if self.is_at_end() {
            return '\0';
        }
        self.source[self.current]
    }

    /// The character after the read position, without consuming anything.
    fn peek_next(&self) -> (c: char)
        requires
            self.current < usize::MAX,
        ensures
            c == char_at(self.source@, self.current + 1),
    {
        if self.current + 1 >= self.source.len() {
            return '\0';
        }
        self.source[self.current + 1]
    }

    /// Emits a token without a literal for the current lexeme.
    fn add_token(&mut self, token_type: TokenType)
        requires
            old(self).start <= old(self).current <= old(self).source@.len(),
        ensures
            views(final(self).tokens@) == views(old(self).tokens@).push(
                TokenView {
                    token_type,
                    lexeme: old(self).source@.subrange(
                        old(self).start as int,
                        old(self).current as int,
                    ),
                    literal: LiteralView::Absent,
                    line: old(self).line as nat,
                },
            ),
            final(self).source == old(self).source,
            final(self).start == old(self).start,
            final(self).current == old(self).current,
            final(self).line == old(self).line,
    {
        let line = self.line;
        self.add_token_literal(token_type, TokenLiteral::Absent, line);
    }

    /// Emits a token for the current lexeme with the given literal and line.
    fn add_token_literal(&mut self, token_type: TokenType, literal: TokenLiteral, line: usize)
        requires
            old(self).start <= old(self).current <= old(self).source@.len(),
        ensures
            views(final(self).tokens@) == views(old(self).tokens@).push(
                TokenView {
                    token_type,
                    lexeme: old(self).source@.subrange(
                        old(self).start as int,
                        old(self).current as int,
                    ),
                    literal: literal@,
                    line: line as nat,
                },
            ),
            final(self).source == old(self).source,
            final(self).start == old(self).start,
            final(self).current == old(self).current,
            final(self).line == old(self).line,
    {
        let text = crate::text::chars_to_string(&self.source, self.start, self.current);
        self.tokens.push(Token::new(token_type, text, literal, line));
        assert(views(self.tokens@) =~= views(old(self).tokens@).push(
            TokenView {
                token_type,
                lexeme: old(self).source@.subrange(
                    old(self).start as int,
                    old(self).current as int,
                ),
                literal: literal@,
                line: line as nat,
            },
        ));
    }

    /// The category of the current lexeme, taken as an identifier or keyword.
    fn keyword(&self) -> (r: TokenType)
        requires
            self.start <= self.current <= self.source@.len(),
        ensures
            r == keyword_kind(self.source@.subrange(self.start as int, self.current as int)),
    {
        let src = &self.source;
        let (s, e) = (self.start, self.current);
        if crate::text::chars_equal(src, s, e, "and") {
            TokenType::And
        } else if crate::text::chars_equal(src, s, e, "class") {
            TokenType::Class
        } else if crate::text::chars_equal(src, s, e, "else") {
            TokenType::Else
        } else if crate::text::chars_equal(src, s, e, "false") {
            TokenType::False
        } else if crate::text::chars_equal(src, s, e, "for") {
            TokenType::For
        } else if crate::text::chars_equal(src, s, e, "fun") {
            TokenType::Fun
        } else if crate::text::chars_equal(src, s, e, "if") {
            TokenType::If
        } else if crate::text::chars_equal(src, s, e, "nil") {
            TokenType::Nil
        } else if crate::text::chars_equal(src, s, e, "or") {
            TokenType::Or
        } else if crate::text::chars_equal(src, s, e, "print") {
            TokenType::Print
        } else if crate::text::chars_equal(src, s, e, "return") {
            TokenType::Return
        } else if crate::text::chars_equal(src, s, e, "super") {
            TokenType::Super
        } else if crate::text::chars_equal(src, s, e, "this") {
            TokenType::This
        } else if crate::text::chars_equal(src, s, e, "true") {
            TokenType::True
        } else if crate::text::chars_equal(src, s, e, "var") {
            TokenType::Var
        } else if crate::text::chars_equal(src, s, e, "while") {
            TokenType::While
        } else {
            TokenType::Identifier
        }
    }

    /// Scans the rest of an identifier or keyword whose first character was
    /// just consumed.
    fn identifier(&mut self)
        requires
            old(self).begun(),
            is_alpha_char(old(self).source@[old(self).start as int]),
        ensures
            final(self).scanned(*old(self)),
    {
        let ghost src = self.source@;
        let ghost s = self.start as int;
        while self.is_alphanumeric(self.peek())
            invariant
                self.source@ == src,
                self.tokens == old(self).tokens,
                self.start == old(self).start,
                self.line == old(self).line,
                s == self.start,
                self.start < self.current <= src.len() < usize::MAX,
                run_end(src, self.current as int, Run::Word) == run_end(src, s + 1, Run::Word),
                self.line == line_at(src, self.current as int),
            decreases src.len() - self.current,
        {
            self.advanced();
        }
        let token_type = self.keyword();
        let text = crate::text::chars_to_string(&self.source, self.start, self.current);
        let line = self.line;
        self.add_token_literal(token_type, TokenLiteral::Name(text), line);
        assert(views(self.tokens@) =~= views(old(self).tokens@) + opt_seq(token_at(src, s)));
    }

    /// Scans the rest of a number whose first digit was just consumed.
    fn number(&mut self)
        requires
            old(self).begun(),
            is_digit_char(old(self).source@[old(self).start as int]),
        ensures
            final(self).scanned(*old(self)),
    {
        let ghost src = self.source@;
        let ghost s = self.start as int;
        while self.is_digit(self.peek())
            invariant
                self.source@ == src,
                self.tokens == old(self).tokens,
                self.start == old(self).start,
                self.line == old(self).line,
                s == self.start,
                self.start < self.current <= src.len() < usize::MAX,
                run_end(src, self.current as int, Run::Digits) == run_end(
                    src,
                    s + 1,
                    Run::Digits,
                ),
                self.line == line_at(src, self.current as int),
            decreases src.len() - self.current,
        {
            self.advanced();
        }
        let ghost i = self.current as int;
        if self.peek() == '.' && self.is_digit(self.peek_next()) {
            self.advanced();
            while self.is_digit(self.peek())
                invariant
                    self.source@ == src,
                    self.tokens == old(self).tokens,
                    self.start == old(self).start,
                    self.line == old(self).line,
                    s == self.start,
                    self.start < self.current <= src.len() < usize::MAX,
                    i + 1 <= self.current,
                    run_end(src, self.current as int, Run::Digits) == run_end(
                        src,
                        i + 2,
                        Run::Digits,
                    ),
                    self.line == line_at(src, self.current as int),
                decreases src.len() - self.current,
            {
                self.advanced();
            }
        }
        let text = crate::text::chars_to_string(&self.source, self.start, self.current);
        let line = self.line;
        self.add_token_literal(TokenType::Number, TokenLiteral::Number(text), line);
        assert(views(self.tokens@) =~= views(old(self).tokens@) + opt_seq(token_at(src, s)));
    }

    /// Scans the rest of a string literal whose opening quote was just
    /// consumed; reports an error when the text ends before the closing quote.
    fn string(&mut self, lox: &mut Lox)
        requires
            old(self).begun(),
            old(self).source@[old(self).start as int] == '"',
        ensures
            final(self).scanned(*old(self)),
            report_views(final(lox).reports@) == report_views(old(lox).reports@) + opt_seq(
                error_at(old(self).source@, old(self).start as int),
            ),
            final(lox).had_error == (old(lox).had_error || error_at(
                old(self).source@,
                old(self).start as int,
            ) is Some),
    {
        let ghost src = self.source@;
        let ghost s = self.start as int;
        let start_line = self.line;
        while self.peek() != '"' && !self.is_at_end()
            invariant
                self.source@ == src,
                self.tokens == old(self).tokens,
                self.start == old(self).start,
                s == self.start,
                start_line == line_at(src, s),
                self.start < self.current <= src.len() < usize::MAX,
                run_end(src, self.current as int, Run::ToQuote) == run_end(
                    src,
                    s + 1,
                    Run::ToQuote,
                ),
                self.line == line_at(src, self.current as int),
                self.line <= self.current + 1,
            decreases src.len() - self.current,
        {
            if self.peek() == '\n' {
                self.line = self.line + 1;
            }
            self.advanced();
        }
        if self.is_at_end() {
            lox.error(self.line, "Unterminated string.");
            assert(views(self.tokens@) =~= views(old(self).tokens@) + opt_seq(
                token_at(src, s),
            ));
            return;
        }
        self.advanced();
        let value = crate::text::chars_to_string(&self.source, self.start + 1, self.current - 1);
        self.add_token_literal(TokenType::String, TokenLiteral::String(value), start_line);
        assert(views(self.tokens@) =~= views(old(self).tokens@) + opt_seq(token_at(src, s)));
        assert(report_views(lox.reports@) =~= report_views(old(lox).reports@) + opt_seq(
            error_at(src, s),
        ));
    }

    /// Scans the lexeme at the read position: emits its token, skips it, or
    /// reports it, and moves the read position past it.
    pub fn scan_token(&mut self, lox: &mut Lox)
        requires
            old(self).wf(),
            old(self).position() < old(self).source_view().len(),
        ensures
            final(self).wf(),
            final(self).source_view() == old(self).source_view(),
            final(self).position() == lexeme_end(old(self).source_view(), old(self).position()),
            final(self).emitted() == old(self).emitted() + opt_seq(
                token_at(old(self).source_view(), old(self).position()),
            ),
            report_views(final(lox).reports@) == report_views(old(lox).reports@) + opt_seq(
                error_at(old(self).source_view(), old(self).position()),
            ),
            final(lox).had_error == (old(lox).had_error || error_at(
                old(self).source_view(),
                old(self).position(),
            ) is Some),
    {
        let ghost src = self.source@;
        let ghost s = self.current as int;
        self.start = self.current;
        let c = self.advanced();
        let ghost begun = *self;
        assert(newlines_before(src, s + 1) == newlines_before(src, s) + if src[s] == '\n' {
            1nat
        } else {
            0nat
        });
        assert(newlines_before(src, s + 2) == newlines_before(src, s + 1) + if src[s + 1]
            == '\n' {
            1nat
        } else {
            0nat
        });
        match c {
            '(' => self.add_token(TokenType::LeftParen),
            ')' => self.add_token(TokenType::RightParen),
            '{' => self.add_token(TokenType::LeftBrace),
            '}' => self.add_token(TokenType::RightBrace),
            ',' => self.add_token(TokenType::Comma),
            '.' => self.add_token(TokenType::Dot),
            '-' => self.add_token(TokenType::Minus),
            '+' => self.add_token(TokenType::Plus),
            ';' => self.add_token(TokenType::Semicolon),
            '*' => self.add_token(TokenType::Star),
            '!' => {
                let token_type = if self.match_char('=') {
                    TokenType::BangEqual
                } else {
                    TokenType::Bang
                };
                self.add_token(token_type);
            },
            '=' => {
                let token_type = if self.match_char('=') {
                    TokenType::EqualEqual
                } else {
                    TokenType::Equal
                };
                self.add_token(token_type);
            },
            '<' => {
                let token_type = if self.match_char('=') {
                    TokenType::LessEqual
                } else {
                    TokenType::Less
                };
                self.add_token(token_type);
            },
            '>' => {
                let token_type = if self.match_char('=') {
                    TokenType::GreaterEqual
                } else {
                    TokenType::Greater
                };
                self.add_token(token_type);
            },
            '/' => {
                if self.match_char('/') {
                    // A comment runs to the end of the line.
                    while self.peek() != '\n' && !self.is_at_end()
                        invariant
                            self.source@ == src,
                            self.tokens == begun.tokens,
                            self.start == begun.start,
                            self.line == begun.line,
                            s + 2 <= self.current <= src.len() < usize::MAX,
                            run_end(src, self.current as int, Run::ToNewline) == run_end(
                                src,
                                s + 2,
                                Run::ToNewline,
                            ),
                            self.line == line_at(src, self.current as int),
                        decreases src.len() - self.current,
                    {
                        self.advanced();
                    }
                } else {
                    self.add_token(TokenType::Slash);
                }
            },
            ' ' | '\r' | '\t' => {},
            '\n' => {
                self.line = self.line + 1;
            },
            '"' => {
                self.string(lox);
            },
            _ => {
                if self.is_digit(c) {
                    self.number();
                } else if self.is_alpha(c) {
                    self.identifier();
                } else {
                    lox.error(self.line, "Unexpected character.");
                }
            },
        }
        assert(views(self.tokens@) =~= views(old(self).tokens@) + opt_seq(token_at(src, s)));
        assert(report_views(lox.reports@) =~= report_views(old(lox).reports@) + opt_seq(
            error_at(src, s),
        ));
    }

    /// Scans from the read position to the end of the source, then appends
    /// the end-of-input token; returns every token produced so far.
    pub fn scan_tokens(&mut self, lox: &mut Lox) -> (r: &Vec<Token>)
        requires
            old(self).wf(),
        ensures
            final(self).wf(),
            final(self).source_view() == old(self).source_view(),
            final(self).position() == old(self).source_view().len(),
            final(self).emitted() == old(self).emitted() + tokens_from(
                old(self).source_view(),
                old(self).position(),
            ),
            views(r@) == final(self).emitted(),
            report_views(final(lox).reports@) == report_views(old(lox).reports@) + errors_from(
                old(self).source_view(),
                old(self).position(),
            ),
            final(lox).had_error == (old(lox).had_error || errors_from(
                old(self).source_view(),
                old(self).position(),
            ).len() > 0),
    {
        let ghost src = self.source@;
        let ghost p0 = self.current as int;
        while !self.is_at_end()
            invariant
                self.wf(),
                self.source@ == src,
                p0 <= self.current,
                old(self).emitted() + tokens_from(src, p0) == self.emitted() + tokens_from(
                    src,
                    self.current as int,
                ),
                report_views(old(lox).reports@) + errors_from(src, p0) == report_views(
                    lox.reports@,
                ) + errors_from(src, self.current as int),
                (old(lox).had_error || errors_from(src, p0).len() > 0) == (lox.had_error
                    || errors_from(src, self.current as int).len() > 0),
            decreases src.len() - self.current,
        {
            let ghost cur = self.current as int;
            let ghost before = self.emitted();
            let ghost reports_before = report_views(lox.reports@);
            self.scan_token(lox);
            proof {
                lemma_lexeme_end_advances(src, cur);
            }
            assert(tokens_from(src, cur) == opt_seq(token_at(src, cur)) + tokens_from(
                src,
                lexeme_end(src, cur),
            ));
            assert(before + tokens_from(src, cur) =~= self.emitted() + tokens_from(
                src,
                self.current as int,
            ));
            assert(errors_from(src, cur) == opt_seq(error_at(src, cur)) + errors_from(
                src,
                lexeme_end(src, cur),
            ));
            assert(reports_before + errors_from(src, cur) =~= report_views(lox.reports@)
                + errors_from(src, self.current as int));
        }
        let line = self.line;
        self.tokens.push(Token::new(TokenType::Eof, String::new(), TokenLiteral::Absent, line));
        assert(self.emitted() =~= old(self).emitted() + tokens_from(src, p0));
        &self.tokens
    }

    /// Gives up the scanner and hands over its tokens.
    pub fn into_tokens(self) -> (r: Vec<Token>)
        ensures
            views(r@) == self.emitted(),
    {
        self.tokens
    }
}

} // verus!
