//! The scanner: source text to tokens.
use vstd::prelude::*;
use crate::lox::{error, report_text};
use crate::string::text_eq;
use crate::token::{token_views, Token, TokenView};
use crate::token_type::{TokenType, KIND_NUMBER, KIND_STRING};

verus! {

pub open spec fn is_digit_char(c: char) -> bool {
    '0' <= c && c <= '9'
}

pub open spec fn is_alpha_char(c: char) -> bool {
    ('a' <= c && c <= 'z') || ('A' <= c && c <= 'Z') || c == '_'
}

pub open spec fn is_alpha_numeric_char(c: char) -> bool {
    is_alpha_char(c) || is_digit_char(c)
}

/// The number of newlines among the first `pos` characters.
pub open spec fn newlines_before(chars: Seq<char>, pos: int) -> nat
    decreases pos,
{
    if pos <= 0 {
        0
    } else {
        newlines_before(chars, pos - 1) + if chars[pos - 1] == '\n' {
            1nat
        } else {
            0nat
        }
    }
}

/// The line on which the character at `pos` stands, counted from 1.
pub open spec fn line_at(chars: Seq<char>, pos: int) -> nat {
    1 + newlines_before(chars, pos)
}

/// The end of the run of digits that starts at `from`.
pub open spec fn digits_end(chars: Seq<char>, from: int) -> int
    decreases chars.len() - from,
{
    if 0 <= from < chars.len() && is_digit_char(chars[from]) {
        digits_end(chars, from + 1)
    } else {
        from
    }
}

/// The end of the run of letters, digits and underscores that starts at `from`.
pub open spec fn word_end(chars: Seq<char>, from: int) -> int
    decreases chars.len() - from,
{
    if 0 <= from < chars.len() && is_alpha_numeric_char(chars[from]) {
        word_end(chars, from + 1)
    } else {
        from
    }
}

/// The position of the next newline at or after `from`, or the end of the
/// text.
pub open spec fn line_end(chars: Seq<char>, from: int) -> int
    decreases chars.len() - from,
{
    if 0 <= from < chars.len() && chars[from] != '\n' {
        line_end(chars, from + 1)
    } else {
        from
    }
}

/// The position of the next double quote at or after `from`, or the end of
/// the text.
pub open spec fn quote_at(chars: Seq<char>, from: int) -> int
    decreases chars.len() - from,
{
    if 0 <= from < chars.len() && chars[from] != '"' {
        quote_at(chars, from + 1)
    } else {
        from
    }
}

/// The end of the number literal that starts at `from`: digits, and a
/// fraction if a dot is followed by a digit.
pub open spec fn number_end(chars: Seq<char>, from: int) -> int {
    let whole = digits_end(chars, from);
    if whole + 1 < chars.len() && chars[whole] == '.' && is_digit_char(chars[whole + 1]) {
        digits_end(chars, whole + 1)
    } else {
        whole
    }
}

/// The reserved word that `text` spells, if it spells one.
pub open spec fn keyword_of(text: Seq<char>) -> Option<TokenType> {
    if text == "and"@ {
        Some(TokenType::And)
    } else if text == "class"@ {
        Some(TokenType::Class)
    } else if text == "else"@ {
        Some(TokenType::Else)
    } else if text == "false"@ {
        Some(TokenType::False)
    } else if text == "for"@ {
        Some(TokenType::For)
    } else if text == "fun"@ {
        Some(TokenType::Fun)
    } else if text == "if"@ {
        Some(TokenType::If)
    } else if text == "nil"@ {
        Some(TokenType::Nil)
    } else if text == "or"@ {
        Some(TokenType::Or)
    } else if text == "print"@ {
        Some(TokenType::Print)
    } else if text == "return"@ {
        Some(TokenType::Return)
    } else if text == "super"@ {
        Some(TokenType::Super)
    } else if text == "this"@ {
        Some(TokenType::This)
    } else if text == "true"@ {
        Some(TokenType::True)
    } else if text == "var"@ {
        Some(TokenType::Var)
    } else if text == "while"@ {
        Some(TokenType::While)
    } else {
        None
    }
}

/// The reserved word that `text` spells, if it spells one.
pub fn keyword(text: &str) -> (r: Option<TokenType>)
    ensures
        r == keyword_of(text@),
{
    if text_eq(text, "and") {
        Some(TokenType::And)
    } else if text_eq(text, "class") {
        Some(TokenType::Class)
    } else if text_eq(text, "else") {
        Some(TokenType::Else)
    } else if text_eq(text, "false") {
        Some(TokenType::False)
    } else if text_eq(text, "for") {
        Some(TokenType::For)
    } else if text_eq(text, "fun") {
        Some(TokenType::Fun)
    } else if text_eq(text, "if") {
        Some(TokenType::If)
    } else if text_eq(text, "nil") {
        Some(TokenType::Nil)
    } else if text_eq(text, "or") {
        Some(TokenType::Or)
    } else if text_eq(text, "print") {
        Some(TokenType::Print)
    } else if text_eq(text, "return") {
        Some(TokenType::Return)
    } else if text_eq(text, "super") {
        Some(TokenType::Super)
    } else if text_eq(text, "this") {
        Some(TokenType::This)
    } else if text_eq(text, "true") {
        Some(TokenType::True)
    } else if text_eq(text, "var") {
        Some(TokenType::Var)
    } else if text_eq(text, "while") {
        Some(TokenType::While)
    } else {
        None
    }
}

/// What one scanning step finds at a position: where it ends, the token it
/// yields if any (kind and literal payload), and the message of the error it
/// reports if any.
pub struct ScanStep {
    pub end: int,
    pub kind: Option<nat>,
    pub payload: Seq<char>,
    pub error: Option<Seq<char>>,
}

pub open spec fn step_token(end: int, token_type: TokenType) -> ScanStep {
    ScanStep { end, kind: Some(token_type.kind()), payload: Seq::empty(), error: None }
}

pub open spec fn step_skip(end: int) -> ScanStep {
    ScanStep { end, kind: None, payload: Seq::empty(), error: None }
}

/// One or two characters: `two` if the next character is `=`, else `one`.
pub open spec fn step_pair(chars: Seq<char>, pos: int, one: TokenType, two: TokenType) -> ScanStep {
    if pos + 1 < chars.len() && chars[pos + 1] == '=' {
        step_token(pos + 2, two)
    } else {
        step_token(pos + 1, one)
    }
}

/// The scanning step at `pos`.
pub open spec fn step_at(chars: Seq<char>, pos: int) -> ScanStep
    recommends
        0 <= pos < chars.len(),
{
    let c = chars[pos];
    if c == '(' {
        step_token(pos + 1, TokenType::LeftParen)
    } else if c == ')' {
        step_token(pos + 1, TokenType::RightParen)
    } else if c == '{' {
        step_token(pos + 1, TokenType::LeftBrace)
    } else if c == '}' {
        step_token(pos + 1, TokenType::RightBrace)
    } else if c == ',' {
        step_token(pos + 1, TokenType::Comma)
    } else if c == '.' {
        step_token(pos + 1, TokenType::Dot)
    } else if c == '-' {
        step_token(pos + 1, TokenType::Minus)
    } else if c == '+' {
        step_token(pos + 1, TokenType::Plus)
    } else if c == ';' {
        step_token(pos + 1, TokenType::Semicolon)
    } else if c == '*' {
        step_token(pos + 1, TokenType::Star)
    } else if c == '!' {
        step_pair(chars, pos, TokenType::Bang, TokenType::BangEqual)
    } else if c == '=' {
        step_pair(chars, pos, TokenType::Equal, TokenType::EqualEqual)
    } else if c == '<' {
        step_pair(chars, pos, TokenType::Less, TokenType::LessEqual)
    } else if c == '>' {
        step_pair(chars, pos, TokenType::Greater, TokenType::GreaterEqual)
    } else if c == '/' {
        if pos + 1 < chars.len() && chars[pos + 1] == '/' {
            step_skip(line_end(chars, pos + 2))
        } else {
            step_token(pos + 1, TokenType::Slash)
        }
    } else if c == ' ' || c == '\r' || c == '\t' || c == '\n' {
        step_skip(pos + 1)
    } else if c == '"' {
        let close = quote_at(chars, pos + 1);
        if close >= chars.len() {
            ScanStep {
                end: chars.len() as int,
                kind: None,
                payload: Seq::empty(),
                error: Some("Unterminated string."@),
            }
        } else {
            ScanStep {
                end: close + 1,
                kind: Some(KIND_STRING as nat),
                payload: chars.subrange(pos + 1, close),
                error: None,
            }
        }
    } else if is_digit_char(c) {
        let end = number_end(chars, pos);
        ScanStep {
            end,
            kind: Some(KIND_NUMBER as nat),
            payload: chars.subrange(pos, end),
            error: None,
        }
    } else if is_alpha_char(c) {
        let end = word_end(chars, pos + 1);
        match keyword_of(chars.subrange(pos, end)) {
            Some(t) => step_token(end, t),
            None => step_token(end, TokenType::Identifier),
        }
    } else {
        ScanStep {
            end: pos + 1,
            kind: None,
            payload: Seq::empty(),
            error: Some("Unexpected character."@),
        }
    }
}

/// The tokens of a step: one, with the lexeme between `pos` and the step's
/// end and the line of the step's end, or none.
pub open spec fn step_tokens(chars: Seq<char>, pos: int) -> Seq<TokenView> {
    let step = step_at(chars, pos);
    match step.kind {
        Some(kind) => seq![
            TokenView {
                kind,
                payload: step.payload,
                lexeme: chars.subrange(pos, step.end),
                line: line_at(chars, step.end),
            },
        ],
        None => Seq::empty(),
    }
}

/// The diagnostics of a step: one line, or none.
pub open spec fn step_errors(chars: Seq<char>, pos: int) -> Seq<Seq<char>> {
    let step = step_at(chars, pos);
    match step.error {
        Some(message) => seq![report_text(line_at(chars, step.end), Seq::empty(), message)],
        None => Seq::empty(),
    }
}

/// The tokens of the text from `pos` on, without the final `EOF`.
pub open spec fn tokens_from(chars: Seq<char>, pos: int) -> Seq<TokenView>
    decreases chars.len() - pos,
{
    if 0 <= pos < chars.len() && pos < step_at(chars, pos).end <= chars.len() {
        step_tokens(chars, pos) + tokens_from(chars, step_at(chars, pos).end)
    } else {
        Seq::empty()
    }
}

/// The diagnostics of the text from `pos` on.
pub open spec fn errors_from(chars: Seq<char>, pos: int) -> Seq<Seq<char>>
    decreases chars.len() - pos,
{
    if 0 <= pos < chars.len() && pos < step_at(chars, pos).end <= chars.len() {
        step_errors(chars, pos) + errors_from(chars, step_at(chars, pos).end)
    } else {
        Seq::empty()
    }
}

/// The `EOF` token that ends the tokens of a text.
pub open spec fn eof_token(chars: Seq<char>) -> TokenView {
    TokenView {
        kind: TokenType::EOF.kind(),
        payload: Seq::empty(),
        lexeme: Seq::empty(),
        line: line_at(chars, chars.len() as int),
    }
}

/// All tokens of a text, the final `EOF` included.
pub open spec fn scanned_tokens(chars: Seq<char>) -> Seq<TokenView> {
    tokens_from(chars, 0).push(eof_token(chars))
}

/// All diagnostics of a text, in the order of the text.
pub open spec fn scanned_errors(chars: Seq<char>) -> Seq<Seq<char>> {
    errors_from(chars, 0)
}

pub proof fn lemma_newlines_bounded(chars: Seq<char>, pos: int)
    requires
        0 <= pos,
    ensures
        newlines_before(chars, pos) <= pos,
    decreases pos,
{
    if pos > 0 {
        lemma_newlines_bounded(chars, pos - 1);
    }
}

pub proof fn lemma_runs_bounded(chars: Seq<char>, from: int)
    requires
        0 <= from <= chars.len(),
    ensures
        from <= digits_end(chars, from) <= chars.len(),
        from <= word_end(chars, from) <= chars.len(),
        from <= line_end(chars, from) <= chars.len(),
        from <= quote_at(chars, from) <= chars.len(),
    decreases chars.len() - from,
{
    if from < chars.len() {
        lemma_runs_bounded(chars, from + 1);
    }
}

/// Every step consumes at least one character and stays inside the text.
pub proof fn lemma_step_advances(chars: Seq<char>, pos: int)
    requires
        0 <= pos < chars.len(),
    ensures
        pos < step_at(chars, pos).end <= chars.len(),
{
    lemma_runs_bounded(chars, pos + 1);
    if pos + 2 <= chars.len() {
        lemma_runs_bounded(chars, pos + 2);
    }
    let whole = digits_end(chars, pos);
    if is_digit_char(chars[pos]) {
        assert(whole == digits_end(chars, pos + 1));
        if whole + 1 < chars.len() {
            lemma_runs_bounded(chars, whole + 1);
        }
    }
}

/// The scanner's state: the text, the tokens and diagnostics so far, the
/// start of the token being read, the position of the next character, and
/// the current line.
pub struct Scanner {
    source: String,
    source_chars: Vec<char>,
    tokens: Vec<Token>,
    errors: Vec<String>,
    start: usize,
    current: usize,
    line: usize,
}

impl Scanner {
    /// The text being scanned.
    pub closed spec fn text(&self) -> Seq<char> {
        self.source_chars@
    }

    /// The position of the next character to read.
    pub closed spec fn position(&self) -> int {
        self.current as int
    }

    /// The views of the tokens found so far.
    pub closed spec fn found(&self) -> Seq<TokenView> {
        token_views(self.tokens@)
    }

    /// The diagnostics reported so far.
    pub closed spec fn reported(&self) -> Seq<Seq<char>> {
        self.errors.deep_view()
    }

    /// The state is consistent: the positions lie in the text and the line
    /// is that of the next character.
    pub closed spec fn wf(&self) -> bool {
        &&& self.shaped()
        &&& self.line == line_at(self.source_chars@, self.current as int)
    }

    /// The positions lie in the text.
    spec fn shaped(&self) -> bool {
        &&& self.source@ == self.source_chars@
        &&& self.source_chars@.len() < usize::MAX
        &&& self.start <= self.current <= self.source_chars@.len()
    }

    /// Nothing but the position differs between two states.
    spec fn moved_from(&self, before: &Scanner) -> bool {
        &&& self.start == before.start
        &&& self.line == before.line
        &&& self.source == before.source
        &&& self.source_chars == before.source_chars
        &&& self.tokens == before.tokens
        &&& self.errors == before.errors
    }

    /// A scanner at the start of `source`.
    pub fn new(source: String) -> (r: Self)
        requires
            source@.len() < usize::MAX,
        ensures
            r.wf(),
            r.text() == source@,
            r.position() == 0,
            r.found() == Seq::<TokenView>::empty(),
            r.reported() == Seq::<Seq<char>>::empty(),
    {
        let mut source_chars: Vec<char> = Vec::new();
        let n: usize = source.as_str().unicode_len();
        let mut i: usize = 0;
        while i < n
            invariant
                n == source@.len(),
                i <= n,
                source_chars@ == source@.subrange(0, i as int),
            decreases n - i,
        {
            let c = source.as_str().get_char(i);
            source_chars.push(c);
            i = i + 1;
        }
        assert(source_chars@ =~= source@);
        let r = Scanner {
            source,
            source_chars,
            tokens: Vec::new(),
            errors: Vec::new(),
            start: 0,
            current: 0,
            line: 1,
        };
        assert(r.found() =~= Seq::<TokenView>::empty());
        assert(r.reported() =~= Seq::<Seq<char>>::empty());
        r
    }

    /// Scans the whole text: the tokens, ending in `EOF`, and the diagnostics.
    pub fn scan_tokens(self) -> (r: (Vec<Token>, Vec<String>))
        requires
            self.wf(),
        ensures
            token_views(r.0@) == (self.found() + tokens_from(self.text(), self.position())).push(
                eof_token(self.text()),
            ),
            r.1.deep_view() == self.reported() + errors_from(self.text(), self.position()),
            self.position() == 0 && self.found().len() == 0 && self.reported().len() == 0 ==> {
                &&& token_views(r.0@) == scanned_tokens(self.text())
                &&& r.1.deep_view() == scanned_errors(self.text())
            },
    {
        let mut scanner = self;
        let ghost chars = self.source_chars@;
        while !scanner.is_at_end()
            invariant
                scanner.wf(),
                scanner.source_chars@ == chars,
                self.source_chars@ == chars,
                scanner.found() + tokens_from(chars, scanner.current as int) == self.found()
                    + tokens_from(chars, self.current as int),
                scanner.reported() + errors_from(chars, scanner.current as int) == self.reported()
                    + errors_from(chars, self.current as int),
            decreases chars.len() - scanner.current,
        {
            let ghost pos = scanner.current as int;
            let ghost found = scanner.found();
            let ghost reported = scanner.reported();
            scanner.start = scanner.current;
            scanner.scan_token();
            proof {
                assert((found + step_tokens(chars, pos)) + tokens_from(
                    chars,
                    scanner.current as int,
                ) =~= found + (step_tokens(chars, pos) + tokens_from(chars, scanner.current as int)));
                assert((reported + step_errors(chars, pos)) + errors_from(
                    chars,
                    scanner.current as int,
                ) =~= reported + (step_errors(chars, pos) + errors_from(
                    chars,
                    scanner.current as int,
                )));
            }
        }
        let ghost found = scanner.found();
        scanner.start = scanner.current;
        scanner.add_token(TokenType::EOF);
        proof {
            assert(tokens_from(chars, scanner.current as int) =~= Seq::<TokenView>::empty());
            assert(errors_from(chars, scanner.current as int) =~= Seq::<Seq<char>>::empty());
            assert(chars.subrange(scanner.current as int, scanner.current as int)
                =~= Seq::<char>::empty());
            assert(found + tokens_from(chars, scanner.current as int) =~= found);
            assert(scanner.reported() + errors_from(chars, scanner.current as int)
                =~= scanner.reported());
        }
        proof {
            if self.found().len() == 0 {
                assert(self.found() + tokens_from(chars, self.current as int) =~= tokens_from(
                    chars,
                    self.current as int,
                ));
            }
            if self.reported().len() == 0 {
                assert(self.reported() + errors_from(chars, self.current as int) =~= errors_from(
                    chars,
                    self.current as int,
                ));
            }
        }
        (scanner.tokens, scanner.errors)
    }

    /// Scans one token, comment or blank starting at the current position.
    fn scan_token(&mut self)
        requires
            old(self).wf(),
            old(self).start == old(self).current,
            old(self).current < old(self).source_chars@.len(),
        ensures
            final(self).wf(),
            final(self).source_chars == old(self).source_chars,
            final(self).current == step_at(old(self).source_chars@, old(self).current as int).end,
            final(self).current > old(self).current,
            final(self).found() == old(self).found() + step_tokens(
                old(self).source_chars@,
                old(self).current as int,
            ),
            final(self).reported() == old(self).reported() + step_errors(
                old(self).source_chars@,
                old(self).current as int,
            ),
    {
        let ghost chars = self.source_chars@;
        let ghost pos = self.current as int;
        proof {
            lemma_newlines_bounded(chars, pos);
            lemma_step_advances(chars, pos);
        }
        let c = self.advance();
        if c == '\n' {
            self.line += 1;
        }
        let token_type = match c {
            '(' => Some(TokenType::LeftParen),
            ')' => Some(TokenType::RightParen),
            '{' => Some(TokenType::LeftBrace),
            '}' => Some(TokenType::RightBrace),
            ',' => Some(TokenType::Comma),
            '.' => Some(TokenType::Dot),
            '-' => Some(TokenType::Minus),
            '+' => Some(TokenType::Plus),
            ';' => Some(TokenType::Semicolon),
            '*' => Some(TokenType::Star),
            '!' => Some(
                if self.match_next('=') {
                    TokenType::BangEqual
                } else {
                    TokenType::Bang
                },
            ),
            '=' => Some(
                if self.match_next('=') {
                    TokenType::EqualEqual
                } else {
                    TokenType::Equal
                },
            ),
            '<' => Some(
                if self.match_next('=') {
                    TokenType::LessEqual
                } else {
                    TokenType::Less
                },
            ),
            '>' => Some(
                if self.match_next('=') {
                    TokenType::GreaterEqual
                } else {
                    TokenType::Greater
                },
            ),
            '/' => {
                if self.match_next('/') {
                    self.comment();
                    None
                } else {
                    Some(TokenType::Slash)
                }
            },
            ' ' | '\r' | '\t' | '\n' => None,
            '"' => self.string(),
            _ => {
                if self.is_digit(c) {
                    Some(self.number())
                } else if self.is_alpha(c) {
                    Some(self.identifier())
                } else {
                    self.add_error("Unexpected character.");
                    None
                }
            },
        };
        if let Some(token_type) = token_type {
            self.add_token(token_type);
        }
        proof {
            assert(old(self).found() + step_tokens(chars, pos) =~= self.found());
            assert(old(self).reported() + step_errors(chars, pos) =~= self.reported());
        }
    }

    /// Reads the rest of a comment, up to the end of its line.
    fn comment(&mut self)
        requires
            old(self).wf(),
        ensures
            final(self).wf(),
            final(self).current == line_end(old(self).source_chars@, old(self).current as int),
            final(self).moved_from(old(self)),
    {
        let ghost chars = self.source_chars@;
        let ghost first = self.current as int;
        loop
            invariant
                self.wf(),
                self.moved_from(old(self)),
                self.source_chars@ == chars,
                first <= self.current,
                line_end(chars, self.current as int) == line_end(chars, first),
            ensures
                self.current == line_end(chars, first),
            decreases chars.len() - self.current,
        {
            match self.peek() {
                None => break,
                Some(c) => {
                    if c == '\n' {
                        break;
                    }
                    self.advance();
                },
            }
        }
    }

    fn is_alpha(&self, c: char) -> (r: bool)
        ensures
            r == is_alpha_char(c),
    {
        (c >= 'a' && c <= 'z') || (c >= 'A' && c <= 'Z') || c == '_'
    }

    fn is_digit(&self, c: char) -> (r: bool)
        ensures
            r == is_digit_char(c),
    {
        c >= '0' && c <= '9'
    }

    fn is_alpha_numeric(&self, c: char) -> (r: bool)
        ensures
            r == is_alpha_numeric_char(c),
    {
        self.is_alpha(c) || self.is_digit(c)
    }

    fn is_at_end(&self) -> (r: bool)
        ensures
            r == (self.current >= self.source_chars@.len()),
    {
        self.current >= self.source_chars.len()
    }

    fn peek(&self) -> (r: Option<char>)
        ensures
            r == if self.current < self.source_chars@.len() {
                Some(self.source_chars@[self.current as int])
            } else {
                None
            },
    {
        if self.is_at_end() {
            return None;
        }
        Some(self.source_chars[self.current])
    }

    fn peek_next(&self) -> (r: Option<char>)
        requires
            self.wf(),
        ensures
            r == if self.current + 1 < self.source_chars@.len() {
                Some(self.source_chars@[self.current + 1])
            } else {
                None
            },
    {
        if self.current + 1 >= self.source_chars.len() {
            return None;
        }
        Some(self.source_chars[self.current + 1])
    }

    /// Reads the next character.  The line is left as it is: the caller
    /// counts a newline.
    fn advance(&mut self) -> (c: char)
        requires
            old(self).shaped(),
            old(self).current < old(self).source_chars@.len(),
        ensures
            final(self).shaped(),
            c == old(self).source_chars@[old(self).current as int],
            final(self).current == old(self).current + 1,
            final(self).moved_from(old(self)),
            old(self).wf() && c != '\n' ==> final(self).wf(),
    {
        let c = self.source_chars[self.current];
        self.current += 1;
        c
    }

    fn match_next(&mut self, expected: char) -> (r: bool)
        requires
            old(self).wf(),
            expected != '\n',
        ensures
            final(self).wf(),
            r == (old(self).current < old(self).source_chars@.len() && old(
                self,
            ).source_chars@[old(self).current as int] == expected),
            final(self).current == if r {
                old(self).current + 1
            } else {
                old(self).current as int
            },
            final(self).moved_from(old(self)),
    {
        if self.is_at_end() {
            return false;
        }
        if self.source_chars[self.current] != expected {
            return false;
        }
        self.current += 1;
        true
    }

    /// Appends a token of the given kind whose lexeme runs from the start of
    /// the token being read to the current position.
    fn add_token(&mut self, token_type: TokenType)
        requires
            old(self).wf(),
        ensures
            final(self).wf(),
            final(self).current == old(self).current,
            final(self).start == old(self).start,
            final(self).source == old(self).source,
            final(self).source_chars == old(self).source_chars,
            final(self).errors == old(self).errors,
            final(self).found() == old(self).found().push(
                TokenView {
                    kind: token_type.kind(),
                    payload: token_type.payload(),
                    lexeme: old(self).source_chars@.subrange(
                        old(self).start as int,
                        old(self).current as int,
                    ),
                    line: old(self).line as nat,
                },
            ),
    {
        let text = self.source.as_str().substring_char(self.start, self.current);
        let token = Token { token_type, lexeme: String::from_str(text), line: self.line };
        self.tokens.push(token);
        assert(final(self).found() =~= old(self).found().push(token@));
    }

    /// Appends a diagnostic for the current line.
    fn add_error(&mut self, message: &str)
        requires
            old(self).wf(),
        ensures
            final(self).wf(),
            final(self).current == old(self).current,
            final(self).start == old(self).start,
            final(self).source == old(self).source,
            final(self).source_chars == old(self).source_chars,
            final(self).tokens == old(self).tokens,
            final(self).reported() == old(self).reported().push(
                report_text(old(self).line as nat, Seq::empty(), message@),
            ),
    {
        let line = error(self.line, message);
        self.errors.push(line);
        assert(final(self).reported() =~= old(self).reported().push(line@));
    }

    /// Reads a string literal whose opening quote has been read.  Without a
    /// closing quote it reads to the end of the text and reports the error.
    fn string(&mut self) -> (r: Option<TokenType>)
        requires
            old(self).wf(),
            old(self).start + 1 == old(self).current,
        ensures
            final(self).wf(),
            final(self).start == old(self).start,
            final(self).source == old(self).source,
            final(self).source_chars == old(self).source_chars,
            final(self).tokens == old(self).tokens,
            ({
                let chars = old(self).source_chars@;
                let close = quote_at(chars, old(self).current as int);
                if close >= chars.len() {
                    &&& r is None
                    &&& final(self).current == chars.len()
                    &&& final(self).reported() == old(self).reported().push(
                        report_text(
                            line_at(chars, chars.len() as int),
                            Seq::empty(),
                            "Unterminated string."@,
                        ),
                    )
                } else {
                    &&& r matches Some(TokenType::String(text))
                    &&& text@ == chars.subrange(old(self).current as int, close)
                    &&& r->0.kind() == KIND_STRING
                    &&& final(self).current == close + 1
                    &&& final(self).errors == old(self).errors
                }
            }),
    {
        let ghost chars = self.source_chars@;
        let ghost first = self.current as int;
        loop
            invariant
                self.wf(),
                self.source_chars@ == chars,
                self.start == old(self).start,
                self.source == old(self).source,
                self.source_chars == old(self).source_chars,
                self.tokens == old(self).tokens,
                self.errors == old(self).errors,
                first <= self.current,
                first == old(self).current,
                quote_at(chars, self.current as int) == quote_at(chars, first),
            ensures
                self.current == quote_at(chars, first),
                self.current < chars.len() ==> chars[self.current as int] == '"',
            decreases chars.len() - self.current,
        {
            match self.peek() {
                None => break,
                Some(c) => {
                    if c == '"' {
                        break;
                    }
                    proof {
                        lemma_newlines_bounded(chars, self.current as int);
                    }
                    if c == '\n' {
                        self.line += 1;
                    }
                    self.advance();
                },
            }
        }
        if self.is_at_end() {
            self.add_error("Unterminated string.");
            return None;
        }
        proof {
            lemma_newlines_bounded(chars, self.current as int);
        }
        self.advance();
        let text = String::from_str(
            self.source.as_str().substring_char(self.start + 1, self.current - 1),
        );
        proof {
            TokenType::lemma_literal_kinds(text);
        }
        Some(TokenType::String(text))
    }

    /// Reads the rest of a run of digits.
    fn digits(&mut self)
        requires
            old(self).wf(),
        ensures
            final(self).wf(),
            final(self).current == digits_end(old(self).source_chars@, old(self).current as int),
            final(self).moved_from(old(self)),
    {
        let ghost chars = self.source_chars@;
        let ghost first = self.current as int;
        loop
            invariant
                self.wf(),
                self.moved_from(old(self)),
                self.source_chars@ == chars,
                first <= self.current,
                digits_end(chars, self.current as int) == digits_end(chars, first),
            ensures
                self.current == digits_end(chars, first),
            decreases chars.len() - self.current,
        {
            match self.peek() {
                None => break,
                Some(c) => {
                    if !self.is_digit(c) {
                        break;
                    }
                    self.advance();
                },
            }
        }
    }

    /// Reads a number literal whose first digit has been read.
    fn number(&mut self) -> (r: TokenType)
        requires
            old(self).wf(),
            old(self).start + 1 == old(self).current,
            is_digit_char(old(self).source_chars@[old(self).start as int]),
        ensures
            final(self).wf(),
            final(self).current == number_end(old(self).source_chars@, old(self).start as int),
            final(self).moved_from(old(self)),
            r matches TokenType::Number(text) && text@ == old(self).source_chars@.subrange(
                old(self).start as int,
                final(self).current as int,
            ),
            r.kind() == KIND_NUMBER,
    {
        self.digits();
        if self.peek() == Some('.') {
            if let Some(next) = self.peek_next() {
                if self.is_digit(next) {
                    self.advance();
                    self.digits();
                }
            }
        }
        let text = String::from_str(self.source.as_str().substring_char(self.start, self.current));
        proof {
            TokenType::lemma_literal_kinds(text);
        }
        TokenType::Number(text)
    }

    /// Reads an identifier or reserved word whose first character has been
    /// read.
    fn identifier(&mut self) -> (r: TokenType)
        requires
            old(self).wf(),
        ensures
            final(self).wf(),
            final(self).current == word_end(old(self).source_chars@, old(self).current as int),
            final(self).moved_from(old(self)),
            r == match keyword_of(
                old(self).source_chars@.subrange(old(self).start as int, final(self).current as int),
            ) {
                Some(t) => t,
                None => TokenType::Identifier,
            },
    {
        let ghost chars = self.source_chars@;
        let ghost first = self.current as int;
        loop
            invariant
                self.wf(),
                self.moved_from(old(self)),
                self.source_chars@ == chars,
                first <= self.current,
                word_end(chars, self.current as int) == word_end(chars, first),
            ensures
                self.current == word_end(chars, first),
            decreases chars.len() - self.current,
        {
            match self.peek() {
                None => break,
                Some(c) => {
                    if !self.is_alpha_numeric(c) {
                        break;
                    }
                    self.advance();
                },
            }
        }
        let text = self.source.as_str().substring_char(self.start, self.current);
        match keyword(text) {
            Some(t) => t,
            None => TokenType::Identifier,
        }
    }
}

} // verus!
