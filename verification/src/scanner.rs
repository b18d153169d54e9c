//! The scanner: source text to tokens.

use crate::lox::{lemma_with_errors_push, report_text, LoxReporter, ReporterView};
use crate::token::{Token, Value, ValueView};
use crate::token_type::TokenType;
use vstd::prelude::*;
use vstd::std_specs::iter::IteratorSpec;

verus! {

/// An ASCII decimal digit.
pub open spec fn digit(c: char) -> bool {
    '0' <= c && c <= '9'
}

/// An ASCII letter or the underscore.
pub open spec fn alpha(c: char) -> bool {
    ('a' <= c && c <= 'z') || ('A' <= c && c <= 'Z') || c == '_'
}

/// A character that may continue an identifier.
pub open spec fn alpha_numeric(c: char) -> bool {
    alpha(c) || digit(c)
}

/// The category of a reserved word, if `text` is one.
pub open spec fn keyword(text: Seq<char>) -> Option<TokenType> {
    if text == "and"@ {
        Some(TokenType::And)
    } else if text == "class"@ {
        Some(TokenType::Class)
    } else if text == "else"@ {
        Some(TokenType::Else)
    } else if text == "false"@ {
        Some(TokenType::False)
    } else if text == "for"@ {
        Some(TokenType::For)
    } else if text == "fun"@ {
        Some(TokenType::Fun)
    } else if text == "if"@ {
        Some(TokenType::If)
    } else if text == "nil"@ {
        Some(TokenType::Nil)
    } else if text == "or"@ {
        Some(TokenType::Or)
    } else if text == "print"@ {
        Some(TokenType::Print)
    } else if text == "return"@ {
        Some(TokenType::Return)
    } else if text == "super"@ {
        Some(TokenType::Super)
    } else if text == "this"@ {
        Some(TokenType::This)
    } else if text == "true"@ {
        Some(TokenType::True)
    } else if text == "var"@ {
        Some(TokenType::Var)
    } else if text == "while"@ {
        Some(TokenType::While)
    } else {
        None
    }
}

/// The category of a punctuation mark that is a token by itself.
pub open spec fn single(c: char) -> Option<TokenType> {
    if c == '(' {
        Some(TokenType::LeftParen)
    } else if c == ')' {
        Some(TokenType::RightParen)
    } else if c == '{' {
        Some(TokenType::LeftBrace)
    } else if c == '}' {
        Some(TokenType::RightBrace)
    } else if c == ',' {
        Some(TokenType::Comma)
    } else if c == '.' {
        Some(TokenType::Dot)
    } else if c == '-' {
        Some(TokenType::Minus)
    } else if c == '+' {
        Some(TokenType::Plus)
    } else if c == ';' {
        Some(TokenType::Semicolon)
    } else if c == '*' {
        Some(TokenType::Star)
    } else {
        None
    }
}

/// The category of an operator that `=` may follow: with the `=` where
/// `extended`, alone where not.
pub open spec fn operator(c: char, extended: bool) -> Option<TokenType> {
    if c == '!' {
        Some(if extended { TokenType::BangEqual } else { TokenType::Bang })
    } else if c == '=' {
        Some(if extended { TokenType::EqualEqual } else { TokenType::Equal })
    } else if c == '<' {
        Some(if extended { TokenType::LessEqual } else { TokenType::Less })
    } else if c == '>' {
        Some(if extended { TokenType::GreaterEqual } else { TokenType::Greater })
    } else {
        None
    }
}

/// The kinds of run that the scanner consumes whole.
pub enum Run {
    /// Decimal digits.
    Digits,
    /// The characters of an identifier.
    Word,
    /// A comment: everything up to the end of the line.
    Comment,
    /// The inside of a string: everything up to the closing quote.
    Text,
}

/// Whether `c` belongs to a run.
pub open spec fn within(run: Run, c: char) -> bool {
    match run {
        Run::Digits => digit(c),
        Run::Word => alpha_numeric(c),
        Run::Comment => c != '\n',
        Run::Text => c != '"',
    }
}

/// Whether the character at `at` is `c`.
pub open spec fn has(src: Seq<char>, at: int, c: char) -> bool {
    0 <= at < src.len() && src[at] == c
}

/// Where the longest run that starts at `from` ends: the first position at
/// or after `from` whose character is outside the run, or the end of `src`.
pub open spec fn run_end(src: Seq<char>, from: int, run: Run) -> int
    decreases src.len() - from,
{
    if 0 <= from < src.len() && within(run, src[from]) {
        run_end(src, from + 1, run)
    } else {
        from
    }
}

/// The number of line feeds in `src` from `from` up to `to`.
pub open spec fn newlines(src: Seq<char>, from: int, to: int) -> nat
    decreases to - from,
{
    if from < to {
        newlines(src, from, to - 1) + if src[to - 1] == '\n' {
            1nat
        } else {
            0nat
        }
    } else {
        0
    }
}

/// Where the number that starts at `start` ends: after its digits, and after
/// a fraction where a dot and at least one digit follow them.
pub open spec fn number_end(src: Seq<char>, start: int) -> int {
    let whole = run_end(src, start, Run::Digits);
    if has(src, whole, '.') && whole + 1 < src.len() && digit(src[whole + 1]) {
        run_end(src, whole + 1, Run::Digits)
    } else {
        whole
    }
}

/// What one step of the scanner found.
pub enum Found {
    /// A token of this category.
    Token(TokenType),
    /// White space or a comment.
    Nothing,
    /// A lexical error, with its message.
    Error(Seq<char>),
}

/// One step of the scanner: where it ends, the line count after it, and
/// what it found.
pub struct Step {
    pub end: int,
    pub line: nat,
    pub found: Found,
}

/// The step that starts at `start`, a position inside `src`, when the line
/// count is `line`. A token stands on the line on which it ends; an error
/// is reported on the line on which the step starts.
pub open spec fn step(src: Seq<char>, start: int, line: nat) -> Step {
    let c = src[start];
    let next = start + 1;
    if single(c) is Some {
        Step { end: next, line, found: Found::Token(single(c)->Some_0) }
    } else if operator(c, false) is Some {
        let extended = has(src, next, '=');
        Step {
            end: if extended {
                next + 1
            } else {
                next
            },
            line,
            found: Found::Token(operator(c, extended)->Some_0),
        }
    } else if c == '/' {
        if has(src, next, '/') {
            Step { end: run_end(src, next + 1, Run::Comment), line, found: Found::Nothing }
        } else {
            Step { end: next, line, found: Found::Token(TokenType::Slash) }
        }
    } else if c == ' ' || c == '\r' || c == '\t' {
        Step { end: next, line, found: Found::Nothing }
    } else if c == '\n' {
        Step { end: next, line: line + 1, found: Found::Nothing }
    } else if c == '"' {
        let close = run_end(src, next, Run::Text);
        let line_after = line + newlines(src, next, close);
        if close < src.len() {
            Step { end: close + 1, line: line_after, found: Found::Token(TokenType::String) }
        } else {
            Step { end: close, line: line_after, found: Found::Error("Unterminated string."@) }
        }
    } else if digit(c) {
        Step { end: number_end(src, start), line, found: Found::Token(TokenType::Number) }
    } else if alpha(c) {
        let end = run_end(src, next, Run::Word);
        let kind = match keyword(src.subrange(start, end)) {
            Some(reserved) => reserved,
            None => TokenType::Identifier,
        };
        Step { end, line, found: Found::Token(kind) }
    } else {
        Step { end: next, line, found: Found::Error("Unexpected character."@) }
    }
}

/// A token as the scanner places it: its category, the stretch of the source
/// that is its text, and its line.
pub struct Lexeme {
    pub token_type: TokenType,
    pub start: int,
    pub end: int,
    pub line: nat,
}

/// The tokens of `src` from `pos` on, when the line count is `line`: those of
/// each step in turn, then the token that ends the input, with no text, on
/// the last line.
pub open spec fn lexemes(src: Seq<char>, pos: int, line: nat) -> Seq<Lexeme>
    decreases src.len() - pos,
{
    if 0 <= pos < src.len() {
        let s = step(src, pos, line);
        proof {
            lemma_step_advances(src, pos, line);
        }
        let rest = lexemes(src, s.end, s.line);
        match s.found {
            Found::Token(token_type) => seq![
                Lexeme { token_type, start: pos, end: s.end, line: s.line },
            ] + rest,
            _ => rest,
        }
    } else {
        seq![Lexeme { token_type: TokenType::EOF, start: pos, end: pos, line }]
    }
}

/// The diagnostics of `src` from `pos` on, when the line count is `line`, in
/// the order in which the steps report them.
pub open spec fn diagnostics(src: Seq<char>, pos: int, line: nat) -> Seq<Seq<char>>
    decreases src.len() - pos,
{
    if 0 <= pos < src.len() {
        let s = step(src, pos, line);
        proof {
            lemma_step_advances(src, pos, line);
        }
        let rest = diagnostics(src, s.end, s.line);
        match s.found {
            Found::Error(message) => seq![report_text(line, ""@, message)] + rest,
            _ => rest,
        }
    } else {
        Seq::empty()
    }
}

/// Whether `token` stands where `lexeme` does: the category, the text and
/// the line are the lexeme's; a string's literal is the text between its
/// quotes, a number's literal is a number, and any other literal is absent.
pub open spec fn placed(token: Token, lexeme: Lexeme, src: Seq<char>) -> bool {
    &&& token.token_type == lexeme.token_type
    &&& token.lexeme@ == src.subrange(lexeme.start, lexeme.end)
    &&& token.line == lexeme.line
    &&& match lexeme.token_type {
        TokenType::String => token.literal@ == ValueView::String(
            src.subrange(lexeme.start + 1, lexeme.end - 1),
        ),
        TokenType::Number => token.literal is Number,
        _ => token.literal@ == ValueView::Nil,
    }
}

/// Whether the literal of a number token is what `number` may return for
/// the token's text.
pub open spec fn numbered<P: Fn(&String) -> u64>(token: Token, number: P) -> bool {
    token.token_type == TokenType::Number ==> call_ensures(
        number,
        (&token.lexeme,),
        token.literal->Number_0,
    )
}

/// Whether `token` is the token that the scanner makes of `lexeme`, where
/// `number` gives the values of numbers.
pub open spec fn scanned<P: Fn(&String) -> u64>(
    token: Token,
    lexeme: Lexeme,
    src: Seq<char>,
    number: P,
) -> bool {
    placed(token, lexeme, src) && numbered(token, number)
}

/// Whether `tokens` are, one for one, the tokens that the scanner makes of
/// `expected`.
pub open spec fn all_scanned<P: Fn(&String) -> u64>(
    tokens: Seq<Token>,
    expected: Seq<Lexeme>,
    src: Seq<char>,
    number: P,
) -> bool {
    &&& tokens.len() == expected.len()
    &&& forall|i: int|
        0 <= i < tokens.len() ==> scanned(#[trigger] tokens[i], expected[i], src, number)
}

/// The text of a number: one or more digits, or digits, a dot and one or
/// more digits.
pub open spec fn number_lexeme(text: Seq<char>) -> bool {
    let whole = run_end(text, 0, Run::Digits);
    &&& 0 < whole
    &&& whole < text.len() ==> {
        &&& text[whole] == '.'
        &&& whole + 1 < text.len()
        &&& run_end(text, whole + 1, Run::Digits) == text.len()
    }
}

/// A run that starts inside `src` ends inside it or at its end, and every
/// character before its end belongs to it.
pub proof fn lemma_run_end(src: Seq<char>, from: int, run: Run)
    requires
        0 <= from <= src.len(),
    ensures
        from <= run_end(src, from, run) <= src.len(),
        forall|i: int| from <= i < run_end(src, from, run) ==> within(run, #[trigger] src[i]),
        run_end(src, from, run) < src.len() ==> !within(run, src[run_end(src, from, run)]),
    decreases src.len() - from,
{
    if from < src.len() && within(run, src[from]) {
        lemma_run_end(src, from + 1, run);
    }
}

/// Every step consumes at least one character and stays inside the source,
/// and the line count grows by no more than the step consumes.
pub proof fn lemma_step_advances(src: Seq<char>, start: int, line: nat)
    requires
        0 <= start < src.len(),
    ensures
        start < step(src, start, line).end <= src.len(),
        line <= step(src, start, line).line <= line + (step(src, start, line).end - start),
{
    let next = start + 1;
    lemma_run_end(src, next, Run::Text);
    lemma_run_end(src, next, Run::Word);
    lemma_run_end(src, start, Run::Digits);
    let whole = run_end(src, start, Run::Digits);
    if whole < src.len() {
        lemma_run_end(src, whole + 1, Run::Digits);
    }
    if next < src.len() {
        lemma_run_end(src, next + 1, Run::Comment);
    }
    lemma_newlines_bound(src, next, run_end(src, next, Run::Text));
}

/// A stretch holds no more line feeds than characters.
pub proof fn lemma_newlines_bound(src: Seq<char>, from: int, to: int)
    ensures
        newlines(src, from, to) <= if from <= to {
            to - from
        } else {
            0
        },
    decreases to - from,
{
    if from < to {
        lemma_newlines_bound(src, from, to - 1);
    }
}

/// A stretch whose characters all belong to a run, and which the source or
/// a character outside the run ends, is where the run ends.
pub proof fn lemma_run_reaches(src: Seq<char>, from: int, to: int, run: Run)
    requires
        0 <= from <= to <= src.len(),
        forall|i: int| from <= i < to ==> within(run, #[trigger] src[i]),
        to < src.len() ==> !within(run, src[to]),
    ensures
        run_end(src, from, run) == to,
    decreases to - from,
{
    if from < to {
        lemma_run_reaches(src, from + 1, to, run);
    }
}

/// A stretch of digits, or of digits around one dot, is the text of a number.
pub proof fn lemma_number_lexeme(src: Seq<char>, start: int, end: int, dot: int)
    requires
        0 <= start < dot <= end <= src.len(),
        forall|i: int| start <= i < end && i != dot ==> digit(#[trigger] src[i]),
        dot < end ==> src[dot] == '.' && dot + 1 < end,
    ensures
        number_lexeme(src.subrange(start, end)),
{
    let text = src.subrange(start, end);
    assert forall|i: int| 0 <= i < text.len() && i != dot - start implies digit(
        #[trigger] text[i],
    ) by {
        assert(text[i] == src[start + i]);
    }
    lemma_run_reaches(text, 0, dot - start, Run::Digits);
    if dot < end {
        lemma_run_reaches(text, dot - start + 1, text.len() as int, Run::Digits);
    }
}

/// The tokens of a source end with the token that ends the input, and it
/// is the only one of its category.
pub proof fn lemma_lexemes_end(src: Seq<char>, pos: int, line: nat)
    requires
        0 <= pos <= src.len(),
    ensures
        lexemes(src, pos, line).len() > 0,
        lexemes(src, pos, line).last().token_type == TokenType::EOF,
        forall|i: int|
            0 <= i < lexemes(src, pos, line).len() - 1 ==> (#[trigger] lexemes(
                src,
                pos,
                line,
            )[i]).token_type != TokenType::EOF,
    decreases src.len() - pos,
{
    if pos < src.len() {
        let s = step(src, pos, line);
        lemma_step_advances(src, pos, line);
        lemma_lexemes_end(src, s.end, s.line);
    }
}

/// A string that nothing closes is a lexical error on the line on which it
/// opens: the step consumes the rest of the source and finds no token.
pub proof fn lemma_unterminated_string(src: Seq<char>, start: int, line: nat)
    requires
        0 <= start < src.len(),
        src[start] == '"',
        forall|i: int| start < i < src.len() ==> #[trigger] src[i] != '"',
    ensures
        step(src, start, line).end == src.len(),
        step(src, start, line).found == Found::Error("Unterminated string."@),
        diagnostics(src, start, line) == seq![report_text(line, ""@, "Unterminated string."@)],
{
    lemma_run_reaches(src, start + 1, src.len() as int, Run::Text);
    let s = step(src, start, line);
    assert(diagnostics(src, s.end, s.line) =~= Seq::<Seq<char>>::empty());
    assert(diagnostics(src, start, line) =~= seq![
        report_text(line, ""@, "Unterminated string."@),
    ]);
}

/// Tells whether `c` is an ASCII decimal digit.
pub fn is_digit(c: char) -> (r: bool)
    ensures
        r == digit(c),
{
    '0' <= c && c <= '9'
}

/// Tells whether `c` is an ASCII letter or the underscore.
pub fn is_alpha(c: char) -> (r: bool)
    ensures
        r == alpha(c),
{
    ('a' <= c && c <= 'z') || ('A' <= c && c <= 'Z') || c == '_'
}

/// Tells whether `c` may continue an identifier.
pub fn is_alpha_numeric(c: char) -> (r: bool)
    ensures
        r == alpha_numeric(c),
{
    is_alpha(c) || is_digit(c)
}

/// Tells whether two strings hold the same characters.
fn same_text(a: &str, b: &str) -> (r: bool)
    ensures
        r == (a@ == b@),
{
    let n = a.unicode_len();
    if n != b.unicode_len() {
        return false;
    }
    let mut i: usize = 0;
    while i < n
        invariant
            n == a@.len(),
            n == b@.len(),
            i <= n,
            forall|j: int| 0 <= j < i ==> a@[j] == b@[j],
        decreases n - i,
    {
        if a.get_char(i) != b.get_char(i) {
            return false;
        }
        i += 1;
    }
    assert(a@ =~= b@);
    true
}

/// The category of a reserved word, if `text` is one.
pub fn keywords(text: &str) -> (kind: Option<TokenType>)
    ensures
        kind == keyword(text@),
{
    if same_text(text, "and") {
        Some(TokenType::And)
    } else if same_text(text, "class") {
        Some(TokenType::Class)
    } else if same_text(text, "else") {
        Some(TokenType::Else)
    } else if same_text(text, "false") {
        Some(TokenType::False)
    } else if same_text(text, "for") {
        Some(TokenType::For)
    } else if same_text(text, "fun") {
        Some(TokenType::Fun)
    } else if same_text(text, "if") {
        Some(TokenType::If)
    } else if same_text(text, "nil") {
        Some(TokenType::Nil)
    } else if same_text(text, "or") {
        Some(TokenType::Or)
    } else if same_text(text, "print") {
        Some(TokenType::Print)
    } else if same_text(text, "return") {
        Some(TokenType::Return)
    } else if same_text(text, "super") {
        Some(TokenType::Super)
    } else if same_text(text, "this") {
        Some(TokenType::This)
    } else if same_text(text, "true") {
        Some(TokenType::True)
    } else if same_text(text, "var") {
        Some(TokenType::Var)
    } else if same_text(text, "while") {
        Some(TokenType::While)
    } else {
        None
    }
}

/// The scanner's state: the source, the start of the current lexeme, the
/// position of the next character, the line count and the tokens so far.
pub struct Scanner {
    pub source: Vec<char>,
    pub start: usize,
    pub current: usize,
    pub line: usize,
    pub tokens: Vec<Token>,
}

impl Scanner {
    /// The positions are in order and inside the source, and the line count
    /// is at least 1 and no more than what the consumed characters allow.
    pub open spec fn wf(&self) -> bool {
        &&& self.start <= self.current <= self.source.len()
        &&& self.source.len() < usize::MAX
        &&& 1 <= self.line <= self.current + 1
    }

    /// Whether `after` is `self` with one more token: of the given category
    /// and literal, with the current lexeme as its text, on the current line.
    pub open spec fn token_added(self, after: Scanner, t: TokenType, literal: Value) -> bool {
        &&& after.source == self.source
        &&& after.start == self.start
        &&& after.current == self.current
        &&& after.line == self.line
        &&& after.tokens@.len() == self.tokens@.len() + 1
        &&& after.tokens@.drop_last() == self.tokens@
        &&& after.tokens@.last().token_type == t
        &&& after.tokens@.last().lexeme@ == self.source@.subrange(
            self.start as int,
            self.current as int,
        )
        &&& after.tokens@.last().literal == literal
        &&& after.tokens@.last().line == self.line
    }

    /// Whether `after` is the state that a step from `self` leaves: the step
    /// is the one that starts at the start of the lexeme, and a token of it is
    /// the last of the tokens.
    pub open spec fn step_taken(self, after: Scanner) -> bool {
        let s = step(self.source@, self.start as int, self.line as nat);
        &&& after.source == self.source
        &&& after.start == self.start
        &&& after.current == s.end
        &&& after.line == s.line
        &&& match s.found {
            Found::Token(token_type) => {
                &&& after.tokens@.len() == self.tokens@.len() + 1
                &&& after.tokens@.drop_last() == self.tokens@
                &&& placed(
                    after.tokens@.last(),
                    Lexeme { token_type, start: self.start as int, end: s.end, line: s.line },
                    self.source@,
                )
            },
            _ => after.tokens@ == self.tokens@,
        }
    }

    /// Whether `after` is the collector that a step from `self` leaves of
    /// `before`: with the step's error, if it found one.
    pub open spec fn step_reported(self, before: ReporterView, after: ReporterView) -> bool {
        match step(self.source@, self.start as int, self.line as nat).found {
            Found::Error(message) => after == before.with_error(
                report_text(self.line as nat, ""@, message),
            ),
            _ => after == before,
        }
    }

    /// A scanner at the start of `source`, on line 1.
    pub fn new(source: &str) -> (scanner: Self)
        requires
            source@.len() < usize::MAX,
        ensures
            scanner.wf(),
            scanner.source@ == source@,
            scanner.start == 0,
            scanner.current == 0,
            scanner.line == 1,
            scanner.tokens@ == Seq::<Token>::empty(),
    {
        let mut chars: Vec<char> = Vec::new();
        let mut rest = source.chars();
        loop
            invariant_except_break
                rest.obeys_prophetic_iter_laws(),
                chars@ + rest.remaining() == source@,
            ensures
                chars@ == source@,
            decreases source@.len() - chars@.len(),
        {
            match rest.next() {
                Some(c) => {
                    chars.push(c);
                    assert(chars@ + rest.remaining() =~= source@);
                },
                None => {
                    assert(chars@ =~= source@);
                    break ;
                },
            }
        }
        Scanner { source: chars, start: 0, current: 0, line: 1, tokens: Vec::new() }
    }

    pub fn is_at_end(&self) -> (r: bool)
        ensures
            r == (self.current >= self.source.len()),
    {
        self.current >= self.source.len()
    }

    /// The text of the current lexeme.
    pub fn lexeme(&self) -> (text: String)
        requires
            self.start <= self.current <= self.source.len(),
        ensures
            text@ == self.source@.subrange(self.start as int, self.current as int),
    {
        self.between(self.start, self.current)
    }

    /// Adds a token of the current lexeme with the given literal.
    pub fn add_token_literal(&mut self, t: TokenType, literal: Value)
        requires
            old(self).start <= old(self).current <= old(self).source.len(),
        ensures
            old(self).token_added(*final(self), t, literal),
    {
        let text = self.lexeme();
        self.tokens.push(Token::new(t, text, literal, self.line));
        assert(final(self).tokens@.drop_last() =~= old(self).tokens@);
    }

    /// Adds a token of the current lexeme without a literal.
    pub fn add_token(&mut self, t: TokenType)
        requires
            old(self).start <= old(self).current <= old(self).source.len(),
        ensures
            old(self).token_added(*final(self), t, Value::Nil),
    {
        self.add_token_literal(t, Value::Nil);
    }

    /// Consumes the next character.
    pub fn advance(&mut self) -> (c: char)
        requires
            old(self).current < old(self).source.len(),
        ensures
            c == old(self).source@[old(self).current as int],
            *final(self) == (Scanner { current: (old(self).current + 1) as usize, ..*old(self) }),
    {
        self.current += 1;
        self.source[self.current - 1]
    }

    /// Consumes the next character if it is `expected`.
    pub fn char_match(&mut self, expected: char) -> (r: bool)
        ensures
            r == has(old(self).source@, old(self).current as int, expected),
            *final(self) == (Scanner {
                current: if r {
                    (old(self).current + 1) as usize
                } else {
                    old(self).current
                },
                ..*old(self)
            }),
    {
        if self.is_at_end() {
            return false;
        }
        if self.source[self.current] != expected {
            return false;
        }
        self.current += 1;
        true
    }

    /// The next character, or NUL at the end.
    pub fn peek(&self) -> (c: char)
        ensures
            c == if self.current < self.source.len() {
                self.source@[self.current as int]
            } else {
                '\0'
            },
    {
        if self.is_at_end() {
            return '\0';
        }
        self.source[self.current]
    }

    /// The character after the next one, or NUL where there is none.
    pub fn peek_next(&self) -> (c: char)
        requires
            self.current < usize::MAX,
        ensures
            c == if self.current + 1 < self.source.len() {
                self.source@[self.current + 1]
            } else {
                '\0'
            },
    {
        if self.current + 1 >= self.source.len() {
            return '\0';
        }
        self.source[self.current + 1]
    }

    /// Scans the rest of an identifier or reserved word whose first
    /// character was consumed.
    pub fn identifier(&mut self)
        requires
            old(self).wf(),
            old(self).current == old(self).start + 1,
            alpha(old(self).source@[old(self).start as int]),
        ensures
            final(self).wf(),
            old(self).step_taken(*final(self)),
    {
        while is_alpha_numeric(self.peek())
            invariant
                self.wf(),
                *self == (Scanner { current: self.current, ..*old(self) }),
                old(self).current <= self.current,
                run_end(self.source@, self.current as int, Run::Word) == run_end(
                    self.source@,
                    old(self).current as int,
                    Run::Word,
                ),
            decreases self.source.len() - self.current,
        {
            self.advance();
        }
        let text = self.lexeme();
        let kind = match keywords(text.as_str()) {
            Some(reserved) => reserved,
            None => TokenType::Identifier,
        };
        self.add_token(kind);
    }

    /// Scans the rest of a number whose first digit was consumed.
    pub fn number<P: Fn(&String) -> u64>(&mut self, number: &P)
        requires
            old(self).wf(),
            old(self).current == old(self).start + 1,
            digit(old(self).source@[old(self).start as int]),
            forall|text: &String| number_lexeme(text@) ==> call_requires(*number, (text,)),
        ensures
            final(self).wf(),
            old(self).step_taken(*final(self)),
            numbered(final(self).tokens@.last(), *number),
    {
        let ghost src = self.source@;
        let ghost whole = run_end(src, self.start as int, Run::Digits);
        while is_digit(self.peek())
            invariant
                self.wf(),
                *self == (Scanner { current: self.current, ..*old(self) }),
                old(self).current <= self.current,
                run_end(self.source@, self.current as int, Run::Digits) == whole,
                forall|i: int| self.start <= i < self.current ==> digit(self.source@[i]),
            decreases self.source.len() - self.current,
        {
            self.advance();
        }
        if self.peek() == '.' && is_digit(self.peek_next()) {
            self.advance();
            while is_digit(self.peek())
                invariant
                    self.wf(),
                    *self == (Scanner { current: self.current, ..*old(self) }),
                    whole < self.current,
                    run_end(self.source@, self.current as int, Run::Digits) == run_end(
                        self.source@,
                        whole + 1,
                        Run::Digits,
                    ),
                    forall|i: int|
                        self.start <= i < self.current && i != whole ==> digit(self.source@[i]),
                    self.source@[whole] == '.',
                decreases self.source.len() - self.current,
            {
                self.advance();
            }
        }
        let text = self.lexeme();
        proof {
            lemma_number_lexeme(src, self.start as int, self.current as int, whole);
        }
        let bits = number(&text);
        self.tokens.push(Token::new(TokenType::Number, text, Value::Number(bits), self.line));
        assert(final(self).tokens@.drop_last() =~= old(self).tokens@);
    }

    /// Scans the rest of a string whose opening quote was consumed.
    pub fn string(&mut self, reporter: &mut LoxReporter)
        requires
            old(self).wf(),
            old(self).current == old(self).start + 1,
            old(self).source@[old(self).start as int] == '"',
        ensures
            final(self).wf(),
            old(self).step_taken(*final(self)),
            old(self).step_reported(old(reporter)@, final(reporter)@),
    {
        let opened = self.line;
        let ghost src = self.source@;
        let ghost first = self.current as int;
        while self.peek() != '"' && !self.is_at_end()
            invariant
                self.wf(),
                *self == (Scanner { current: self.current, line: self.line, ..*old(self) }),
                first <= self.current,
                first == old(self).current,
                src == self.source@,
                run_end(src, self.current as int, Run::Text) == run_end(src, first, Run::Text),
                self.line == opened + newlines(src, first, self.current as int),
                self.line <= opened + (self.current - first),
                opened == old(self).line,
            decreases self.source.len() - self.current,
        {
            if self.peek() == '\n' {
                self.line += 1;
            }
            self.advance();
        }
        if self.is_at_end() {
            reporter.error(opened, "Unterminated string.");
            return ;
        }
        self.advance();
        let text = self.between(self.start + 1, self.current - 1);
        self.add_token_literal(TokenType::String, Value::String(text));
    }

    /// Scans one lexeme from the current position.
    pub fn scan_token<P: Fn(&String) -> u64>(&mut self, reporter: &mut LoxReporter, number: &P)
        requires
            old(self).wf(),
            old(self).start == old(self).current,
            old(self).current < old(self).source.len(),
            forall|text: &String| number_lexeme(text@) ==> call_requires(*number, (text,)),
        ensures
            final(self).wf(),
            old(self).step_taken(*final(self)),
            old(self).step_reported(old(reporter)@, final(reporter)@),
            step(old(self).source@, old(self).start as int, old(self).line as nat).found is Token
                ==> numbered(final(self).tokens@.last(), *number),
    {
        let c = self.advance();
        match c {
            '(' => self.add_token(TokenType::LeftParen),
            ')' => self.add_token(TokenType::RightParen),
            '{' => self.add_token(TokenType::LeftBrace),
            '}' => self.add_token(TokenType::RightBrace),
            ',' => self.add_token(TokenType::Comma),
            '.' => self.add_token(TokenType::Dot),
            '-' => self.add_token(TokenType::Minus),
            '+' => self.add_token(TokenType::Plus),
            ';' => self.add_token(TokenType::Semicolon),
            '*' => self.add_token(TokenType::Star),
            '!' => {
                let token = if self.char_match('=') {
                    TokenType::BangEqual
                } else {
                    TokenType::Bang
                };
                self.add_token(token);
            },
            '=' => {
                let token = if self.char_match('=') {
                    TokenType::EqualEqual
                } else {
                    TokenType::Equal
                };
                self.add_token(token);
            },
            '<' => {
                let token = if self.char_match('=') {
                    TokenType::LessEqual
                } else {
                    TokenType::Less
                };
                self.add_token(token);
            },
            '>' => {
                let token = if self.char_match('=') {
                    TokenType::GreaterEqual
                } else {
                    TokenType::Greater
                };
                self.add_token(token);
            },
            '/' => {
                if self.char_match('/') {
                    let ghost first = self.current as int;
                    while self.peek() != '\n' && !self.is_at_end()
                        invariant
                            self.wf(),
                            *self == (Scanner { current: self.current, ..*old(self) }),
                            first <= self.current,
                            run_end(self.source@, self.current as int, Run::Comment) == run_end(
                                self.source@,
                                first,
                                Run::Comment,
                            ),
                        decreases self.source.len() - self.current,
                    {
                        self.advance();
                    }
                } else {
                    self.add_token(TokenType::Slash);
                }
            },
            ' ' | '\r' | '\t' => (),
            '\n' => self.line += 1,
            '"' => self.string(reporter),
            _ => {
                if is_digit(c) {
                    self.number(number);
                } else if is_alpha(c) {
                    self.identifier();
                } else {
                    reporter.error(self.line, "Unexpected character.");
                }
            },
        };
    }

    /// Scans the rest of the source and returns all tokens, closed by the
    /// token that ends the input.
    pub fn scan_tokens<P: Fn(&String) -> u64>(self, reporter: &mut LoxReporter, number: &P) -> (tokens:
        Vec<Token>)
        requires
            self.wf(),
            self.start == self.current,
            forall|text: &String| number_lexeme(text@) ==> call_requires(*number, (text,)),
        ensures
            tokens@.len() >= self.tokens@.len(),
            tokens@.take(self.tokens@.len() as int) == self.tokens@,
            all_scanned(
                tokens@.skip(self.tokens@.len() as int),
                lexemes(self.source@, self.current as int, self.line as nat),
                self.source@,
                *number,
            ),
            final(reporter)@ == old(reporter)@.with_errors(
                diagnostics(self.source@, self.current as int, self.line as nat),
            ),
    {
        let ghost initial = self;
        let mut scanner = self;
        let ghost src = scanner.source@;
        let ghost mut done: Seq<Lexeme> = Seq::empty();
        let ghost mut told: Seq<Seq<char>> = Seq::empty();
        let ghost n0 = scanner.tokens@.len() as int;
        while !scanner.is_at_end()
            invariant
                scanner.wf(),
                scanner.source == initial.source,
                src == scanner.source@,
                n0 == initial.tokens@.len(),
                forall|text: &String| number_lexeme(text@) ==> call_requires(*number, (text,)),
                scanner.tokens@.len() >= n0,
                scanner.tokens@.take(n0) == initial.tokens@,
                all_scanned(scanner.tokens@.skip(n0), done, src, *number),
                done + lexemes(src, scanner.current as int, scanner.line as nat) == lexemes(
                    src,
                    initial.current as int,
                    initial.line as nat,
                ),
                told + diagnostics(src, scanner.current as int, scanner.line as nat) == diagnostics(
                    src,
                    initial.current as int,
                    initial.line as nat,
                ),
                reporter@ == old(reporter)@.with_errors(told),
            decreases scanner.source.len() - scanner.current,
        {
            scanner.start = scanner.current;
            let ghost before = scanner;
            scanner.scan_token(reporter, number);
            proof {
                let s = step(src, before.start as int, before.line as nat);
                lemma_step_advances(src, before.start as int, before.line as nat);
                let rest_lexemes = lexemes(src, s.end, s.line);
                let rest_told = diagnostics(src, s.end, s.line);
                match s.found {
                    Found::Token(token_type) => {
                        let lexeme = Lexeme {
                            token_type,
                            start: before.start as int,
                            end: s.end,
                            line: s.line,
                        };
                        assert(scanner.tokens@.skip(n0) =~= before.tokens@.skip(n0).push(
                            scanner.tokens@.last(),
                        ));
                        assert(scanner.tokens@.take(n0) =~= before.tokens@.take(n0));
                        assert(done.push(lexeme) + rest_lexemes =~= done + (seq![lexeme]
                            + rest_lexemes));
                        done = done.push(lexeme);
                    },
                    Found::Nothing => {},
                    Found::Error(message) => {
                        let text = report_text(before.line as nat, ""@, message);
                        assert(told.push(text) + rest_told =~= told + (seq![text] + rest_told));
                        lemma_with_errors_push(old(reporter)@, told, text);
                        told = told.push(text);
                    },
                }
            }
        }
        let ghost end = Lexeme {
            token_type: TokenType::EOF,
            start: scanner.current as int,
            end: scanner.current as int,
            line: scanner.line as nat,
        };
        let ghost scanned_before = scanner.tokens@.skip(n0);
        scanner.tokens.push(Token::new(TokenType::EOF, String::new(), Value::Nil, scanner.line));
        proof {
            assert(lexemes(src, scanner.current as int, scanner.line as nat) =~= seq![end]);
            assert(diagnostics(src, scanner.current as int, scanner.line as nat) =~= Seq::empty());
            assert(told =~= diagnostics(src, initial.current as int, initial.line as nat));
            assert(done.push(end) =~= lexemes(src, initial.current as int, initial.line as nat));
            assert(src.subrange(end.start, end.end) =~= Seq::<char>::empty());
            assert(scanner.tokens@.take(n0) =~= initial.tokens@);
            let fresh = scanner.tokens@.skip(n0);
            assert(fresh.len() == done.len() + 1);
            assert forall|i: int| 0 <= i < fresh.len() implies scanned(
                #[trigger] fresh[i],
                done.push(end)[i],
                src,
                *number,
            ) by {
                if i < done.len() {
                    assert(fresh[i] == scanned_before[i]);
                }
            }
        }
        scanner.tokens
    }

    /// The text of the source from `from` up to `to`.
    pub fn between(&self, from: usize, to: usize) -> (text: String)
        requires
            from <= to <= self.source.len(),
        ensures
            text@ == self.source@.subrange(from as int, to as int),
    {
        let mut text = String::new();
        let mut i: usize = from;
        while i < to
            invariant
                from <= i <= to <= self.source.len(),
                text@ == self.source@.subrange(from as int, i as int),
            decreases to - i,
        {
            text.push(self.source[i]);
            i += 1;
            assert(text@ =~= self.source@.subrange(from as int, i as int));
        }
        text
    }
}

/// Scans `source` into tokens, closed by the token that ends the input, and
/// reports each lexical error to `reporter`. `number` gives the value of each
/// number from its text.
pub fn scan_tokens<P: Fn(&String) -> u64>(reporter: &mut LoxReporter, source: &str, number: &P) -> (tokens:
    Vec<Token>)
    requires
        source@.len() < usize::MAX,
        forall|text: &String| number_lexeme(text@) ==> call_requires(*number, (text,)),
    ensures
        all_scanned(tokens@, lexemes(source@, 0, 1), source@, *number),
        final(reporter)@ == old(reporter)@.with_errors(diagnostics(source@, 0, 1)),
{
    let scanner = Scanner::new(source);
    let tokens = scanner.scan_tokens(reporter, number);
    assert(tokens@.skip(0) =~= tokens@);
    tokens
}

} // verus!
