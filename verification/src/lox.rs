//! The diagnostics collector and the pipeline that reports into it.

use crate::ast::Expr;
use crate::interpreter::{
    evaluates, interpreted, text_of, well_formed, Arithmetic, Interpreter, Outcome,
    RuntimeError, RuntimeErrorView,
};
use crate::parser::{parse, parse_expression, Parsed};
use crate::scanner::{
    all_scanned, diagnostics, lemma_lexemes_end, lexemes, number_lexeme, scan_tokens,
};
use crate::text::{decimal, push_decimal};
use crate::token::{Token, TokenView, ValueView};
use crate::token_type::TokenType;
use vstd::prelude::*;

verus! {

/// The text of a lexical or syntactic diagnostic.
pub open spec fn report_text(line: nat, location: Seq<char>, message: Seq<char>) -> Seq<char> {
    "[line "@ + decimal(line) + "] Error"@ + location + " : "@ + message
}

/// Where a syntactic diagnostic places its token: at the end, for the token
/// that ends the input, and at the token's text otherwise.
pub open spec fn location_of(token: TokenView) -> Seq<char> {
    if token.token_type == TokenType::EOF {
        " at end"@
    } else {
        " at '"@ + token.lexeme + "'"@
    }
}

/// The text of a syntactic diagnostic at `token`.
pub open spec fn parse_error_text(token: TokenView, message: Seq<char>) -> Seq<char> {
    report_text(token.line as nat, location_of(token), message)
}

/// The text of a runtime diagnostic.
pub open spec fn runtime_error_text(error: RuntimeErrorView) -> Seq<char> {
    error.message + " [line "@ + decimal(error.token.line as nat) + "]"@
}

/// Collects diagnostics: two flags, and the messages in the order in which
/// they were reported. Nothing ever clears a flag or removes a message.
#[derive(Debug)]
pub struct LoxReporter {
    pub had_error: bool,
    pub had_runtime_error: bool,
    pub messages: Vec<String>,
}

/// The mathematical content of a [`LoxReporter`].
pub struct ReporterView {
    pub had_error: bool,
    pub had_runtime_error: bool,
    pub messages: Seq<Seq<char>>,
}

impl View for LoxReporter {
    type V = ReporterView;

    open spec fn view(&self) -> ReporterView {
        ReporterView {
            had_error: self.had_error,
            had_runtime_error: self.had_runtime_error,
            messages: self.messages@.map_values(|m: String| m@),
        }
    }
}

impl ReporterView {
    /// The collector after one more lexical or syntactic diagnostic.
    pub open spec fn with_error(self, text: Seq<char>) -> ReporterView {
        ReporterView {
            had_error: true,
            had_runtime_error: self.had_runtime_error,
            messages: self.messages.push(text),
        }
    }

    /// The collector after these lexical or syntactic diagnostics, in
    /// order: unchanged where there are none.
    pub open spec fn with_errors(self, texts: Seq<Seq<char>>) -> ReporterView {
        ReporterView {
            had_error: self.had_error || texts.len() > 0,
            had_runtime_error: self.had_runtime_error,
            messages: self.messages + texts,
        }
    }

    /// The collector after one more runtime diagnostic.
    pub open spec fn with_runtime_error(self, text: Seq<char>) -> ReporterView {
        ReporterView {
            had_error: self.had_error,
            had_runtime_error: true,
            messages: self.messages.push(text),
        }
    }

    /// Whether `later` can follow `self` in one run: no flag was cleared, and
    /// the messages of `self` open those of `later`.
    pub open spec fn precedes(self, later: ReporterView) -> bool {
        &&& self.had_error ==> later.had_error
        &&& self.had_runtime_error ==> later.had_runtime_error
        &&& self.messages.is_prefix_of(later.messages)
    }
}

/// Within one run the flags only rise and the messages only grow: whatever
/// is reported, what was on record before stays on record.
pub proof fn lemma_reports_precede(reporter: ReporterView, text: Seq<char>, texts: Seq<Seq<char>>)
    ensures
        reporter.precedes(reporter),
        reporter.precedes(reporter.with_error(text)),
        reporter.precedes(reporter.with_errors(texts)),
        reporter.precedes(reporter.with_runtime_error(text)),
        reporter.with_error(text).had_error,
        reporter.with_runtime_error(text).had_runtime_error,
        reporter.with_errors(texts).had_error == (reporter.had_error || texts.len() > 0),
{
}

/// What can follow what can follow, in one run.
pub proof fn lemma_precedes_transitive(a: ReporterView, b: ReporterView, c: ReporterView)
    requires
        a.precedes(b),
        b.precedes(c),
    ensures
        a.precedes(c),
{
}

/// Reporting diagnostics one by one gives what reporting them together gives.
pub proof fn lemma_with_errors_push(reporter: ReporterView, texts: Seq<Seq<char>>, text: Seq<char>)
    ensures
        reporter.with_errors(texts).with_error(text) == reporter.with_errors(texts.push(text)),
        reporter.with_errors(Seq::empty()) == reporter,
{
    assert((reporter.messages + texts).push(text) =~= reporter.messages + texts.push(text));
    assert(reporter.messages + Seq::<Seq<char>>::empty() =~= reporter.messages);
}

impl Default for LoxReporter {
    fn default() -> (reporter: Self)
        ensures
            !reporter.had_error,
            !reporter.had_runtime_error,
            reporter@.messages == Seq::<Seq<char>>::empty(),
    {
        let reporter = LoxReporter {
            had_error: false,
            had_runtime_error: false,
            messages: Vec::new(),
        };
        assert(reporter@.messages =~= Seq::<Seq<char>>::empty());
        reporter
    }
}

impl LoxReporter {
    /// Records a lexical error on `line`.
    pub fn error(&mut self, line: usize, message: &str)
        ensures
            final(self)@ == old(self)@.with_error(report_text(line as nat, ""@, message@)),
    {
        self.report(line, "", message)
    }

    /// Records a lexical or syntactic error on `line`, at `location`.
    pub fn report(&mut self, line: usize, location: &str, message: &str)
        ensures
            final(self)@ == old(self)@.with_error(report_text(line as nat, location@, message@)),
    {
        let mut text = String::from_str("[line ");
        push_decimal(&mut text, line);
        text.append("] Error");
        text.append(location);
        text.append(" : ");
        text.append(message);
        self.messages.push(text);
        self.had_error = true;
        assert(final(self)@.messages =~= old(self)@.messages.push(
            report_text(line as nat, location@, message@),
        ));
    }

    /// Records a runtime error.
    pub fn runtime_error(&mut self, error: RuntimeError)
        ensures
            final(self)@ == old(self)@.with_runtime_error(runtime_error_text(error@)),
    {
        let text = error.to_text();
        self.messages.push(text);
        self.had_runtime_error = true;
        assert(final(self)@.messages =~= old(self)@.messages.push(runtime_error_text(error@)));
    }

    /// Records a syntactic error at `token`.
    pub fn parse_error(&mut self, token: &Token, message: &str)
        ensures
            final(self)@ == old(self)@.with_error(parse_error_text(token@, message@)),
    {
        if token.token_type == TokenType::EOF {
            self.report(token.line, " at end", message);
        } else {
            let mut location = String::from_str(" at '");
            location.append(token.lexeme.as_str());
            location.append("'");
            self.report(token.line, location.as_str(), message);
        }
    }
}

/// Whether parsing the scanned `tokens` of `code` gave `parsed` and turned
/// the reporter `before` into `after`: the scanner's diagnostics are
/// reported first, then the parser's one, if it failed.
pub open spec fn parsed_code(
    tokens: Seq<Token>,
    code: Seq<char>,
    before: ReporterView,
    after: ReporterView,
    parsed: Option<Expr>,
) -> bool {
    let scanned = before.with_errors(diagnostics(code, 0, 1));
    match parse_expression(tokens, 0) {
        Parsed::Tree { expr, next } => parsed == Some(expr) && after == scanned,
        Parsed::Failure { at, message } => parsed is None && after == scanned.with_error(
            parse_error_text(tokens[at]@, message),
        ),
    }
}

/// Whether a run that parsed to `parsed`, with the reporter then at
/// `reported`, came to `value`, showed `shown` and left the reporter at
/// `after`. Nothing is evaluated where a syntax error is on record; else the
/// expression is evaluated and interpreted.
pub open spec fn ran<A: Fn(Arithmetic, u64, u64) -> u64, F: Fn(u64) -> String>(
    parsed: Option<Expr>,
    reported: ReporterView,
    arithmetic: A,
    number: F,
    value: Outcome,
    shown: Option<Seq<char>>,
    after: ReporterView,
) -> bool {
    if reported.had_error || parsed is None {
        shown is None && after == reported
    } else {
        evaluates(parsed->Some_0@, arithmetic, value) && interpreted(
            value,
            number,
            shown,
            reported,
            after,
        )
    }
}

/// The pipeline: scanner, parser and evaluator around one reporter.
#[derive(Debug)]
pub struct Lox {
    pub interpreter: Interpreter,
    pub reporter: LoxReporter,
}

impl Default for Lox {
    fn default() -> (lox: Self)
        ensures
            !lox.reporter.had_error,
            !lox.reporter.had_runtime_error,
            lox.reporter@.messages == Seq::<Seq<char>>::empty(),
    {
        Lox { interpreter: Interpreter::new(), reporter: LoxReporter::default() }
    }
}

impl Lox {
    /// A pipeline with nothing on record.
    pub fn new() -> (lox: Self)
        ensures
            !lox.reporter.had_error,
            !lox.reporter.had_runtime_error,
            lox.reporter@.messages == Seq::<Seq<char>>::empty(),
    {
        Lox { interpreter: Interpreter::new(), reporter: LoxReporter::default() }
    }

    /// Scans, parses and evaluates `code`, and returns the display form of
    /// its value for the caller to show. Nothing is evaluated where a syntax
    /// error is on record, from this run or an earlier one. `parse_number`
    /// gives the value of a number from its text, `arithmetic` computes, and
    /// `number` gives the decimal form of a number.
    pub fn run<P: Fn(&String) -> u64, A: Fn(Arithmetic, u64, u64) -> u64, F: Fn(u64) -> String>(
        &mut self,
        code: &str,
        parse_number: &P,
        arithmetic: &A,
        number: &F,
    ) -> (shown: Option<String>)
        requires
            code@.len() < usize::MAX,
            forall|text: &String| number_lexeme(text@) ==> call_requires(*parse_number, (text,)),
            forall|operation: Arithmetic, a: u64, b: u64|
                call_requires(*arithmetic, (operation, a, b)),
            forall|bits: u64| call_requires(*number, (bits,)),
        ensures
            exists|tokens: Seq<Token>, parsed: Option<Expr>, reported: ReporterView, value: Outcome|
                all_scanned(tokens, lexemes(code@, 0, 1), code@, *parse_number)
                    && #[trigger] parsed_code(
                    tokens,
                    code@,
                    old(self).reporter@,
                    reported,
                    parsed,
                ) && #[trigger] ran(
                    parsed,
                    reported,
                    *arithmetic,
                    *number,
                    value,
                    text_of(shown),
                    final(self).reporter@,
                ),
    {
        let ghost before = self.reporter@;
        let expression = self.parse_code(code, parse_number);
        let ghost reported = self.reporter@;
        let ghost tokens = choose|tokens: Seq<Token>|
            all_scanned(tokens, lexemes(code@, 0, 1), code@, *parse_number) && #[trigger] parsed_code(
                tokens,
                code@,
                before,
                reported,
                expression,
            );
        if self.reporter.had_error {
            assert(ran(
                expression,
                reported,
                *arithmetic,
                *number,
                Ok::<ValueView, RuntimeErrorView>(ValueView::Nil),
                text_of(None),
                self.reporter@,
            ));
            return None;
        }
        match expression {
            Some(expr) => {
                let shown = self.interpreter.interpret(&mut self.reporter, &expr, arithmetic, number);
                let ghost value = choose|value: Outcome|
                    evaluates(expr@, *arithmetic, value) && #[trigger] interpreted(
                        value,
                        *number,
                        text_of(shown),
                        reported,
                        self.reporter@,
                    );
                assert(ran(
                    expression,
                    reported,
                    *arithmetic,
                    *number,
                    value,
                    text_of(shown),
                    self.reporter@,
                ));
                shown
            },
            None => {
                assert(ran(
                    expression,
                    reported,
                    *arithmetic,
                    *number,
                    Ok::<ValueView, RuntimeErrorView>(ValueView::Nil),
                    text_of(None),
                    self.reporter@,
                ));
                None
            },
        }
    }

    /// Scans `code` into tokens and reports its lexical errors.
    pub fn scan_tokens<P: Fn(&String) -> u64>(&mut self, code: &str, parse_number: &P) -> (tokens:
        Vec<Token>)
        requires
            code@.len() < usize::MAX,
            forall|text: &String| number_lexeme(text@) ==> call_requires(*parse_number, (text,)),
        ensures
            all_scanned(tokens@, lexemes(code@, 0, 1), code@, *parse_number),
            final(self).reporter@ == old(self).reporter@.with_errors(diagnostics(code@, 0, 1)),
    {
        scan_tokens(&mut self.reporter, code, parse_number)
    }

    /// Scans and parses `code`. Where the parser fails there is no
    /// expression, and its diagnostic is on record.
    pub fn parse_code<P: Fn(&String) -> u64>(&mut self, code: &str, parse_number: &P) -> (parsed:
        Option<Expr>)
        requires
            code@.len() < usize::MAX,
            forall|text: &String| number_lexeme(text@) ==> call_requires(*parse_number, (text,)),
        ensures
            parsed matches Some(expr) ==> well_formed(expr@),
            parsed is None ==> final(self).reporter.had_error,
            exists|tokens: Seq<Token>|
                all_scanned(tokens, lexemes(code@, 0, 1), code@, *parse_number)
                    && #[trigger] parsed_code(
                    tokens,
                    code@,
                    old(self).reporter@,
                    final(self).reporter@,
                    parsed,
                ),
    {
        let tokens = self.scan_tokens(code, parse_number);
        let ghost scanned = tokens@;
        proof {
            lemma_lexemes_end(code@, 0, 1);
        }
        let parsed = parse(&mut self.reporter, tokens);
        assert(parsed_code(scanned, code@, old(self).reporter@, self.reporter@, parsed));
        parsed
    }
}

} // verus!
