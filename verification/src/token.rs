//! Tokens and runtime values.

use crate::number;
use crate::token_type::TokenType;
use vstd::prelude::*;
use vstd::std_specs::cmp::PartialEqSpecImpl;
use vstd::std_specs::convert::FromSpecImpl;

verus! {

/// `String::push` of the standard library. Its documentation says that it
/// appends the given character to the end of the string; the contract says
/// that, and nothing else, over the string's characters.
pub assume_specification[ std::string::String::push ](s: &mut std::string::String, c: char)
    ensures
        final(s)@ == old(s)@.push(c),
;

/// A literal or a runtime result.
#[derive(Debug)]
pub enum Value {
    /// A number, as the bit pattern of an IEEE 754 binary64 value.
    Number(u64),
    String(String),
    Bool(bool),
    /// The absence of a value.
    Nil,
}

/// The mathematical content of a [`Value`].
pub enum ValueView {
    Number(u64),
    String(Seq<char>),
    Bool(bool),
    Nil,
}

impl View for Value {
    type V = ValueView;

    open spec fn view(&self) -> ValueView {
        match self {
            Value::Number(bits) => ValueView::Number(*bits),
            Value::String(text) => ValueView::String(text@),
            Value::Bool(b) => ValueView::Bool(*b),
            Value::Nil => ValueView::Nil,
        }
    }
}

/// Whether `out` is the text of some string that `number` may return for
/// `bits`.
pub open spec fn number_shown<F: Fn(u64) -> String>(number: F, bits: u64, out: Seq<char>) -> bool {
    exists|s: String| s@ == out && #[trigger] call_ensures(number, (bits,), s)
}

impl ValueView {
    /// Equality of values: the same kind and equal contents, numbers compared
    /// as IEEE 754 compares them.
    pub open spec fn same(self, other: ValueView) -> bool {
        match (self, other) {
            (ValueView::Number(a), ValueView::Number(b)) => number::equal(a, b),
            (ValueView::String(a), ValueView::String(b)) => a == b,
            (ValueView::Bool(a), ValueView::Bool(b)) => a == b,
            (ValueView::Nil, ValueView::Nil) => true,
            _ => false,
        }
    }

    /// Whether `out` is a display form of the value, where `number` gives
    /// the decimal form of numbers: a string stands between double quotes, a
    /// boolean is `true` or `false`, and the absent value is `nil`.
    pub open spec fn shown_as<F: Fn(u64) -> String>(self, number: F, out: Seq<char>) -> bool {
        match self {
            ValueView::Number(bits) => number_shown(number, bits, out),
            ValueView::String(text) => out == seq!['"'] + text + seq!['"'],
            ValueView::Bool(b) => out == if b {
                "true"@
            } else {
                "false"@
            },
            ValueView::Nil => out == "nil"@,
        }
    }
}

impl Clone for Value {
    fn clone(&self) -> (r: Self)
        ensures
            r == *self,
    {
        match self {
            Value::Number(bits) => Value::Number(*bits),
            Value::String(text) => Value::String(text.clone()),
            Value::Bool(b) => Value::Bool(*b),
            Value::Nil => Value::Nil,
        }
    }
}

impl PartialEq for Value {
    fn eq(&self, other: &Self) -> (r: bool) {
        match (self, other) {
            (Value::Number(a), Value::Number(b)) => number::eq(*a, *b),
            (Value::String(a), Value::String(b)) => *a == *b,
            (Value::Bool(a), Value::Bool(b)) => *a == *b,
            (Value::Nil, Value::Nil) => true,
            _ => false,
        }
    }
}

impl PartialEqSpecImpl for Value {
    open spec fn obeys_eq_spec() -> bool {
        true
    }

    open spec fn eq_spec(&self, other: &Self) -> bool {
        self@.same(other@)
    }
}

impl From<bool> for Value {
    fn from(value: bool) -> (r: Self) {
        Value::Bool(value)
    }
}

impl FromSpecImpl<bool> for Value {
    open spec fn obeys_from_spec() -> bool {
        true
    }

    open spec fn from_spec(value: bool) -> Self {
        Value::Bool(value)
    }
}

impl From<String> for Value {
    fn from(value: String) -> (r: Self) {
        Value::String(value)
    }
}

impl FromSpecImpl<String> for Value {
    open spec fn obeys_from_spec() -> bool {
        true
    }

    open spec fn from_spec(value: String) -> Self {
        Value::String(value)
    }
}

impl<'a> From<&'a str> for Value {
    fn from(value: &'a str) -> (r: Self)
        ensures
            r@ == ValueView::String(value@),
    {
        Value::String(String::from_str(value))
    }
}

/// The string that `from` makes of a slice is a new one that no spec
/// function names, so the conversion is stated by the `ensures` of `from`,
/// over the characters, and not by `from_spec`.
impl<'a> FromSpecImpl<&'a str> for Value {
    open spec fn obeys_from_spec() -> bool {
        false
    }

    open spec fn from_spec(value: &'a str) -> Self {
        arbitrary()
    }
}

impl From<Option<String>> for Value {
    fn from(value: Option<String>) -> (r: Self) {
        match value {
            Some(s) => Value::String(s),
            None => Value::Nil,
        }
    }
}

impl FromSpecImpl<Option<String>> for Value {
    open spec fn obeys_from_spec() -> bool {
        true
    }

    open spec fn from_spec(value: Option<String>) -> Self {
        match value {
            Some(s) => Value::String(s),
            None => Value::Nil,
        }
    }
}

impl Value {
    /// The display form of the value: a number as `number` writes it, a
    /// string between double quotes, `true` or `false`, or `nil`.
    pub fn to_text<F: Fn(u64) -> String>(&self, number: &F) -> (out: String)
        requires
            forall|bits: u64| call_requires(*number, (bits,)),
        ensures
            self@.shown_as(*number, out@),
    {
        match self {
            Value::Number(bits) => {
                let out = number(*bits);
                assert(call_ensures(*number, (*bits,), out));
                out
            },
            Value::String(text) => {
                let mut out = String::new();
                out.push('"');
                out.append(text.as_str());
                out.push('"');
                assert(out@ =~= seq!['"'] + text@ + seq!['"']);
                out
            },
            Value::Bool(b) => {
                if *b {
                    String::from_str("true")
                } else {
                    String::from_str("false")
                }
            },
            Value::Nil => String::from_str("nil"),
        }
    }
}

/// A lexical token: its category, the text it was scanned from, its
/// literal value and the line it stands on.
#[derive(Debug)]
pub struct Token {
    pub token_type: TokenType,
    pub lexeme: String,
    pub literal: Value,
    pub line: usize,
}

/// The mathematical content of a [`Token`].
pub struct TokenView {
    pub token_type: TokenType,
    pub lexeme: Seq<char>,
    pub literal: ValueView,
    pub line: usize,
}

impl View for Token {
    type V = TokenView;

    open spec fn view(&self) -> TokenView {
        TokenView {
            token_type: self.token_type,
            lexeme: self.lexeme@,
            literal: self.literal@,
            line: self.line,
        }
    }
}

impl TokenView {
    /// Equality of tokens: equal category, text and line, and literals
    /// that are the same value.
    pub open spec fn same(self, other: TokenView) -> bool {
        &&& self.token_type == other.token_type
        &&& self.lexeme == other.lexeme
        &&& self.literal.same(other.literal)
        &&& self.line == other.line
    }
}

impl Token {
    pub fn new(token_type: TokenType, lexeme: String, literal: Value, line: usize) -> (token: Self)
        ensures
            token == (Token { token_type, lexeme, literal, line }),
    {
        Self { token_type, lexeme, literal, line }
    }
}

impl Clone for Token {
    fn clone(&self) -> (r: Self)
        ensures
            r == *self,
    {
        Token {
            token_type: self.token_type,
            lexeme: self.lexeme.clone(),
            literal: self.literal.clone(),
            line: self.line,
        }
    }
}

impl PartialEq for Token {
    fn eq(&self, other: &Self) -> (r: bool) {
        self.token_type == other.token_type && self.lexeme == other.lexeme && self.literal
            == other.literal && self.line == other.line
    }
}

impl PartialEqSpecImpl for Token {
    open spec fn obeys_eq_spec() -> bool {
        true
    }

    open spec fn eq_spec(&self, other: &Self) -> bool {
        self@.same(other@)
    }
}

} // verus!
