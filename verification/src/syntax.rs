//! What comes from the CSS syntax layer: the items of a declaration list as
//! that layer hands them over, and the value grammar, which the `cssparser`
//! crate owns. What a value's text holds is read through the two functions
//! at the end.

use vstd::prelude::*;
use crate::values::{CSSColor, RGBA};

verus! {

/// A place in a style sheet's text.
#[derive(Clone, Copy, Debug, PartialEq, Eq, Structural)]
pub struct SourceLocation {
    /// The line, counted from 0.
    pub line: u32,
    /// The column, counted from 1.
    pub column: u32,
}

/// A raw declaration: a property name, the text of its value, and whether it
/// was marked `!important`.
#[derive(Clone, Debug, PartialEq, Eq)]
pub struct Declaration {
    pub location: SourceLocation,
    pub name: String,
    pub value: String,
    pub important: bool,
}

/// An at-rule that stands among declarations.
#[derive(Clone, Debug, PartialEq, Eq)]
pub struct AtRule {
    pub location: SourceLocation,
    pub name: String,
}

/// An item of a declaration list.
#[derive(Clone, Debug, PartialEq, Eq)]
pub enum DeclarationListItem {
    Declaration(Declaration),
    DeclAtRule(AtRule),
}

/// The one token that a value consists of, as far as the value parsers read
/// it. A number or a dimension carries its integer value when it was written
/// without a fractional part.
#[derive(Clone, Debug, PartialEq, Eq)]
pub enum ValueToken {
    Ident(String),
    Number { int_value: Option<i32> },
    Dimension { int_value: Option<i32>, unit: String },
    /// Any other token, no token at all, or more than one.
    Other,
}

/// A `ValueToken` with its strings as sequences of characters.
pub enum ValueTokenView {
    Ident(Seq<char>),
    Number { int_value: Option<i32> },
    Dimension { int_value: Option<i32>, unit: Seq<char> },
    Other,
}

impl View for ValueToken {
    type V = ValueTokenView;

    open spec fn view(&self) -> ValueTokenView {
        match *self {
            ValueToken::Ident(s) => ValueTokenView::Ident(s@),
            ValueToken::Number { int_value } => ValueTokenView::Number { int_value },
            ValueToken::Dimension { int_value, unit } => ValueTokenView::Dimension {
                int_value,
                unit: unit@,
            },
            ValueToken::Other => ValueTokenView::Other,
        }
    }
}

/// The token that `text` consists of, where it consists of exactly one apart
/// from white space and comments; `Other` where it does not.
pub uninterp spec fn sole_token(text: Seq<char>) -> ValueTokenView;

/// The colour that `text` denotes, where the whole of it is one CSS colour.
pub uninterp spec fn color_of_text(text: Seq<char>) -> Option<CSSColor>;

/// Reads the first token of `text` with `cssparser::Parser::next` and then
/// asks `cssparser::Parser::expect_exhausted` whether anything follows. The
/// contract claims only that the outcome depends on the text alone: an
/// identifier, a number or a dimension that stands alone comes back as such,
/// everything else as `Other`.
#[verifier::external_body]
pub(crate) fn read_sole_token(text: &str) -> (token: ValueToken)
    ensures
        token@ == sole_token(text@),
{
    let mut input = cssparser::ParserInput::new(text);
    let mut parser = cssparser::Parser::new(&mut input);
    let first = parser.next().cloned();
    match (first, parser.expect_exhausted()) {
        (Ok(cssparser::Token::Ident(s)), Ok(())) => ValueToken::Ident(s.to_string()),
        (Ok(cssparser::Token::Number { int_value, .. }), Ok(())) => {
            ValueToken::Number { int_value }
        },
        (Ok(cssparser::Token::Dimension { int_value, unit, .. }), Ok(())) => {
            ValueToken::Dimension { int_value, unit: unit.to_string() }
        },
        _ => ValueToken::Other,
    }
}

/// Parses `text` with `cssparser::Color::parse` and then asks
/// `cssparser::Parser::expect_exhausted` whether anything follows. The
/// contract claims only that the outcome depends on the text alone: the colour
/// where the whole text is one, nothing where it is not.
#[verifier::external_body]
pub(crate) fn read_color(text: &str) -> (color: Option<CSSColor>)
    ensures
        color == color_of_text(text@),
{
    let mut input = cssparser::ParserInput::new(text);
    let mut parser = cssparser::Parser::new(&mut input);
    let parsed = cssparser::Color::parse(&mut parser);
    match (parsed, parser.expect_exhausted()) {
        (Ok(cssparser::Color::CurrentColor), Ok(())) => Some(CSSColor::CurrentColor),
        (Ok(cssparser::Color::RGBA(c)), Ok(())) => {
            Some(CSSColor::RGBA(RGBA { red: c.red, green: c.green, blue: c.blue, alpha: c.alpha }))
        },
        _ => None,
    }
}

} // verus!
