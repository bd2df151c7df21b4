//! Specified values: what a property's value is once it has been parsed, and
//! the declared value that wraps it.

use vstd::prelude::*;
use crate::names::{eq_ignore_ascii_case, eq_ignoring_ascii_case};
use crate::syntax::{ValueToken, ValueTokenView};

verus! {

/// A length in app units: sixtieths of a CSS pixel.
#[derive(Clone, Copy, Debug, PartialEq, Eq, Structural)]
pub struct Au(pub i32);

/// A specified length.
#[derive(Clone, Copy, Debug, PartialEq, Eq, Structural)]
pub enum Length {
    /// An absolute length.
    Au(Au),
}

/// A colour with a byte for each of red, green, blue and alpha.
#[derive(Clone, Copy, Debug, PartialEq, Eq, Structural)]
pub struct RGBA {
    pub red: u8,
    pub green: u8,
    pub blue: u8,
    pub alpha: u8,
}

/// A specified colour.
#[derive(Clone, Copy, Debug, PartialEq, Eq, Structural)]
pub enum CSSColor {
    /// The keyword `currentcolor`.
    CurrentColor,
    /// Any other colour.
    RGBA(RGBA),
}

/// A specified border style, each variant under its CSS keyword.
#[allow(non_camel_case_types)]
#[derive(Clone, Copy, Debug, PartialEq, Eq, Structural)]
pub enum BorderStyle {
    none,
    solid,
}

/// The value that a declaration gives to a property: a specified value, or
/// one of the two deferrals. The keyword `unset` has no variant of its own:
/// it is `Inherit` for an inherited property and `Initial` for any other.
#[derive(Clone, Copy, Debug, PartialEq, Eq)]
pub enum DeclaredValue<T> {
    SpecifiedValue(T),
    Initial,
    Inherit,
}

/// A keyword that every property takes in place of a value of its own.
#[derive(Clone, Copy, Debug, PartialEq, Eq, Structural)]
pub enum CssWideKeyword {
    Initial,
    Inherit,
    Unset,
}

/// The keyword that a value consists of, if it is one of the three that
/// every property takes.
pub open spec fn css_wide_keyword_of(token: ValueTokenView) -> Option<CssWideKeyword> {
    match token {
        ValueTokenView::Ident(word) => {
            if eq_ignoring_ascii_case(word, "initial"@) {
                Some(CssWideKeyword::Initial)
            } else if eq_ignoring_ascii_case(word, "inherit"@) {
                Some(CssWideKeyword::Inherit)
            } else if eq_ignoring_ascii_case(word, "unset"@) {
                Some(CssWideKeyword::Unset)
            } else {
                None
            }
        },
        _ => None,
    }
}

/// The border style that a value denotes: the keyword `none` or `solid`.
pub open spec fn border_style_of(token: ValueTokenView) -> Result<BorderStyle, ()> {
    match token {
        ValueTokenView::Ident(word) => {
            if eq_ignoring_ascii_case(word, "none"@) {
                Ok(BorderStyle::none)
            } else if eq_ignoring_ascii_case(word, "solid"@) {
                Ok(BorderStyle::solid)
            } else {
                Err(())
            }
        },
        _ => Err(()),
    }
}

/// A whole number of an absolute unit in app units, rounded towards zero:
/// 60 to the pixel, 96 pixels to the inch, 2.54 centimetres to the inch,
/// 72 points to the inch, 12 points to the pica. Nothing for any other unit.
pub open spec fn app_units_of(value: int, unit: Seq<char>) -> Option<int> {
    if eq_ignoring_ascii_case(unit, "px"@) {
        Some(value * 60)
    } else if eq_ignoring_ascii_case(unit, "in"@) {
        Some(value * 5760)
    } else if eq_ignoring_ascii_case(unit, "cm"@) {
        Some(value * 288000 / 127)
    } else if eq_ignoring_ascii_case(unit, "mm"@) {
        Some(value * 28800 / 127)
    } else if eq_ignoring_ascii_case(unit, "pt"@) {
        Some(value * 80)
    } else if eq_ignoring_ascii_case(unit, "pc"@) {
        Some(value * 960)
    } else {
        None
    }
}

/// The length that a value denotes where no negative length is allowed: a
/// whole, non-negative number of an absolute unit that comes to no more app
/// units than an `i32` holds, or the number 0 without a unit.
pub open spec fn non_negative_length_of(token: ValueTokenView) -> Result<Length, ()> {
    match token {
        ValueTokenView::Number { int_value: Some(value) } => {
            if value == 0 {
                Ok(Length::Au(Au(0)))
            } else {
                Err(())
            }
        },
        ValueTokenView::Dimension { int_value: Some(value), unit } => {
            match app_units_of(value as int, unit) {
                Some(au) => {
                    if value >= 0 && au <= i32::MAX {
                        Ok(Length::Au(Au(au as i32)))
                    } else {
                        Err(())
                    }
                },
                None => Err(()),
            }
        },
        _ => Err(()),
    }
}

/// The declared value that a value denotes for a property: what one of the
/// three keywords stands for, or else the property's own specified value.
/// `unset` is `Inherit` for an inherited property and `Initial` for any other.
pub open spec fn declared_value_of<T>(
    token: ValueTokenView,
    specified: Result<T, ()>,
    inherited: bool,
) -> Result<DeclaredValue<T>, ()> {
    match css_wide_keyword_of(token) {
        Some(CssWideKeyword::Initial) => Ok(DeclaredValue::Initial),
        Some(CssWideKeyword::Inherit) => Ok(DeclaredValue::Inherit),
        Some(CssWideKeyword::Unset) => Ok(
            if inherited {
                DeclaredValue::Inherit
            } else {
                DeclaredValue::Initial
            },
        ),
        None => match specified {
            Ok(value) => Ok(DeclaredValue::SpecifiedValue(value)),
            Err(_) => Err(()),
        },
    }
}

/// Reads a value as one of the three keywords that every property takes.
pub fn css_wide_keyword(token: &ValueToken) -> (keyword: Option<CssWideKeyword>)
    ensures
        keyword == css_wide_keyword_of(token@),
{
    match token {
        ValueToken::Ident(word) => {
            if eq_ignore_ascii_case(word.as_str(), "initial") {
                Some(CssWideKeyword::Initial)
            } else if eq_ignore_ascii_case(word.as_str(), "inherit") {
                Some(CssWideKeyword::Inherit)
            } else if eq_ignore_ascii_case(word.as_str(), "unset") {
                Some(CssWideKeyword::Unset)
            } else {
                None
            }
        },
        _ => None,
    }
}

/// Parses a border style.
pub fn parse_border_style(token: &ValueToken) -> (style: Result<BorderStyle, ()>)
    ensures
        style == border_style_of(token@),
{
    match token {
        ValueToken::Ident(word) => {
            if eq_ignore_ascii_case(word.as_str(), "none") {
                Ok(BorderStyle::none)
            } else if eq_ignore_ascii_case(word.as_str(), "solid") {
                Ok(BorderStyle::solid)
            } else {
                Err(())
            }
        },
        _ => Err(()),
    }
}

/// Converts a whole, non-negative number of an absolute unit to app units.
fn app_units(value: i32, unit: &str) -> (au: Option<i64>)
    requires
        value >= 0,
    ensures
        au matches Some(n) ==> app_units_of(value as int, unit@) == Some(n as int),
        au is None ==> app_units_of(value as int, unit@) is None,
{
    let wide: i64 = value as i64;
    if eq_ignore_ascii_case(unit, "px") {
        Some(wide * 60)
    } else if eq_ignore_ascii_case(unit, "in") {
        Some(wide * 5760)
    } else if eq_ignore_ascii_case(unit, "cm") {
        Some(wide * 288000 / 127)
    } else if eq_ignore_ascii_case(unit, "mm") {
        Some(wide * 28800 / 127)
    } else if eq_ignore_ascii_case(unit, "pt") {
        Some(wide * 80)
    } else if eq_ignore_ascii_case(unit, "pc") {
        Some(wide * 960)
    } else {
        None
    }
}

/// Parses a length that may not be negative.
pub fn parse_non_negative_length(token: &ValueToken) -> (length: Result<Length, ()>)
    ensures
        length == non_negative_length_of(token@),
{
    match token {
        ValueToken::Number { int_value: Some(value) } => {
            if *value == 0 {
                Ok(Length::Au(Au(0)))
            } else {
                Err(())
            }
        },
        ValueToken::Dimension { int_value: Some(value), unit } => {
            if *value < 0 {
                return Err(());
            }
            match app_units(*value, unit.as_str()) {
                Some(au) => {
                    if au <= i32::MAX as i64 {
                        Ok(Length::Au(Au(au as i32)))
                    } else {
                        Err(())
                    }
                },
                None => Err(()),
            }
        },
        _ => Err(()),
    }
}

/// Reads a value as the declared value of a property whose own parser gave
/// `specified` for it.
pub fn declared_value<T>(token: &ValueToken, specified: Result<T, ()>, inherited: bool) -> (value:
    Result<DeclaredValue<T>, ()>)
    ensures
        value == declared_value_of(token@, specified, inherited),
{
    match css_wide_keyword(token) {
        Some(CssWideKeyword::Initial) => Ok(DeclaredValue::Initial),
        Some(CssWideKeyword::Inherit) => Ok(DeclaredValue::Inherit),
        Some(CssWideKeyword::Unset) => Ok(
            if inherited {
                DeclaredValue::Inherit
            } else {
                DeclaredValue::Initial
            },
        ),
        None => match specified {
            Ok(value) => Ok(DeclaredValue::SpecifiedValue(value)),
            Err(_) => Err(()),
        },
    }
}

} // verus!
