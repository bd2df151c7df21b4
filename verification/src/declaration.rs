//! Typed declarations, and the resolution of one raw declaration: the name
//! is looked up in the registry, the value is parsed for the property that
//! was found, and the outcome is classified.

use vstd::prelude::*;
use crate::registry::{
    Longhand, PropertyName, PropertyRegistry, Shorthand, ValueType, property_named,
};
use crate::syntax::{
    ValueToken, ValueTokenView, color_of_text, read_color, read_sole_token, sole_token,
};
use crate::values::{
    Au, BorderStyle, CSSColor, DeclaredValue, Length, border_style_of, declared_value,
    declared_value_of, non_negative_length_of, parse_border_style, parse_non_negative_length,
};

verus! {

/// `url::Url`, the address against which a value's relative addresses are
/// resolved. Nothing is claimed of it: the library carries it through to the
/// value parsers and never looks inside.
#[verifier::external_type_specification]
#[verifier::external_body]
pub struct ExUrl(url::Url);

/// A declaration of one longhand: one variant for each registered longhand,
/// with a declared value of that longhand's own type.
#[derive(Clone, Copy, Debug, PartialEq, Eq)]
pub enum PropertyDeclaration {
    BorderTopColor(DeclaredValue<CSSColor>),
    BorderRightColor(DeclaredValue<CSSColor>),
    BorderBottomColor(DeclaredValue<CSSColor>),
    BorderLeftColor(DeclaredValue<CSSColor>),
    BorderTopStyle(DeclaredValue<BorderStyle>),
    BorderTopWidth(DeclaredValue<Length>),
    BorderLeftStyle(DeclaredValue<BorderStyle>),
    BorderLeftWidth(DeclaredValue<Length>),
}

/// How the resolution of one raw declaration ended.
#[derive(Clone, Copy, Debug, PartialEq, Eq, Structural)]
pub enum PropertyDeclarationParseResult {
    /// The name is that of no longhand and of no shorthand.
    UnknownProperty,
    /// The property is experimental, and experimental properties are off.
    ExperimentalProperty,
    /// The property was found, and its parser refused the value.
    InvalidValue,
    /// Declarations were produced.
    ValidOrIgnoredDeclaration,
}

/// What a border-side shorthand's parser found for each of its longhands;
/// a longhand for which it found nothing is declared `Initial`.
#[derive(Clone, Copy, Debug, PartialEq, Eq)]
pub struct BorderSideLonghands {
    pub color: Option<CSSColor>,
    pub style: Option<BorderStyle>,
    pub width: Option<Length>,
}

/// One raw declaration resolved: the outcome, and the declarations that it
/// contributes.
pub struct Resolution {
    pub outcome: PropertyDeclarationParseResult,
    pub declarations: Seq<PropertyDeclaration>,
}

impl PropertyDeclaration {
    /// The longhand that the declaration is of.
    pub open spec fn longhand_spec(self) -> Longhand {
        match self {
            PropertyDeclaration::BorderTopColor(_) => Longhand::BorderTopColor,
            PropertyDeclaration::BorderRightColor(_) => Longhand::BorderRightColor,
            PropertyDeclaration::BorderBottomColor(_) => Longhand::BorderBottomColor,
            PropertyDeclaration::BorderLeftColor(_) => Longhand::BorderLeftColor,
            PropertyDeclaration::BorderTopStyle(_) => Longhand::BorderTopStyle,
            PropertyDeclaration::BorderTopWidth(_) => Longhand::BorderTopWidth,
            PropertyDeclaration::BorderLeftStyle(_) => Longhand::BorderLeftStyle,
            PropertyDeclaration::BorderLeftWidth(_) => Longhand::BorderLeftWidth,
        }
    }

    /// The longhand that the declaration is of.
    pub fn longhand(&self) -> (property: Longhand)
        ensures
            property == self.longhand_spec(),
    {
        match self {
            PropertyDeclaration::BorderTopColor(_) => Longhand::BorderTopColor,
            PropertyDeclaration::BorderRightColor(_) => Longhand::BorderRightColor,
            PropertyDeclaration::BorderBottomColor(_) => Longhand::BorderBottomColor,
            PropertyDeclaration::BorderLeftColor(_) => Longhand::BorderLeftColor,
            PropertyDeclaration::BorderTopStyle(_) => Longhand::BorderTopStyle,
            PropertyDeclaration::BorderTopWidth(_) => Longhand::BorderTopWidth,
            PropertyDeclaration::BorderLeftStyle(_) => Longhand::BorderLeftStyle,
            PropertyDeclaration::BorderLeftWidth(_) => Longhand::BorderLeftWidth,
        }
    }
}

/// A colour that was read from a value, as the result of a value parser.
pub open spec fn color_result(color: Option<CSSColor>) -> Result<CSSColor, ()> {
    match color {
        Some(c) => Ok(c),
        None => Err(()),
    }
}

/// The declaration of a colour longhand with the given value.
pub open spec fn color_declaration(
    property: Longhand,
    value: DeclaredValue<CSSColor>,
) -> PropertyDeclaration {
    match property {
        Longhand::BorderRightColor => PropertyDeclaration::BorderRightColor(value),
        Longhand::BorderBottomColor => PropertyDeclaration::BorderBottomColor(value),
        Longhand::BorderLeftColor => PropertyDeclaration::BorderLeftColor(value),
        _ => PropertyDeclaration::BorderTopColor(value),
    }
}

/// The declaration of a style longhand with the given value.
pub open spec fn style_declaration(
    property: Longhand,
    value: DeclaredValue<BorderStyle>,
) -> PropertyDeclaration {
    match property {
        Longhand::BorderLeftStyle => PropertyDeclaration::BorderLeftStyle(value),
        _ => PropertyDeclaration::BorderTopStyle(value),
    }
}

/// The declaration of a width longhand with the given value.
pub open spec fn width_declaration(
    property: Longhand,
    value: DeclaredValue<Length>,
) -> PropertyDeclaration {
    match property {
        Longhand::BorderLeftWidth => PropertyDeclaration::BorderLeftWidth(value),
        _ => PropertyDeclaration::BorderTopWidth(value),
    }
}

/// The declaration that a value gives for a longhand. `token` is the token
/// that the value consists of, `color` the colour that it denotes; the colour
/// counts for the colour longhands alone.
pub open spec fn longhand_declaration(
    property: Longhand,
    token: ValueTokenView,
    color: Option<CSSColor>,
) -> Result<PropertyDeclaration, ()> {
    let inherited = property.is_inherited_spec();
    match property {
        Longhand::BorderTopColor
        | Longhand::BorderRightColor
        | Longhand::BorderBottomColor
        | Longhand::BorderLeftColor => match declared_value_of(
            token,
            color_result(color),
            inherited,
        ) {
            Ok(value) => Ok(color_declaration(property, value)),
            Err(_) => Err(()),
        },
        Longhand::BorderTopStyle | Longhand::BorderLeftStyle => match declared_value_of(
            token,
            border_style_of(token),
            inherited,
        ) {
            Ok(value) => Ok(style_declaration(property, value)),
            Err(_) => Err(()),
        },
        Longhand::BorderTopWidth | Longhand::BorderLeftWidth => match declared_value_of(
            token,
            non_negative_length_of(token),
            inherited,
        ) {
            Ok(value) => Ok(width_declaration(property, value)),
            Err(_) => Err(()),
        },
    }
}

/// What the parser of the border-side shorthands finds, whatever the value:
/// a width of zero, and neither a colour nor a style.
pub open spec fn border_side_longhands() -> BorderSideLonghands {
    BorderSideLonghands { color: None, style: None, width: Some(Length::Au(Au(0))) }
}

/// The declared value of a longhand for which a shorthand's parser found
/// `found`: that value, or `Initial` where it found none.
pub open spec fn expanded_value<T>(found: Option<T>) -> DeclaredValue<T> {
    match found {
        Some(value) => DeclaredValue::SpecifiedValue(value),
        None => DeclaredValue::Initial,
    }
}

/// The declarations that a shorthand expands to: one for each of its
/// longhands, in the order colour, style, width.
pub open spec fn shorthand_declarations(
    shorthand: Shorthand,
    found: BorderSideLonghands,
) -> Seq<PropertyDeclaration> {
    let longhands = shorthand.longhands_spec();
    seq![
        color_declaration(longhands[0], expanded_value(found.color)),
        style_declaration(longhands[1], expanded_value(found.style)),
        width_declaration(longhands[2], expanded_value(found.width)),
    ]
}

/// The resolution of one raw declaration. `token` and `color` are what the
/// value's text holds. An experimental property is refused before its value
/// is looked at.
pub open spec fn resolution(
    registry: PropertyRegistry,
    name: Seq<char>,
    token: ValueTokenView,
    color: Option<CSSColor>,
    experimental_enabled: bool,
) -> Resolution {
    match property_named(name) {
        PropertyName::Unknown => Resolution {
            outcome: PropertyDeclarationParseResult::UnknownProperty,
            declarations: Seq::empty(),
        },
        PropertyName::Longhand(property) => {
            if registry.longhand_is_experimental(property) && !experimental_enabled {
                Resolution {
                    outcome: PropertyDeclarationParseResult::ExperimentalProperty,
                    declarations: Seq::empty(),
                }
            } else {
                match longhand_declaration(property, token, color) {
                    Ok(declaration) => Resolution {
                        outcome: PropertyDeclarationParseResult::ValidOrIgnoredDeclaration,
                        declarations: seq![declaration],
                    },
                    Err(_) => Resolution {
                        outcome: PropertyDeclarationParseResult::InvalidValue,
                        declarations: Seq::empty(),
                    },
                }
            }
        },
        PropertyName::Shorthand(shorthand) => {
            if registry.shorthand_is_experimental(shorthand) && !experimental_enabled {
                Resolution {
                    outcome: PropertyDeclarationParseResult::ExperimentalProperty,
                    declarations: Seq::empty(),
                }
            } else {
                Resolution {
                    outcome: PropertyDeclarationParseResult::ValidOrIgnoredDeclaration,
                    declarations: shorthand_declarations(shorthand, border_side_longhands()),
                }
            }
        },
    }
}

/// Whether a property name stands for a longhand: as the longhand's own name,
/// or as the name of a shorthand that covers it.
pub open spec fn names_longhand(name: Seq<char>, property: Longhand) -> bool {
    match property_named(name) {
        PropertyName::Longhand(longhand) => longhand == property,
        PropertyName::Shorthand(shorthand) => shorthand.longhands_spec().contains(property),
        PropertyName::Unknown => false,
    }
}

/// A declaration that a value gives for a longhand is of that longhand.
pub proof fn lemma_longhand_declaration_is_of(
    property: Longhand,
    token: ValueTokenView,
    color: Option<CSSColor>,
)
    ensures
        longhand_declaration(property, token, color) matches Ok(declaration)
            ==> declaration.longhand_spec() == property,
{
}

/// A raw declaration yields declarations only of the longhands that its name
/// stands for: one of the longhand that it names, or one of each longhand of
/// the shorthand that it names, and none unless it is valid.
pub proof fn lemma_resolution_names_property(
    registry: PropertyRegistry,
    name: Seq<char>,
    token: ValueTokenView,
    color: Option<CSSColor>,
    experimental_enabled: bool,
)
    ensures
        ({
            let resolved = resolution(registry, name, token, color, experimental_enabled);
            &&& forall|k: int|
                0 <= k < resolved.declarations.len() ==> names_longhand(
                    name,
                    (#[trigger] resolved.declarations[k]).longhand_spec(),
                )
            &&& distinct_longhands(resolved.declarations)
            &&& resolved.outcome != PropertyDeclarationParseResult::ValidOrIgnoredDeclaration
                ==> resolved.declarations.len() == 0
            &&& resolved.outcome == PropertyDeclarationParseResult::ValidOrIgnoredDeclaration
                ==> resolved.declarations.len() == match property_named(name) {
                PropertyName::Shorthand(shorthand) => shorthand.longhands_spec().len(),
                _ => 1,
            }
        }),
{
    let resolved = resolution(registry, name, token, color, experimental_enabled);
    match property_named(name) {
        PropertyName::Unknown => {},
        PropertyName::Longhand(property) => {
            lemma_longhand_declaration_is_of(property, token, color);
        },
        PropertyName::Shorthand(shorthand) => {
            let longhands = shorthand.longhands_spec();
            assert(longhands.contains(longhands[0]));
            assert(longhands.contains(longhands[1]));
            assert(longhands.contains(longhands[2]));
        },
    }
}

/// Whether no two declarations of the sequence are of the same longhand.
pub open spec fn distinct_longhands(declarations: Seq<PropertyDeclaration>) -> bool {
    forall|i: int, j: int|
        0 <= i < j < declarations.len() ==> (#[trigger] declarations[i]).longhand_spec() != (
        #[trigger] declarations[j]).longhand_spec()
}

/// Builds the declaration of a longhand from what the value's text holds:
/// `token` is the token that it consists of, `color` the colour that it
/// denotes.
pub fn resolve_longhand(
    property: Longhand,
    token: &ValueToken,
    color: Option<CSSColor>,
) -> (declaration: Result<PropertyDeclaration, ()>)
    ensures
        declaration == longhand_declaration(property, token@, color),
{
    let inherited = property.is_inherited();
    match property {
        Longhand::BorderTopColor
        | Longhand::BorderRightColor
        | Longhand::BorderBottomColor
        | Longhand::BorderLeftColor => {
            let specified = match color {
                Some(c) => Ok(c),
                None => Err(()),
            };
            match declared_value(token, specified, inherited) {
                Ok(value) => Ok(
                    match property {
                        Longhand::BorderRightColor => PropertyDeclaration::BorderRightColor(value),
                        Longhand::BorderBottomColor => PropertyDeclaration::BorderBottomColor(
                            value,
                        ),
                        Longhand::BorderLeftColor => PropertyDeclaration::BorderLeftColor(value),
                        _ => PropertyDeclaration::BorderTopColor(value),
                    },
                ),
                Err(_) => Err(()),
            }
        },
        Longhand::BorderTopStyle | Longhand::BorderLeftStyle => {
            match declared_value(token, parse_border_style(token), inherited) {
                Ok(value) => Ok(
                    match property {
                        Longhand::BorderLeftStyle => PropertyDeclaration::BorderLeftStyle(value),
                        _ => PropertyDeclaration::BorderTopStyle(value),
                    },
                ),
                Err(_) => Err(()),
            }
        },
        Longhand::BorderTopWidth | Longhand::BorderLeftWidth => {
            match declared_value(token, parse_non_negative_length(token), inherited) {
                Ok(value) => Ok(
                    match property {
                        Longhand::BorderLeftWidth => PropertyDeclaration::BorderLeftWidth(value),
                        _ => PropertyDeclaration::BorderTopWidth(value),
                    },
                ),
                Err(_) => Err(()),
            }
        },
    }
}

/// Parses the value of a border-side shorthand. The value is not looked at:
/// the parser gives a width of zero and leaves colour and style open.
pub fn parse_border_side(_value: &str, _base_url: &url::Url) -> (found: Result<
    BorderSideLonghands,
    (),
>)
    ensures
        found == Ok::<BorderSideLonghands, ()>(border_side_longhands()),
{
    Ok(BorderSideLonghands { color: None, style: None, width: Some(Length::Au(Au(0))) })
}

/// Appends the declarations that a shorthand expands to: one for each of its
/// longhands, `Initial` for those that its parser left open.
pub fn expand_shorthand(
    shorthand: Shorthand,
    found: BorderSideLonghands,
    result_list: &mut Vec<PropertyDeclaration>,
)
    ensures
        final(result_list)@ == old(result_list)@ + shorthand_declarations(shorthand, found),
{
    let color = match found.color {
        Some(value) => DeclaredValue::SpecifiedValue(value),
        None => DeclaredValue::Initial,
    };
    let style = match found.style {
        Some(value) => DeclaredValue::SpecifiedValue(value),
        None => DeclaredValue::Initial,
    };
    let width = match found.width {
        Some(value) => DeclaredValue::SpecifiedValue(value),
        None => DeclaredValue::Initial,
    };
    match shorthand {
        Shorthand::BorderTop => {
            result_list.push(PropertyDeclaration::BorderTopColor(color));
            result_list.push(PropertyDeclaration::BorderTopStyle(style));
            result_list.push(PropertyDeclaration::BorderTopWidth(width));
        },
        Shorthand::BorderLeft => {
            result_list.push(PropertyDeclaration::BorderLeftColor(color));
            result_list.push(PropertyDeclaration::BorderLeftStyle(style));
            result_list.push(PropertyDeclaration::BorderLeftWidth(width));
        },
    }
    assert(result_list@ =~= old(result_list)@ + shorthand_declarations(shorthand, found));
}

/// Resolves one raw declaration: looks the name up, longhands first, parses
/// the value for the property that was found, and appends to `result_list`
/// the declarations that come of it: one for a longhand, one for each of its
/// longhands for a shorthand, none unless the outcome is
/// `ValidOrIgnoredDeclaration`.
pub fn parse_property_declaration(
    registry: &PropertyRegistry,
    name: &str,
    value: &str,
    result_list: &mut Vec<PropertyDeclaration>,
    base_url: &url::Url,
    experimental_enabled: bool,
) -> (outcome: PropertyDeclarationParseResult)
    ensures
        outcome == resolution(
            *registry,
            name@,
            sole_token(value@),
            color_of_text(value@),
            experimental_enabled,
        ).outcome,
        final(result_list)@ == old(result_list)@ + resolution(
            *registry,
            name@,
            sole_token(value@),
            color_of_text(value@),
            experimental_enabled,
        ).declarations,
{
    match registry.find(name) {
        PropertyName::Unknown => PropertyDeclarationParseResult::UnknownProperty,
        PropertyName::Longhand(property) => {
            if registry.is_longhand_experimental(property) && !experimental_enabled {
                return PropertyDeclarationParseResult::ExperimentalProperty;
            }
            let token = read_sole_token(value);
            let color = match property.value_type() {
                ValueType::Color => read_color(value),
                _ => None,
            };
            match resolve_longhand(property, &token, color) {
                Ok(declaration) => {
                    result_list.push(declaration);
                    assert(result_list@ =~= old(result_list)@ + seq![declaration]);
                    PropertyDeclarationParseResult::ValidOrIgnoredDeclaration
                },
                Err(_) => PropertyDeclarationParseResult::InvalidValue,
            }
        },
        PropertyName::Shorthand(shorthand) => {
            if registry.is_shorthand_experimental(shorthand) && !experimental_enabled {
                return PropertyDeclarationParseResult::ExperimentalProperty;
            }
            match parse_border_side(value, base_url) {
                Ok(found) => {
                    expand_shorthand(shorthand, found, result_list);
                    PropertyDeclarationParseResult::ValidOrIgnoredDeclaration
                },
                Err(_) => PropertyDeclarationParseResult::InvalidValue,
            }
        },
    }
}

} // verus!
