use style::declaration::{resolve_longhand, PropertyDeclaration};
use style::registry::Longhand;
use style::syntax::ValueToken;
use style::values::{
    css_wide_keyword, declared_value, parse_border_style, parse_non_negative_length, Au,
    BorderStyle, CSSColor, CssWideKeyword, Length, RGBA,
};
use style::DeclaredValue;

fn ident(word: &str) -> ValueToken {
    ValueToken::Ident(word.to_string())
}

fn dimension(value: i32, unit: &str) -> ValueToken {
    ValueToken::Dimension { int_value: Some(value), unit: unit.to_string() }
}

#[test]
fn the_three_keywords_are_recognised() {
    assert_eq!(css_wide_keyword(&ident("initial")), Some(CssWideKeyword::Initial));
    assert_eq!(css_wide_keyword(&ident("inherit")), Some(CssWideKeyword::Inherit));
    assert_eq!(css_wide_keyword(&ident("unset")), Some(CssWideKeyword::Unset));
    assert_eq!(css_wide_keyword(&ident("INHERIT")), Some(CssWideKeyword::Inherit));
    assert_eq!(css_wide_keyword(&ident("Unset")), Some(CssWideKeyword::Unset));
}

#[test]
fn other_values_are_no_keywords() {
    assert_eq!(css_wide_keyword(&ident("solid")), None);
    assert_eq!(css_wide_keyword(&ident("initial2")), None);
    assert_eq!(css_wide_keyword(&ident("")), None);
    assert_eq!(css_wide_keyword(&ValueToken::Other), None);
    assert_eq!(css_wide_keyword(&ValueToken::Number { int_value: Some(0) }), None);
    assert_eq!(css_wide_keyword(&dimension(1, "initial")), None);
}

#[test]
fn border_styles_are_none_and_solid() {
    assert_eq!(parse_border_style(&ident("none")), Ok(BorderStyle::none));
    assert_eq!(parse_border_style(&ident("solid")), Ok(BorderStyle::solid));
    assert_eq!(parse_border_style(&ident("SOLID")), Ok(BorderStyle::solid));
    assert_eq!(parse_border_style(&ident("None")), Ok(BorderStyle::none));
}

#[test]
fn other_border_styles_are_refused() {
    assert_eq!(parse_border_style(&ident("dotted")), Err(()));
    assert_eq!(parse_border_style(&ident("solid ")), Err(()));
    assert_eq!(parse_border_style(&ValueToken::Other), Err(()));
    assert_eq!(parse_border_style(&dimension(1, "px")), Err(()));
    assert_eq!(parse_border_style(&ValueToken::Number { int_value: Some(0) }), Err(()));
}

#[test]
fn lengths_convert_to_app_units() {
    assert_eq!(parse_non_negative_length(&dimension(1, "px")), Ok(Length::Au(Au(60))));
    assert_eq!(parse_non_negative_length(&dimension(3, "px")), Ok(Length::Au(Au(180))));
    assert_eq!(parse_non_negative_length(&dimension(2, "in")), Ok(Length::Au(Au(11520))));
    assert_eq!(parse_non_negative_length(&dimension(1, "cm")), Ok(Length::Au(Au(2267))));
    assert_eq!(parse_non_negative_length(&dimension(127, "cm")), Ok(Length::Au(Au(288000))));
    assert_eq!(parse_non_negative_length(&dimension(1, "mm")), Ok(Length::Au(Au(226))));
    assert_eq!(parse_non_negative_length(&dimension(10, "mm")), Ok(Length::Au(Au(2267))));
    assert_eq!(parse_non_negative_length(&dimension(3, "pt")), Ok(Length::Au(Au(240))));
    assert_eq!(parse_non_negative_length(&dimension(1, "pc")), Ok(Length::Au(Au(960))));
}

#[test]
fn units_are_found_in_any_ascii_case() {
    assert_eq!(parse_non_negative_length(&dimension(1, "PX")), Ok(Length::Au(Au(60))));
    assert_eq!(parse_non_negative_length(&dimension(1, "In")), Ok(Length::Au(Au(5760))));
    assert_eq!(parse_non_negative_length(&dimension(1, "pT")), Ok(Length::Au(Au(80))));
}

#[test]
fn zero_is_a_length_with_or_without_unit() {
    assert_eq!(
        parse_non_negative_length(&ValueToken::Number { int_value: Some(0) }),
        Ok(Length::Au(Au(0)))
    );
    assert_eq!(parse_non_negative_length(&dimension(0, "px")), Ok(Length::Au(Au(0))));
    assert_eq!(parse_non_negative_length(&dimension(0, "cm")), Ok(Length::Au(Au(0))));
}

#[test]
fn what_is_no_length_is_refused() {
    assert_eq!(parse_non_negative_length(&ValueToken::Number { int_value: Some(5) }), Err(()));
    assert_eq!(parse_non_negative_length(&ValueToken::Number { int_value: Some(-1) }), Err(()));
    assert_eq!(parse_non_negative_length(&ValueToken::Number { int_value: None }), Err(()));
    assert_eq!(parse_non_negative_length(&dimension(-1, "px")), Err(()));
    assert_eq!(parse_non_negative_length(&dimension(1, "em")), Err(()));
    assert_eq!(parse_non_negative_length(&dimension(1, "")), Err(()));
    assert_eq!(parse_non_negative_length(&dimension(1, "pxx")), Err(()));
    assert_eq!(
        parse_non_negative_length(&ValueToken::Dimension {
            int_value: None,
            unit: "px".to_string()
        }),
        Err(())
    );
    assert_eq!(parse_non_negative_length(&ident("not-a-length")), Err(()));
    assert_eq!(parse_non_negative_length(&ValueToken::Other), Err(()));
}

#[test]
fn lengths_stop_at_the_largest_app_unit() {
    // 35791394 * 60 = 2147483640, the last multiple of 60 that an i32 holds.
    assert_eq!(
        parse_non_negative_length(&dimension(35791394, "px")),
        Ok(Length::Au(Au(2147483640)))
    );
    assert_eq!(parse_non_negative_length(&dimension(35791395, "px")), Err(()));
    assert_eq!(parse_non_negative_length(&dimension(i32::MAX, "px")), Err(()));
    assert_eq!(parse_non_negative_length(&dimension(i32::MAX, "in")), Err(()));
    assert_eq!(parse_non_negative_length(&dimension(i32::MAX, "cm")), Err(()));
    assert_eq!(parse_non_negative_length(&dimension(i32::MIN, "px")), Err(()));
    // 946957 * 288000 / 127 = 2147430047 and a fraction.
    assert_eq!(
        parse_non_negative_length(&dimension(946957, "cm")),
        Ok(Length::Au(Au(2147430047)))
    );
    assert_eq!(parse_non_negative_length(&dimension(946981, "cm")), Err(()));
}

#[test]
fn a_keyword_goes_before_the_specified_value() {
    let specified: Result<u8, ()> = Ok(7);
    assert_eq!(declared_value(&ident("initial"), specified, false), Ok(DeclaredValue::Initial));
    assert_eq!(declared_value(&ident("inherit"), specified, false), Ok(DeclaredValue::Inherit));
    assert_eq!(declared_value(&ident("initial"), Err::<u8, ()>(()), true), Ok(DeclaredValue::Initial));
    assert_eq!(declared_value(&ident("other"), specified, false), Ok(DeclaredValue::SpecifiedValue(7)));
    assert_eq!(declared_value(&ident("other"), Err::<u8, ()>(()), false), Err(()));
    assert_eq!(declared_value(&ValueToken::Other, specified, true), Ok(DeclaredValue::SpecifiedValue(7)));
}

#[test]
fn unset_follows_inheritance() {
    let refused: Result<u8, ()> = Err(());
    assert_eq!(declared_value(&ident("unset"), refused, false), Ok(DeclaredValue::Initial));
    assert_eq!(declared_value(&ident("unset"), refused, true), Ok(DeclaredValue::Inherit));
    assert_eq!(declared_value(&ident("UNSET"), Ok(1u8), true), Ok(DeclaredValue::Inherit));
}

#[test]
fn a_colour_longhand_takes_the_colour() {
    let red = CSSColor::RGBA(RGBA { red: 255, green: 0, blue: 0, alpha: 255 });
    assert_eq!(
        resolve_longhand(Longhand::BorderTopColor, &ident("red"), Some(red)),
        Ok(PropertyDeclaration::BorderTopColor(DeclaredValue::SpecifiedValue(red)))
    );
    assert_eq!(
        resolve_longhand(Longhand::BorderRightColor, &ValueToken::Other, Some(red)),
        Ok(PropertyDeclaration::BorderRightColor(DeclaredValue::SpecifiedValue(red)))
    );
    assert_eq!(
        resolve_longhand(Longhand::BorderBottomColor, &ident("currentcolor"), Some(CSSColor::CurrentColor)),
        Ok(PropertyDeclaration::BorderBottomColor(DeclaredValue::SpecifiedValue(
            CSSColor::CurrentColor
        )))
    );
    assert_eq!(
        resolve_longhand(Longhand::BorderLeftColor, &ident("inherit"), None),
        Ok(PropertyDeclaration::BorderLeftColor(DeclaredValue::Inherit))
    );
    assert_eq!(resolve_longhand(Longhand::BorderTopColor, &ident("solid"), None), Err(()));
    assert_eq!(resolve_longhand(Longhand::BorderTopColor, &dimension(1, "px"), None), Err(()));
}

#[test]
fn a_style_longhand_takes_the_keyword() {
    assert_eq!(
        resolve_longhand(Longhand::BorderTopStyle, &ident("solid"), None),
        Ok(PropertyDeclaration::BorderTopStyle(DeclaredValue::SpecifiedValue(BorderStyle::solid)))
    );
    assert_eq!(
        resolve_longhand(Longhand::BorderLeftStyle, &ident("none"), None),
        Ok(PropertyDeclaration::BorderLeftStyle(DeclaredValue::SpecifiedValue(BorderStyle::none)))
    );
    assert_eq!(
        resolve_longhand(Longhand::BorderLeftStyle, &ident("unset"), None),
        Ok(PropertyDeclaration::BorderLeftStyle(DeclaredValue::Initial))
    );
    // A colour that the text would denote does not count for a style.
    let red = CSSColor::RGBA(RGBA { red: 255, green: 0, blue: 0, alpha: 255 });
    assert_eq!(resolve_longhand(Longhand::BorderTopStyle, &ident("red"), Some(red)), Err(()));
}

#[test]
fn a_width_longhand_takes_the_length() {
    assert_eq!(
        resolve_longhand(Longhand::BorderTopWidth, &dimension(2, "px"), None),
        Ok(PropertyDeclaration::BorderTopWidth(DeclaredValue::SpecifiedValue(Length::Au(Au(120)))))
    );
    assert_eq!(
        resolve_longhand(Longhand::BorderLeftWidth, &ValueToken::Number { int_value: Some(0) }, None),
        Ok(PropertyDeclaration::BorderLeftWidth(DeclaredValue::SpecifiedValue(Length::Au(Au(0)))))
    );
    assert_eq!(
        resolve_longhand(Longhand::BorderLeftWidth, &ident("initial"), None),
        Ok(PropertyDeclaration::BorderLeftWidth(DeclaredValue::Initial))
    );
    assert_eq!(resolve_longhand(Longhand::BorderTopWidth, &ident("not-a-length"), None), Err(()));
    assert_eq!(resolve_longhand(Longhand::BorderTopWidth, &ident("solid"), None), Err(()));
}

#[test]
fn a_declaration_knows_its_longhand() {
    assert_eq!(
        PropertyDeclaration::BorderTopColor(DeclaredValue::Initial).longhand(),
        Longhand::BorderTopColor
    );
    assert_eq!(
        PropertyDeclaration::BorderRightColor(DeclaredValue::Initial).longhand(),
        Longhand::BorderRightColor
    );
    assert_eq!(
        PropertyDeclaration::BorderBottomColor(DeclaredValue::Inherit).longhand(),
        Longhand::BorderBottomColor
    );
    assert_eq!(
        PropertyDeclaration::BorderLeftColor(DeclaredValue::Inherit).longhand(),
        Longhand::BorderLeftColor
    );
    assert_eq!(
        PropertyDeclaration::BorderTopStyle(DeclaredValue::Initial).longhand(),
        Longhand::BorderTopStyle
    );
    assert_eq!(
        PropertyDeclaration::BorderTopWidth(DeclaredValue::Initial).longhand(),
        Longhand::BorderTopWidth
    );
    assert_eq!(
        PropertyDeclaration::BorderLeftStyle(DeclaredValue::Initial).longhand(),
        Longhand::BorderLeftStyle
    );
    assert_eq!(
        PropertyDeclaration::BorderLeftWidth(DeclaredValue::Initial).longhand(),
        Longhand::BorderLeftWidth
    );
}
