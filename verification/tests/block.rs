use style::block::keep_last_declarations;
use style::errors::{at_rule_error, declaration_error, CssError, CssErrorKind};
use style::registry::{Longhand, PropertyRegistry};
use style::syntax::{AtRule, Declaration, DeclarationListItem, SourceLocation};
use style::values::{Au, BorderStyle, CSSColor, Length, RGBA};
use style::{
    dummy, parse_property_declaration_list, DeclaredValue, PropertyDeclaration,
    PropertyDeclarationBlock,
};
use url::Url;

fn at(line: u32, column: u32) -> SourceLocation {
    SourceLocation { line, column }
}

fn item(line: u32, name: &str, value: &str, important: bool) -> DeclarationListItem {
    DeclarationListItem::Declaration(Declaration {
        location: at(line, 1),
        name: name.to_string(),
        value: value.to_string(),
        important,
    })
}

fn parse(items: &[DeclarationListItem]) -> (PropertyDeclarationBlock, Vec<CssError>) {
    let registry = PropertyRegistry::new();
    let url = Url::parse("http://example.org/").unwrap();
    let mut log = Vec::new();
    let block = parse_property_declaration_list(&registry, items, &url, false, &mut log);
    (block, log)
}

fn width(au: i32) -> DeclaredValue<Length> {
    DeclaredValue::SpecifiedValue(Length::Au(Au(au)))
}

fn style_of(style: BorderStyle) -> DeclaredValue<BorderStyle> {
    DeclaredValue::SpecifiedValue(style)
}

fn color(red: u8, green: u8, blue: u8) -> DeclaredValue<CSSColor> {
    DeclaredValue::SpecifiedValue(CSSColor::RGBA(RGBA { red, green, blue, alpha: 255 }))
}

fn longhands_of(declarations: &[PropertyDeclaration]) -> Vec<Longhand> {
    declarations.iter().map(|d| d.longhand()).collect()
}

#[test]
fn an_empty_list_gives_an_empty_block() {
    let (block, log) = parse(&[]);
    assert!(block.important().is_empty());
    assert!(block.normal().is_empty());
    assert!(log.is_empty());
}

#[test]
fn declarations_keep_their_source_order() {
    let (block, log) = parse(&[
        item(0, "border-top-width", "1px", false),
        item(1, "border-left-style", "solid", false),
        item(2, "border-top-color", "red", false),
    ]);
    assert_eq!(
        *block.normal(),
        vec![
            PropertyDeclaration::BorderTopWidth(width(60)),
            PropertyDeclaration::BorderLeftStyle(style_of(BorderStyle::solid)),
            PropertyDeclaration::BorderTopColor(color(255, 0, 0)),
        ]
    );
    assert!(block.important().is_empty());
    assert!(log.is_empty());
}

#[test]
fn the_last_declaration_of_a_property_wins() {
    let (block, _) = parse(&[
        item(0, "border-top-width", "1px", false),
        item(1, "border-top-width", "2px", false),
    ]);
    assert_eq!(*block.normal(), vec![PropertyDeclaration::BorderTopWidth(width(120))]);
    let (block, _) = parse(&[
        item(0, "border-top-style", "solid", true),
        item(1, "border-top-style", "none", true),
    ]);
    assert_eq!(
        *block.important(),
        vec![PropertyDeclaration::BorderTopStyle(style_of(BorderStyle::none))]
    );
    assert!(block.normal().is_empty());
}

#[test]
fn the_winner_stands_where_it_was_declared() {
    let (block, _) = parse(&[
        item(0, "border-top-width", "1px", false),
        item(1, "border-top-color", "red", false),
        item(2, "border-top-width", "2px", false),
        item(3, "border-top-style", "solid", false),
        item(4, "border-top-color", "blue", false),
    ]);
    assert_eq!(
        *block.normal(),
        vec![
            PropertyDeclaration::BorderTopWidth(width(120)),
            PropertyDeclaration::BorderTopStyle(style_of(BorderStyle::solid)),
            PropertyDeclaration::BorderTopColor(color(0, 0, 255)),
        ]
    );
}

#[test]
fn an_invalid_later_declaration_overrides_nothing() {
    let (block, log) = parse(&[
        item(0, "border-top-width", "1px", false),
        item(1, "border-top-width", "wide", false),
    ]);
    assert_eq!(*block.normal(), vec![PropertyDeclaration::BorderTopWidth(width(60))]);
    assert_eq!(log.len(), 1);
    assert_eq!(log[0].kind, CssErrorKind::InvalidValue);
}

#[test]
fn importance_parts_the_declarations() {
    let (block, log) = parse(&[
        item(0, "border-top-width", "1px", true),
        item(1, "border-left-width", "2px", false),
        item(2, "border-top-color", "red", true),
    ]);
    assert_eq!(
        *block.important(),
        vec![
            PropertyDeclaration::BorderTopWidth(width(60)),
            PropertyDeclaration::BorderTopColor(color(255, 0, 0)),
        ]
    );
    assert_eq!(*block.normal(), vec![PropertyDeclaration::BorderLeftWidth(width(120))]);
    assert!(log.is_empty());
}

#[test]
fn an_important_declaration_alone_stays_out_of_normal() {
    let (block, _) = parse(&[item(0, "border-top-width", "1px", true)]);
    assert_eq!(*block.important(), vec![PropertyDeclaration::BorderTopWidth(width(60))]);
    assert!(block.normal().is_empty());
    let (block, _) = parse(&[item(0, "border-top-width", "1px", false)]);
    assert_eq!(*block.normal(), vec![PropertyDeclaration::BorderTopWidth(width(60))]);
    assert!(block.important().is_empty());
}

#[test]
fn each_importance_overrides_for_itself() {
    let (block, _) = parse(&[
        item(0, "border-top-width", "1px", true),
        item(1, "border-top-width", "1px", false),
    ]);
    assert_eq!(*block.important(), vec![PropertyDeclaration::BorderTopWidth(width(60))]);
    assert_eq!(*block.normal(), vec![PropertyDeclaration::BorderTopWidth(width(60))]);
    let (block, _) = parse(&[
        item(0, "border-top-width", "1px", false),
        item(1, "border-top-width", "2px", true),
        item(2, "border-top-width", "3px", false),
        item(3, "border-top-width", "4px", true),
    ]);
    assert_eq!(*block.important(), vec![PropertyDeclaration::BorderTopWidth(width(240))]);
    assert_eq!(*block.normal(), vec![PropertyDeclaration::BorderTopWidth(width(180))]);
}

#[test]
fn an_unknown_property_is_reported_once() {
    let (block, log) = parse(&[item(7, "foo-bar", "baz", false)]);
    assert!(block.important().is_empty());
    assert!(block.normal().is_empty());
    assert_eq!(log.len(), 1);
    assert_eq!(log[0].kind, CssErrorKind::UnknownProperty);
    assert_eq!(log[0].location, at(7, 1));
    assert!(log[0].message.contains("foo-bar"));
    assert_eq!(log[0].message, "Unsupported property: foo-bar:baz");
}

#[test]
fn a_shorthand_expands_in_full() {
    let (block, log) = parse(&[item(0, "border-top", "", false)]);
    assert_eq!(
        *block.normal(),
        vec![
            PropertyDeclaration::BorderTopColor(DeclaredValue::Initial),
            PropertyDeclaration::BorderTopStyle(DeclaredValue::Initial),
            PropertyDeclaration::BorderTopWidth(width(0)),
        ]
    );
    assert!(block.important().is_empty());
    assert!(log.is_empty());
}

#[test]
fn an_invalid_value_does_not_stop_the_list() {
    let (block, log) = parse(&[
        item(0, "border-left-style", "solid", false),
        item(1, "border-top-width", "not-a-length", false),
        item(2, "border-top-color", "red", false),
        item(3, "border-top-width", "3px", true),
    ]);
    assert_eq!(
        *block.normal(),
        vec![
            PropertyDeclaration::BorderLeftStyle(style_of(BorderStyle::solid)),
            PropertyDeclaration::BorderTopColor(color(255, 0, 0)),
        ]
    );
    assert_eq!(*block.important(), vec![PropertyDeclaration::BorderTopWidth(width(180))]);
    assert_eq!(log.len(), 1);
    assert_eq!(log[0].kind, CssErrorKind::InvalidValue);
    assert_eq!(log[0].location, at(1, 1));
    assert_eq!(log[0].message, "Invalid value: border-top-width:not-a-length");
    for declaration in block.normal().iter().chain(block.important().iter()) {
        assert!(
            declaration.longhand() != Longhand::BorderTopWidth
                || *declaration == PropertyDeclaration::BorderTopWidth(width(180))
        );
    }
}

#[test]
fn a_shorthand_and_its_longhands_override_each_other() {
    let (block, _) = parse(&[
        item(0, "border-top-style", "solid", false),
        item(1, "border-top", "", false),
        item(2, "border-top-width", "2px", false),
    ]);
    assert_eq!(
        *block.normal(),
        vec![
            PropertyDeclaration::BorderTopColor(DeclaredValue::Initial),
            PropertyDeclaration::BorderTopStyle(DeclaredValue::Initial),
            PropertyDeclaration::BorderTopWidth(width(120)),
        ]
    );
    let (block, _) = parse(&[
        item(0, "border-left", "", true),
        item(1, "border-left-color", "red", true),
        item(2, "border-left", "", true),
        item(3, "border-left-style", "none", false),
    ]);
    assert_eq!(
        *block.important(),
        vec![
            PropertyDeclaration::BorderLeftColor(DeclaredValue::Initial),
            PropertyDeclaration::BorderLeftStyle(DeclaredValue::Initial),
            PropertyDeclaration::BorderLeftWidth(width(0)),
        ]
    );
    assert_eq!(
        *block.normal(),
        vec![PropertyDeclaration::BorderLeftStyle(style_of(BorderStyle::none))]
    );
}

#[test]
fn no_property_stands_twice_in_a_sequence() {
    let (block, _) = parse(&[
        item(0, "border-top", "", false),
        item(1, "border-left", "", false),
        item(2, "border-top-color", "red", false),
        item(3, "border-top", "", true),
        item(4, "border-left-width", "1px", false),
        item(5, "border-right-color", "blue", false),
        item(6, "border-top", "", false),
        item(7, "border-right-color", "green", true),
        item(8, "border-top-width", "1pt", true),
    ]);
    for sequence in [block.important(), block.normal()] {
        let longhands = longhands_of(&sequence);
        for (i, a) in longhands.iter().enumerate() {
            for b in longhands.iter().skip(i + 1) {
                assert_ne!(a, b);
            }
        }
    }
    assert_eq!(
        longhands_of(&block.normal()),
        vec![
            Longhand::BorderLeftColor,
            Longhand::BorderLeftStyle,
            Longhand::BorderLeftWidth,
            Longhand::BorderRightColor,
            Longhand::BorderTopColor,
            Longhand::BorderTopStyle,
            Longhand::BorderTopWidth,
        ]
    );
    assert_eq!(
        longhands_of(&block.important()),
        vec![
            Longhand::BorderTopColor,
            Longhand::BorderTopStyle,
            Longhand::BorderRightColor,
            Longhand::BorderTopWidth,
        ]
    );
    assert_eq!(block.important()[3], PropertyDeclaration::BorderTopWidth(width(80)));
}

#[test]
fn every_declaration_comes_from_the_list() {
    let items = [
        item(0, "border-top", "", false),
        item(1, "border-left-color", "red", true),
        item(2, "margin", "0", true),
    ];
    let (block, log) = parse(&items);
    assert_eq!(
        longhands_of(&block.normal()),
        vec![Longhand::BorderTopColor, Longhand::BorderTopStyle, Longhand::BorderTopWidth]
    );
    assert_eq!(longhands_of(&block.important()), vec![Longhand::BorderLeftColor]);
    assert_eq!(log.len(), 1);
    assert_eq!(log[0].message, "Unsupported property: margin:0");
}

#[test]
fn an_at_rule_is_reported_and_passed_over() {
    let items = [
        item(0, "border-top-width", "1px", false),
        DeclarationListItem::DeclAtRule(AtRule { location: at(3, 9), name: "media".to_string() }),
        item(5, "border-top-style", "solid", false),
    ];
    let (block, log) = parse(&items);
    assert_eq!(
        *block.normal(),
        vec![
            PropertyDeclaration::BorderTopWidth(width(60)),
            PropertyDeclaration::BorderTopStyle(style_of(BorderStyle::solid)),
        ]
    );
    assert_eq!(log.len(), 1);
    assert_eq!(log[0].kind, CssErrorKind::UnsupportedAtRule);
    assert_eq!(log[0].location, at(3, 9));
    assert_eq!(log[0].message, "Unsupported at-rule in declaration list: @media");
}

#[test]
fn reports_come_in_source_order_after_what_was_logged() {
    let registry = PropertyRegistry::new();
    let url = Url::parse("http://example.org/").unwrap();
    let mut log = vec![at_rule_error(at(0, 0), "earlier")];
    let items = [
        item(1, "nothing", "1", true),
        item(2, "border-top-style", "2", false),
        item(3, "border-top-style", "none", false),
        DeclarationListItem::DeclAtRule(AtRule { location: at(4, 2), name: "x".to_string() }),
        item(5, "else", "", false),
    ];
    let block = parse_property_declaration_list(&registry, &items, &url, false, &mut log);
    assert_eq!(block.normal().len(), 1);
    let kinds: Vec<CssErrorKind> = log.iter().map(|e| e.kind).collect();
    assert_eq!(
        kinds,
        vec![
            CssErrorKind::UnsupportedAtRule,
            CssErrorKind::UnknownProperty,
            CssErrorKind::InvalidValue,
            CssErrorKind::UnsupportedAtRule,
            CssErrorKind::UnknownProperty,
        ]
    );
    let lines: Vec<u32> = log.iter().map(|e| e.location.line).collect();
    assert_eq!(lines, vec![0, 1, 2, 4, 5]);
    assert_eq!(log[0].message, "Unsupported at-rule in declaration list: @earlier");
    assert_eq!(log[4].message, "Unsupported property: else:");
}

#[test]
fn an_experimental_property_is_reported_while_off() {
    let mut registry = PropertyRegistry::new();
    registry.set_longhand_experimental(Longhand::BorderLeftWidth, true);
    let url = Url::parse("http://example.org/").unwrap();
    let items = [item(2, "border-left-width", "1px", false)];
    let mut log = Vec::new();
    let block = parse_property_declaration_list(&registry, &items, &url, false, &mut log);
    assert!(block.normal().is_empty());
    assert_eq!(log.len(), 1);
    assert_eq!(log[0].kind, CssErrorKind::ExperimentalProperty);
    assert_eq!(
        log[0].message,
        "Experimental property, use `servo --enable_experimental` or `servo -e` to enable: \
         border-left-width:1px"
    );
    let mut log = Vec::new();
    let block = parse_property_declaration_list(&registry, &items, &url, true, &mut log);
    assert_eq!(*block.normal(), vec![PropertyDeclaration::BorderLeftWidth(width(60))]);
    assert!(log.is_empty());
}

#[test]
fn messages_are_prefix_name_colon_value() {
    let error = declaration_error(at(1, 2), CssErrorKind::InvalidValue, "a", "b c");
    assert_eq!(error.message, "Invalid value: a:b c");
    assert_eq!(error.kind, CssErrorKind::InvalidValue);
    assert_eq!(error.location, at(1, 2));
    let error = declaration_error(at(0, 0), CssErrorKind::UnknownProperty, "", "");
    assert_eq!(error.message, "Unsupported property: :");
    let error = at_rule_error(at(9, 9), "");
    assert_eq!(error.message, "Unsupported at-rule in declaration list: @");
    assert_eq!(error.kind, CssErrorKind::UnsupportedAtRule);
}

#[test]
fn overriding_keeps_the_last_of_each_longhand() {
    let declarations = [
        PropertyDeclaration::BorderTopWidth(width(1)),
        PropertyDeclaration::BorderTopColor(DeclaredValue::Inherit),
        PropertyDeclaration::BorderTopWidth(width(2)),
        PropertyDeclaration::BorderTopWidth(width(3)),
        PropertyDeclaration::BorderLeftWidth(width(4)),
        PropertyDeclaration::BorderTopColor(DeclaredValue::Initial),
    ];
    assert_eq!(
        keep_last_declarations(&declarations),
        vec![
            PropertyDeclaration::BorderTopWidth(width(3)),
            PropertyDeclaration::BorderLeftWidth(width(4)),
            PropertyDeclaration::BorderTopColor(DeclaredValue::Initial),
        ]
    );
    assert_eq!(keep_last_declarations(&[]), vec![]);
    assert_eq!(
        keep_last_declarations(&declarations[..1]),
        vec![PropertyDeclaration::BorderTopWidth(width(1))]
    );
}

#[test]
fn assembling_a_block_again_changes_nothing() {
    let (block, _) = parse(&[
        item(0, "border-top", "", false),
        item(1, "border-top-color", "red", false),
        item(2, "border-left-width", "1px", true),
        item(3, "border-top-color", "blue", true),
        item(4, "border-left-width", "2px", true),
        item(5, "border-top-style", "solid", false),
    ]);
    let again =
        PropertyDeclarationBlock::new(block.important().to_vec(), block.normal().to_vec());
    assert_eq!(*again.important(), *block.important());
    assert_eq!(*again.normal(), *block.normal());
    assert_eq!(block.normal().len(), 3);
    assert_eq!(block.important().len(), 2);
}

#[test]
fn a_block_is_assembled_from_typed_declarations() {
    let block = PropertyDeclarationBlock::new(
        vec![
            PropertyDeclaration::BorderTopStyle(DeclaredValue::Inherit),
            PropertyDeclaration::BorderTopStyle(DeclaredValue::Initial),
        ],
        vec![PropertyDeclaration::BorderTopStyle(style_of(BorderStyle::solid))],
    );
    assert_eq!(*block.important(), vec![PropertyDeclaration::BorderTopStyle(DeclaredValue::Initial)]);
    assert_eq!(
        *block.normal(),
        vec![PropertyDeclaration::BorderTopStyle(style_of(BorderStyle::solid))]
    );
}

#[test]
fn handles_share_the_storage_of_a_block() {
    let (block, _) = parse(&[item(0, "border-top-width", "1px", false)]);
    let first = block.normal();
    let second = block.normal();
    assert!(std::sync::Arc::ptr_eq(&first, &second));
    assert!(!std::sync::Arc::ptr_eq(&first, &block.important()));
    dummy(block);
    assert_eq!(*first, vec![PropertyDeclaration::BorderTopWidth(width(60))]);
    assert_eq!(std::sync::Arc::strong_count(&first), 2);
}
