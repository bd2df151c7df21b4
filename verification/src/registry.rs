//! The property registry: the closed set of longhand and shorthand
//! properties, each under its canonical name.

use vstd::prelude::*;
use crate::names::{
    ascii_lower, css_name_of_ident, eq_ignore_ascii_case, eq_ignoring_ascii_case,
    expand_ident_to_css_name,
};

verus! {

/// The type of a longhand's specified value.
#[derive(Clone, Copy, Debug, PartialEq, Eq, Structural)]
pub enum ValueType {
    Color,
    BorderStyle,
    Length,
}

/// A longhand property: one that is assigned directly.
#[derive(Clone, Copy, Debug, PartialEq, Eq, Structural)]
pub enum Longhand {
    BorderTopColor,
    BorderRightColor,
    BorderBottomColor,
    BorderLeftColor,
    BorderTopStyle,
    BorderTopWidth,
    BorderLeftStyle,
    BorderLeftWidth,
}

/// A shorthand property: one that stands for several longhands.
#[derive(Clone, Copy, Debug, PartialEq, Eq, Structural)]
pub enum Shorthand {
    BorderTop,
    BorderLeft,
}

/// What a property name resolves to.
#[derive(Clone, Copy, Debug, PartialEq, Eq, Structural)]
pub enum PropertyName {
    Longhand(Longhand),
    Shorthand(Shorthand),
    Unknown,
}

/// How many longhands there are.
pub const LONGHAND_COUNT: usize = 8;

/// How many shorthands there are.
pub const SHORTHAND_COUNT: usize = 2;

impl Longhand {
    /// The longhand's place in the registry, from 0.
    pub open spec fn ordinal(self) -> int {
        match self {
            Longhand::BorderTopColor => 0,
            Longhand::BorderRightColor => 1,
            Longhand::BorderBottomColor => 2,
            Longhand::BorderLeftColor => 3,
            Longhand::BorderTopStyle => 4,
            Longhand::BorderTopWidth => 5,
            Longhand::BorderLeftStyle => 6,
            Longhand::BorderLeftWidth => 7,
        }
    }

    /// The longhand at a place of the registry.
    pub open spec fn at(ordinal: int) -> Longhand {
        if ordinal == 0 {
            Longhand::BorderTopColor
        } else if ordinal == 1 {
            Longhand::BorderRightColor
        } else if ordinal == 2 {
            Longhand::BorderBottomColor
        } else if ordinal == 3 {
            Longhand::BorderLeftColor
        } else if ordinal == 4 {
            Longhand::BorderTopStyle
        } else if ordinal == 5 {
            Longhand::BorderTopWidth
        } else if ordinal == 6 {
            Longhand::BorderLeftStyle
        } else {
            Longhand::BorderLeftWidth
        }
    }

    /// The identifier under which the longhand is defined.
    pub open spec fn ident_spec(self) -> Seq<char> {
        match self {
            Longhand::BorderTopColor => "border_top_color"@,
            Longhand::BorderRightColor => "border_right_color"@,
            Longhand::BorderBottomColor => "border_bottom_color"@,
            Longhand::BorderLeftColor => "border_left_color"@,
            Longhand::BorderTopStyle => "border_top_style"@,
            Longhand::BorderTopWidth => "border_top_width"@,
            Longhand::BorderLeftStyle => "border_left_style"@,
            Longhand::BorderLeftWidth => "border_left_width"@,
        }
    }

    /// The longhand's canonical name: its identifier, spelled as a CSS name.
    pub open spec fn css_name(self) -> Seq<char> {
        css_name_of_ident(self.ident_spec())
    }

    /// The type of the longhand's specified value.
    pub open spec fn value_type_spec(self) -> ValueType {
        match self {
            Longhand::BorderTopColor
            | Longhand::BorderRightColor
            | Longhand::BorderBottomColor
            | Longhand::BorderLeftColor => ValueType::Color,
            Longhand::BorderTopStyle | Longhand::BorderLeftStyle => ValueType::BorderStyle,
            Longhand::BorderTopWidth | Longhand::BorderLeftWidth => ValueType::Length,
        }
    }

    /// Whether an element takes the property's value from its parent when
    /// nothing declares it. No border property does.
    pub open spec fn is_inherited_spec(self) -> bool {
        false
    }

    /// The longhand's place in the registry, from 0.
    pub fn index(self) -> (i: usize)
        ensures
            i == self.ordinal(),
            i < LONGHAND_COUNT,
            Longhand::at(i as int) == self,
    {
        match self {
            Longhand::BorderTopColor => 0,
            Longhand::BorderRightColor => 1,
            Longhand::BorderBottomColor => 2,
            Longhand::BorderLeftColor => 3,
            Longhand::BorderTopStyle => 4,
            Longhand::BorderTopWidth => 5,
            Longhand::BorderLeftStyle => 6,
            Longhand::BorderLeftWidth => 7,
        }
    }

    /// The longhand at a place of the registry, if there is one.
    pub fn from_index(i: usize) -> (property: Option<Longhand>)
        ensures
            property == if i < LONGHAND_COUNT {
                Some(Longhand::at(i as int))
            } else {
                None
            },
            property matches Some(p) ==> p.ordinal() == i,
    {
        match i {
            0 => Some(Longhand::BorderTopColor),
            1 => Some(Longhand::BorderRightColor),
            2 => Some(Longhand::BorderBottomColor),
            3 => Some(Longhand::BorderLeftColor),
            4 => Some(Longhand::BorderTopStyle),
            5 => Some(Longhand::BorderTopWidth),
            6 => Some(Longhand::BorderLeftStyle),
            7 => Some(Longhand::BorderLeftWidth),
            _ => None,
        }
    }

    /// The identifier under which the longhand is defined.
    pub fn ident(self) -> (ident: &'static str)
        ensures
            ident@ == self.ident_spec(),
    {
        match self {
            Longhand::BorderTopColor => "border_top_color",
            Longhand::BorderRightColor => "border_right_color",
            Longhand::BorderBottomColor => "border_bottom_color",
            Longhand::BorderLeftColor => "border_left_color",
            Longhand::BorderTopStyle => "border_top_style",
            Longhand::BorderTopWidth => "border_top_width",
            Longhand::BorderLeftStyle => "border_left_style",
            Longhand::BorderLeftWidth => "border_left_width",
        }
    }

    /// The type of the longhand's specified value.
    pub fn value_type(self) -> (t: ValueType)
        ensures
            t == self.value_type_spec(),
    {
        match self {
            Longhand::BorderTopColor
            | Longhand::BorderRightColor
            | Longhand::BorderBottomColor
            | Longhand::BorderLeftColor => ValueType::Color,
            Longhand::BorderTopStyle | Longhand::BorderLeftStyle => ValueType::BorderStyle,
            Longhand::BorderTopWidth | Longhand::BorderLeftWidth => ValueType::Length,
        }
    }

    /// Whether the property is inherited.
    pub fn is_inherited(self) -> (inherited: bool)
        ensures
            inherited == self.is_inherited_spec(),
    {
        false
    }
}

impl Shorthand {
    /// The shorthand's place in the registry, from 0.
    pub open spec fn ordinal(self) -> int {
        match self {
            Shorthand::BorderTop => 0,
            Shorthand::BorderLeft => 1,
        }
    }

    /// The shorthand at a place of the registry.
    pub open spec fn at(ordinal: int) -> Shorthand {
        if ordinal == 0 {
            Shorthand::BorderTop
        } else {
            Shorthand::BorderLeft
        }
    }

    /// The identifier under which the shorthand is defined.
    pub open spec fn ident_spec(self) -> Seq<char> {
        match self {
            Shorthand::BorderTop => "border_top"@,
            Shorthand::BorderLeft => "border_left"@,
        }
    }

    /// The shorthand's canonical name: its identifier, spelled as a CSS name.
    pub open spec fn css_name(self) -> Seq<char> {
        css_name_of_ident(self.ident_spec())
    }

    /// The longhands that the shorthand stands for, in the order in which it
    /// declares them: colour, style, width.
    pub open spec fn longhands_spec(self) -> Seq<Longhand> {
        match self {
            Shorthand::BorderTop => seq![
                Longhand::BorderTopColor,
                Longhand::BorderTopStyle,
                Longhand::BorderTopWidth,
            ],
            Shorthand::BorderLeft => seq![
                Longhand::BorderLeftColor,
                Longhand::BorderLeftStyle,
                Longhand::BorderLeftWidth,
            ],
        }
    }

    /// The shorthand's place in the registry, from 0.
    pub fn index(self) -> (i: usize)
        ensures
            i == self.ordinal(),
            i < SHORTHAND_COUNT,
            Shorthand::at(i as int) == self,
    {
        match self {
            Shorthand::BorderTop => 0,
            Shorthand::BorderLeft => 1,
        }
    }

    /// The shorthand at a place of the registry, if there is one.
    pub fn from_index(i: usize) -> (property: Option<Shorthand>)
        ensures
            property == if i < SHORTHAND_COUNT {
                Some(Shorthand::at(i as int))
            } else {
                None
            },
            property matches Some(p) ==> p.ordinal() == i,
    {
        match i {
            0 => Some(Shorthand::BorderTop),
            1 => Some(Shorthand::BorderLeft),
            _ => None,
        }
    }

    /// The identifier under which the shorthand is defined.
    pub fn ident(self) -> (ident: &'static str)
        ensures
            ident@ == self.ident_spec(),
    {
        match self {
            Shorthand::BorderTop => "border_top",
            Shorthand::BorderLeft => "border_left",
        }
    }

    /// The longhands that the shorthand stands for: colour, style, width.
    pub fn longhands(self) -> (longhands: [Longhand; 3])
        ensures
            longhands@ == self.longhands_spec(),
    {
        match self {
            Shorthand::BorderTop => [
                Longhand::BorderTopColor,
                Longhand::BorderTopStyle,
                Longhand::BorderTopWidth,
            ],
            Shorthand::BorderLeft => [
                Longhand::BorderLeftColor,
                Longhand::BorderLeftStyle,
                Longhand::BorderLeftWidth,
            ],
        }
    }
}

/// The first longhand, in registry order, whose canonical name is `name`
/// apart from the case of ASCII letters.
pub open spec fn longhand_named_from(name: Seq<char>, from: int) -> Option<Longhand>
    decreases LONGHAND_COUNT - from,
{
    if from < 0 || from >= LONGHAND_COUNT {
        None
    } else if eq_ignoring_ascii_case(name, Longhand::at(from).css_name()) {
        Some(Longhand::at(from))
    } else {
        longhand_named_from(name, from + 1)
    }
}

/// The first shorthand, in registry order, whose canonical name is `name`
/// apart from the case of ASCII letters.
pub open spec fn shorthand_named_from(name: Seq<char>, from: int) -> Option<Shorthand>
    decreases SHORTHAND_COUNT - from,
{
    if from < 0 || from >= SHORTHAND_COUNT {
        None
    } else if eq_ignoring_ascii_case(name, Shorthand::at(from).css_name()) {
        Some(Shorthand::at(from))
    } else {
        shorthand_named_from(name, from + 1)
    }
}

/// What a property name resolves to. The case of ASCII letters does not
/// count; the longhands are tried before the shorthands.
pub open spec fn property_named(name: Seq<char>) -> PropertyName {
    match longhand_named_from(name, 0) {
        Some(longhand) => PropertyName::Longhand(longhand),
        None => match shorthand_named_from(name, 0) {
            Some(shorthand) => PropertyName::Shorthand(shorthand),
            None => PropertyName::Unknown,
        },
    }
}

/// The canonical names, written out.
pub proof fn lemma_canonical_names()
    ensures
        Longhand::BorderTopColor.css_name() == "border-top-color"@,
        Longhand::BorderRightColor.css_name() == "border-right-color"@,
        Longhand::BorderBottomColor.css_name() == "border-bottom-color"@,
        Longhand::BorderLeftColor.css_name() == "border-left-color"@,
        Longhand::BorderTopStyle.css_name() == "border-top-style"@,
        Longhand::BorderTopWidth.css_name() == "border-top-width"@,
        Longhand::BorderLeftStyle.css_name() == "border-left-style"@,
        Longhand::BorderLeftWidth.css_name() == "border-left-width"@,
        Shorthand::BorderTop.css_name() == "border-top"@,
        Shorthand::BorderLeft.css_name() == "border-left"@,
{
    reveal_strlit("border_top_color");
    reveal_strlit("border-top-color");
    assert(Longhand::BorderTopColor.css_name() =~= "border-top-color"@);
    reveal_strlit("border_right_color");
    reveal_strlit("border-right-color");
    assert(Longhand::BorderRightColor.css_name() =~= "border-right-color"@);
    reveal_strlit("border_bottom_color");
    reveal_strlit("border-bottom-color");
    assert(Longhand::BorderBottomColor.css_name() =~= "border-bottom-color"@);
    reveal_strlit("border_left_color");
    reveal_strlit("border-left-color");
    assert(Longhand::BorderLeftColor.css_name() =~= "border-left-color"@);
    reveal_strlit("border_top_style");
    reveal_strlit("border-top-style");
    assert(Longhand::BorderTopStyle.css_name() =~= "border-top-style"@);
    reveal_strlit("border_top_width");
    reveal_strlit("border-top-width");
    assert(Longhand::BorderTopWidth.css_name() =~= "border-top-width"@);
    reveal_strlit("border_left_style");
    reveal_strlit("border-left-style");
    assert(Longhand::BorderLeftStyle.css_name() =~= "border-left-style"@);
    reveal_strlit("border_left_width");
    reveal_strlit("border-left-width");
    assert(Longhand::BorderLeftWidth.css_name() =~= "border-left-width"@);
    reveal_strlit("border_top");
    reveal_strlit("border-top");
    assert(Shorthand::BorderTop.css_name() =~= "border-top"@);
    reveal_strlit("border_left");
    reveal_strlit("border-left");
    assert(Shorthand::BorderLeft.css_name() =~= "border-left"@);
}

/// The registry is consistent: every property is found under its canonical
/// name, so no two properties, longhand or shorthand, share a name.
pub proof fn lemma_registered_names_resolve()
    ensures
        forall|longhand: Longhand|
            property_named(#[trigger] longhand.css_name()) == PropertyName::Longhand(longhand),
        forall|shorthand: Shorthand|
            property_named(#[trigger] shorthand.css_name()) == PropertyName::Shorthand(shorthand),
{
    lemma_canonical_names();
    reveal_strlit("border-top-color");
    reveal_strlit("border-right-color");
    reveal_strlit("border-bottom-color");
    reveal_strlit("border-left-color");
    reveal_strlit("border-top-style");
    reveal_strlit("border-top-width");
    reveal_strlit("border-left-style");
    reveal_strlit("border-left-width");
    reveal_strlit("border-top");
    reveal_strlit("border-left");
    reveal_with_fuel(longhand_named_from, 9);
    reveal_with_fuel(shorthand_named_from, 3);
    let top_color = ascii_lower("border-top-color"@);
    let right_color = ascii_lower("border-right-color"@);
    let bottom_color = ascii_lower("border-bottom-color"@);
    let left_color = ascii_lower("border-left-color"@);
    let top_style = ascii_lower("border-top-style"@);
    let top_width = ascii_lower("border-top-width"@);
    let left_style = ascii_lower("border-left-style"@);
    let left_width = ascii_lower("border-left-width"@);
    let top = ascii_lower("border-top"@);
    let left = ascii_lower("border-left"@);
    assert(top_color.len() == 16 && top_style.len() == 16 && top_width.len() == 16);
    assert(left_color.len() == 17 && left_style.len() == 17 && left_width.len() == 17);
    assert(right_color.len() == 18 && bottom_color.len() == 19);
    assert(top.len() == 10 && left.len() == 11);
    assert(top_color[11] == 'c' && top_style[11] == 's' && top_width[11] == 'w');
    assert(left_color[12] == 'c' && left_style[12] == 's' && left_width[12] == 'w');
    assert forall|longhand: Longhand|
        property_named(#[trigger] longhand.css_name()) == PropertyName::Longhand(longhand) by {
        match longhand {
            Longhand::BorderTopColor => {},
            Longhand::BorderRightColor => {},
            Longhand::BorderBottomColor => {},
            Longhand::BorderLeftColor => {},
            Longhand::BorderTopStyle => {},
            Longhand::BorderTopWidth => {},
            Longhand::BorderLeftStyle => {},
            Longhand::BorderLeftWidth => {},
        }
    }
    assert forall|shorthand: Shorthand|
        property_named(#[trigger] shorthand.css_name()) == PropertyName::Shorthand(shorthand) by {
        match shorthand {
            Shorthand::BorderTop => {},
            Shorthand::BorderLeft => {},
        }
    }
}

/// A copy of `flags` with the flag at `index` set to `value`.
fn with_flag(flags: &Vec<bool>, index: usize, value: bool) -> (updated: Vec<bool>)
    requires
        index < flags@.len(),
    ensures
        updated@ == flags@.update(index as int, value),
{
    let mut updated: Vec<bool> = Vec::new();
    let mut i: usize = 0;
    while i < flags.len()
        invariant
            i <= flags@.len(),
            index < flags@.len(),
            updated@ == flags@.update(index as int, value).take(i as int),
        decreases flags@.len() - i,
    {
        let flag = if i == index {
            value
        } else {
            flags[i]
        };
        updated.push(flag);
        i += 1;
        assert(flags@.update(index as int, value).take(i as int).drop_last() == flags@.update(
            index as int,
            value,
        ).take(i - 1));
    }
    assert(flags@.update(index as int, value).take(flags@.len() as int) == flags@.update(
        index as int,
        value,
    ));
    updated
}

/// The registry as a table: the canonical name of every property, written
/// out once when the table is built, and which properties are experimental.
pub struct PropertyRegistry {
    longhand_names: Vec<String>,
    shorthand_names: Vec<String>,
    experimental_longhands: Vec<bool>,
    experimental_shorthands: Vec<bool>,
}

impl PropertyRegistry {
    #[verifier::type_invariant]
    spec fn well_formed(self) -> bool {
        &&& self.longhand_names@.len() == LONGHAND_COUNT
        &&& self.shorthand_names@.len() == SHORTHAND_COUNT
        &&& self.experimental_longhands@.len() == LONGHAND_COUNT
        &&& self.experimental_shorthands@.len() == SHORTHAND_COUNT
        &&& forall|i: int|
            0 <= i < LONGHAND_COUNT ==> (#[trigger] self.longhand_names@[i])@ == Longhand::at(
                i,
            ).css_name()
        &&& forall|i: int|
            0 <= i < SHORTHAND_COUNT ==> (#[trigger] self.shorthand_names@[i])@ == Shorthand::at(
                i,
            ).css_name()
    }

    /// Whether the registry holds the longhand as experimental.
    pub closed spec fn longhand_is_experimental(self, property: Longhand) -> bool {
        self.experimental_longhands@[property.ordinal()]
    }

    /// Whether the registry holds the shorthand as experimental.
    pub closed spec fn shorthand_is_experimental(self, property: Shorthand) -> bool {
        self.experimental_shorthands@[property.ordinal()]
    }

    /// Builds the registry. Each canonical name is spelled out from the
    /// property's identifier here, once. No property is experimental.
    pub fn new() -> (registry: PropertyRegistry)
        ensures
            forall|p: Longhand| !registry.longhand_is_experimental(p),
            forall|p: Shorthand| !registry.shorthand_is_experimental(p),
    {
        let mut longhand_names: Vec<String> = Vec::new();
        let mut experimental_longhands: Vec<bool> = Vec::new();
        let mut i: usize = 0;
        while i < LONGHAND_COUNT
            invariant
                i <= LONGHAND_COUNT,
                longhand_names@.len() == i,
                experimental_longhands@.len() == i,
                forall|j: int|
                    0 <= j < i ==> (#[trigger] longhand_names@[j])@ == Longhand::at(j).css_name(),
                forall|j: int| 0 <= j < i ==> !(#[trigger] experimental_longhands@[j]),
            decreases LONGHAND_COUNT - i,
        {
            match Longhand::from_index(i) {
                Some(property) => {
                    longhand_names.push(expand_ident_to_css_name(property.ident()));
                    experimental_longhands.push(false);
                },
                None => {},
            }
            i += 1;
        }
        let mut shorthand_names: Vec<String> = Vec::new();
        let mut experimental_shorthands: Vec<bool> = Vec::new();
        let mut k: usize = 0;
        while k < SHORTHAND_COUNT
            invariant
                k <= SHORTHAND_COUNT,
                shorthand_names@.len() == k,
                experimental_shorthands@.len() == k,
                forall|j: int|
                    0 <= j < k ==> (#[trigger] shorthand_names@[j])@ == Shorthand::at(j).css_name(),
                forall|j: int| 0 <= j < k ==> !(#[trigger] experimental_shorthands@[j]),
            decreases SHORTHAND_COUNT - k,
        {
            match Shorthand::from_index(k) {
                Some(property) => {
                    shorthand_names.push(expand_ident_to_css_name(property.ident()));
                    experimental_shorthands.push(false);
                },
                None => {},
            }
            k += 1;
        }
        PropertyRegistry {
            longhand_names,
            shorthand_names,
            experimental_longhands,
            experimental_shorthands,
        }
    }

    /// Whether the longhand is experimental.
    pub fn is_longhand_experimental(&self, property: Longhand) -> (experimental: bool)
        ensures
            experimental == self.longhand_is_experimental(property),
    {
        proof {
            use_type_invariant(self);
        }
        self.experimental_longhands[property.index()]
    }

    /// Whether the shorthand is experimental.
    pub fn is_shorthand_experimental(&self, property: Shorthand) -> (experimental: bool)
        ensures
            experimental == self.shorthand_is_experimental(property),
    {
        proof {
            use_type_invariant(self);
        }
        self.experimental_shorthands[property.index()]
    }

    /// Marks a longhand as experimental, or as no longer so.
    pub fn set_longhand_experimental(&mut self, property: Longhand, experimental: bool)
        ensures
            final(self).longhand_is_experimental(property) == experimental,
            forall|p: Longhand|
                p != property ==> final(self).longhand_is_experimental(p) == old(
                    self,
                ).longhand_is_experimental(p),
            forall|p: Shorthand|
                final(self).shorthand_is_experimental(p) == old(self).shorthand_is_experimental(p),
    {
        proof {
            use_type_invariant(&*self);
        }
        self.experimental_longhands = with_flag(
            &self.experimental_longhands,
            property.index(),
            experimental,
        );
    }

    /// Marks a shorthand as experimental, or as no longer so.
    pub fn set_shorthand_experimental(&mut self, property: Shorthand, experimental: bool)
        ensures
            final(self).shorthand_is_experimental(property) == experimental,
            forall|p: Shorthand|
                p != property ==> final(self).shorthand_is_experimental(p) == old(
                    self,
                ).shorthand_is_experimental(p),
            forall|p: Longhand|
                final(self).longhand_is_experimental(p) == old(self).longhand_is_experimental(p),
    {
        proof {
            use_type_invariant(&*self);
        }
        self.experimental_shorthands = with_flag(
            &self.experimental_shorthands,
            property.index(),
            experimental,
        );
    }

    /// Resolves a property name: the longhand or the shorthand whose
    /// canonical name it is, whatever the case of its ASCII letters.
    pub fn find(&self, name: &str) -> (found: PropertyName)
        ensures
            found == property_named(name@),
    {
        proof {
            use_type_invariant(self);
        }
        let mut i: usize = 0;
        while i < LONGHAND_COUNT
            invariant
                i <= LONGHAND_COUNT,
                self.longhand_names@.len() == LONGHAND_COUNT,
                forall|j: int|
                    0 <= j < LONGHAND_COUNT ==> (#[trigger] self.longhand_names@[j])@
                        == Longhand::at(j).css_name(),
                longhand_named_from(name@, 0) == longhand_named_from(name@, i as int),
            decreases LONGHAND_COUNT - i,
        {
            if eq_ignore_ascii_case(name, self.longhand_names[i].as_str()) {
                match Longhand::from_index(i) {
                    Some(property) => {
                        return PropertyName::Longhand(property);
                    },
                    None => {},
                }
            }
            i += 1;
        }
        let mut k: usize = 0;
        while k < SHORTHAND_COUNT
            invariant
                k <= SHORTHAND_COUNT,
                self.shorthand_names@.len() == SHORTHAND_COUNT,
                forall|j: int|
                    0 <= j < SHORTHAND_COUNT ==> (#[trigger] self.shorthand_names@[j])@
                        == Shorthand::at(j).css_name(),
                longhand_named_from(name@, 0) is None,
                shorthand_named_from(name@, 0) == shorthand_named_from(name@, k as int),
            decreases SHORTHAND_COUNT - k,
        {
            if eq_ignore_ascii_case(name, self.shorthand_names[k].as_str()) {
                match Shorthand::from_index(k) {
                    Some(property) => {
                        return PropertyName::Shorthand(property);
                    },
                    None => {},
                }
            }
            k += 1;
        }
        PropertyName::Unknown
    }
}

} // verus!
