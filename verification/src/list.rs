//! Declaration lists: every item of a list is resolved, what it declares is
//! routed by its importance, what it fails to declare is reported, and the
//! block is assembled from the rest.

use vstd::prelude::*;
use crate::block::{
    PropertyDeclarationBlock, declares, keep_last, lemma_keep_last_declares,
    lemma_keep_last_distinct, lemma_keep_last_members,
};
use crate::declaration::{
    PropertyDeclaration, PropertyDeclarationParseResult, Resolution, distinct_longhands,
    lemma_resolution_names_property, names_longhand, parse_property_declaration, resolution,
};
use crate::errors::{
    CssError, CssErrorKind, CssErrorView, at_rule_error, at_rule_message, declaration_error,
    declaration_message, errors_view,
};
use crate::registry::{Longhand, PropertyRegistry};
use crate::syntax::{Declaration, DeclarationListItem, color_of_text, sole_token};

verus! {

/// The resolution of a raw declaration of a list.
pub open spec fn item_resolution(
    registry: PropertyRegistry,
    declaration: Declaration,
    experimental_enabled: bool,
) -> Resolution {
    resolution(
        registry,
        declaration.name@,
        sole_token(declaration.value@),
        color_of_text(declaration.value@),
        experimental_enabled,
    )
}

/// The declarations that an item contributes to the sequence of the given
/// importance: those of its resolution where it is a declaration of that
/// importance, none otherwise.
pub open spec fn item_declarations(
    registry: PropertyRegistry,
    item: DeclarationListItem,
    important: bool,
    experimental_enabled: bool,
) -> Seq<PropertyDeclaration> {
    match item {
        DeclarationListItem::Declaration(declaration) => {
            if declaration.important == important {
                item_resolution(registry, declaration, experimental_enabled).declarations
            } else {
                Seq::empty()
            }
        },
        DeclarationListItem::DeclAtRule(_) => Seq::empty(),
    }
}

/// The declarations of the given importance that a list yields before
/// overriding, in source order.
pub open spec fn declarations_of(
    registry: PropertyRegistry,
    items: Seq<DeclarationListItem>,
    important: bool,
    experimental_enabled: bool,
) -> Seq<PropertyDeclaration>
    decreases items.len(),
{
    if items.len() == 0 {
        Seq::empty()
    } else {
        declarations_of(registry, items.drop_last(), important, experimental_enabled)
            + item_declarations(registry, items.last(), important, experimental_enabled)
    }
}

/// The report on an item, if it is passed over: an at-rule always, a
/// declaration unless it is valid.
pub open spec fn item_error(
    registry: PropertyRegistry,
    item: DeclarationListItem,
    experimental_enabled: bool,
) -> Option<CssErrorView> {
    match item {
        DeclarationListItem::DeclAtRule(rule) => Some(
            CssErrorView {
                location: rule.location,
                kind: CssErrorKind::UnsupportedAtRule,
                message: at_rule_message(rule.name@),
            },
        ),
        DeclarationListItem::Declaration(declaration) => {
            let kind = match item_resolution(registry, declaration, experimental_enabled).outcome {
                PropertyDeclarationParseResult::UnknownProperty => Some(
                    CssErrorKind::UnknownProperty,
                ),
                PropertyDeclarationParseResult::ExperimentalProperty => Some(
                    CssErrorKind::ExperimentalProperty,
                ),
                PropertyDeclarationParseResult::InvalidValue => Some(CssErrorKind::InvalidValue),
                PropertyDeclarationParseResult::ValidOrIgnoredDeclaration => None,
            };
            match kind {
                Some(kind) => Some(
                    CssErrorView {
                        location: declaration.location,
                        kind,
                        message: declaration_message(kind, declaration.name@, declaration.value@),
                    },
                ),
                None => None,
            }
        },
    }
}

/// The reports on a list, in source order.
pub open spec fn log_of(
    registry: PropertyRegistry,
    items: Seq<DeclarationListItem>,
    experimental_enabled: bool,
) -> Seq<CssErrorView>
    decreases items.len(),
{
    if items.len() == 0 {
        Seq::empty()
    } else {
        let before = log_of(registry, items.drop_last(), experimental_enabled);
        match item_error(registry, items.last(), experimental_enabled) {
            Some(error) => before.push(error),
            None => before,
        }
    }
}

/// No item stands in the way of another: what a list yields, in declarations
/// and in reports, is what its first part yields followed by what the rest
/// yields, whatever either part holds.
pub proof fn lemma_items_are_independent(
    registry: PropertyRegistry,
    first: Seq<DeclarationListItem>,
    rest: Seq<DeclarationListItem>,
    important: bool,
    experimental_enabled: bool,
)
    ensures
        declarations_of(registry, first + rest, important, experimental_enabled)
            == declarations_of(registry, first, important, experimental_enabled) + declarations_of(
            registry,
            rest,
            important,
            experimental_enabled,
        ),
        log_of(registry, first + rest, experimental_enabled) == log_of(
            registry,
            first,
            experimental_enabled,
        ) + log_of(registry, rest, experimental_enabled),
    decreases rest.len(),
{
    if rest.len() == 0 {
        assert(first + rest =~= first);
        assert(declarations_of(registry, first, important, experimental_enabled)
            + Seq::<PropertyDeclaration>::empty() =~= declarations_of(
            registry,
            first,
            important,
            experimental_enabled,
        ));
        assert(log_of(registry, first, experimental_enabled) + Seq::<CssErrorView>::empty()
            =~= log_of(registry, first, experimental_enabled));
    } else {
        let all = first + rest;
        assert(all.drop_last() =~= first + rest.drop_last());
        assert(all.last() == rest.last());
        lemma_items_are_independent(
            registry,
            first,
            rest.drop_last(),
            important,
            experimental_enabled,
        );
        assert(declarations_of(registry, all, important, experimental_enabled)
            =~= declarations_of(registry, first, important, experimental_enabled)
            + declarations_of(registry, rest, important, experimental_enabled));
        assert(log_of(registry, all, experimental_enabled) =~= log_of(
            registry,
            first,
            experimental_enabled,
        ) + log_of(registry, rest, experimental_enabled));
    }
}

/// Whether an item is a raw declaration of the given importance whose name
/// stands for the longhand of `declaration`, and whose resolution holds it.
pub open spec fn is_source_of(
    registry: PropertyRegistry,
    item: DeclarationListItem,
    important: bool,
    experimental_enabled: bool,
    declaration: PropertyDeclaration,
) -> bool {
    match item {
        DeclarationListItem::Declaration(raw) => {
            &&& raw.important == important
            &&& names_longhand(raw.name@, declaration.longhand_spec())
            &&& item_resolution(registry, raw, experimental_enabled).declarations.contains(
                declaration,
            )
        },
        DeclarationListItem::DeclAtRule(_) => false,
    }
}

/// Whether an item is a raw declaration of the given importance whose name
/// stands for the longhand.
pub open spec fn item_names(
    item: DeclarationListItem,
    important: bool,
    property: Longhand,
) -> bool {
    match item {
        DeclarationListItem::Declaration(raw) => raw.important == important && names_longhand(
            raw.name@,
            property,
        ),
        DeclarationListItem::DeclAtRule(_) => false,
    }
}

/// Every declaration that a list yields for an importance comes from a raw
/// declaration of that importance whose name stands for its longhand.
pub proof fn lemma_declarations_have_sources(
    registry: PropertyRegistry,
    items: Seq<DeclarationListItem>,
    important: bool,
    experimental_enabled: bool,
)
    ensures
        forall|k: int|
            0 <= k < declarations_of(registry, items, important, experimental_enabled).len()
                ==> exists|i: int|
                0 <= i < items.len() && is_source_of(
                    registry,
                    #[trigger] items[i],
                    important,
                    experimental_enabled,
                    #[trigger] declarations_of(registry, items, important, experimental_enabled)[k],
                ),
    decreases items.len(),
{
    if items.len() > 0 {
        let before = items.drop_last();
        lemma_declarations_have_sources(registry, before, important, experimental_enabled);
        let all = declarations_of(registry, items, important, experimental_enabled);
        let head = declarations_of(registry, before, important, experimental_enabled);
        let tail = item_declarations(registry, items.last(), important, experimental_enabled);
        assert forall|k: int| 0 <= k < all.len() implies exists|i: int|
            0 <= i < items.len() && is_source_of(
                registry,
                #[trigger] items[i],
                important,
                experimental_enabled,
                #[trigger] all[k],
            ) by {
            if k < head.len() {
                assert(all[k] == head[k]);
                let i = choose|i: int|
                    0 <= i < before.len() && is_source_of(
                        registry,
                        #[trigger] before[i],
                        important,
                        experimental_enabled,
                        head[k],
                    );
                assert(items[i] == before[i]);
            } else {
                let m = k - head.len();
                assert(all[k] == tail[m]);
                match items.last() {
                    DeclarationListItem::Declaration(raw) => {
                        lemma_resolution_names_property(
                            registry,
                            raw.name@,
                            sole_token(raw.value@),
                            color_of_text(raw.value@),
                            experimental_enabled,
                        );
                        assert(is_source_of(
                            registry,
                            items[items.len() - 1],
                            important,
                            experimental_enabled,
                            all[k],
                        ));
                    },
                    DeclarationListItem::DeclAtRule(_) => {},
                }
            }
        }
    }
}

/// Of a block's two sequences, each holds no longhand twice, and each of its
/// declarations comes from a raw declaration of the list that has the
/// sequence's importance and whose name stands for the declaration's
/// longhand.
pub proof fn lemma_block_from_source(
    registry: PropertyRegistry,
    items: Seq<DeclarationListItem>,
    important: bool,
    experimental_enabled: bool,
)
    ensures
        distinct_longhands(
            keep_last(declarations_of(registry, items, important, experimental_enabled)),
        ),
        forall|k: int|
            0 <= k < keep_last(
                declarations_of(registry, items, important, experimental_enabled),
            ).len() ==> exists|i: int|
                0 <= i < items.len() && is_source_of(
                    registry,
                    #[trigger] items[i],
                    important,
                    experimental_enabled,
                    #[trigger] keep_last(
                        declarations_of(registry, items, important, experimental_enabled),
                    )[k],
                ),
{
    let all = declarations_of(registry, items, important, experimental_enabled);
    let kept = keep_last(all);
    lemma_keep_last_distinct(all);
    lemma_keep_last_members(all);
    lemma_declarations_have_sources(registry, items, important, experimental_enabled);
    assert forall|k: int| 0 <= k < kept.len() implies exists|i: int|
        0 <= i < items.len() && is_source_of(
            registry,
            #[trigger] items[i],
            important,
            experimental_enabled,
            #[trigger] kept[k],
        ) by {
        assert(all.contains(kept[k]));
        let m = choose|m: int| 0 <= m < all.len() && all[m] == kept[k];
        assert(all[m] == kept[k]);
    }
}

/// Importance parts the declarations: a longhand for which no raw
/// declaration of an importance stands is declared nowhere in the sequence
/// of that importance, whatever the declarations of the other importance
/// are.
pub proof fn lemma_importance_partition(
    registry: PropertyRegistry,
    items: Seq<DeclarationListItem>,
    important: bool,
    experimental_enabled: bool,
    property: Longhand,
)
    requires
        forall|i: int|
            0 <= i < items.len() ==> !item_names(#[trigger] items[i], important, property),
    ensures
        !declares(
            keep_last(declarations_of(registry, items, important, experimental_enabled)),
            property,
        ),
{
    let kept = keep_last(declarations_of(registry, items, important, experimental_enabled));
    lemma_block_from_source(registry, items, important, experimental_enabled);
    if declares(kept, property) {
        let k = choose|k: int|
            0 <= k < kept.len() && (#[trigger] kept[k]).longhand_spec() == property;
        let i = choose|i: int|
            0 <= i < items.len() && is_source_of(
                registry,
                #[trigger] items[i],
                important,
                experimental_enabled,
                kept[k],
            );
        assert(item_names(items[i], important, property));
    }
}

/// What a list yields for an importance holds the declarations of each of
/// its items.
proof fn lemma_item_declarations_included(
    registry: PropertyRegistry,
    items: Seq<DeclarationListItem>,
    important: bool,
    experimental_enabled: bool,
    i: int,
    k: int,
)
    requires
        0 <= i < items.len(),
        0 <= k < item_declarations(registry, items[i], important, experimental_enabled).len(),
    ensures
        declarations_of(registry, items, important, experimental_enabled).contains(
            item_declarations(registry, items[i], important, experimental_enabled)[k],
        ),
    decreases items.len(),
{
    let before = items.drop_last();
    let all = declarations_of(registry, items, important, experimental_enabled);
    let head = declarations_of(registry, before, important, experimental_enabled);
    let wanted = item_declarations(registry, items[i], important, experimental_enabled)[k];
    if i == items.len() - 1 {
        assert(all[head.len() + k] == wanted);
    } else {
        assert(before[i] == items[i]);
        lemma_item_declarations_included(registry, before, important, experimental_enabled, i, k);
        let m = choose|m: int| 0 <= m < head.len() && head[m] == wanted;
        assert(all[m] == wanted);
    }
}

/// A longhand that a valid raw declaration declares is declared in the
/// sequence of that declaration's importance: by that declaration, or by a
/// later one that overrides it.
pub proof fn lemma_declared_stays_declared(
    registry: PropertyRegistry,
    items: Seq<DeclarationListItem>,
    important: bool,
    experimental_enabled: bool,
    i: int,
    k: int,
)
    requires
        0 <= i < items.len(),
        0 <= k < item_declarations(registry, items[i], important, experimental_enabled).len(),
    ensures
        declares(
            keep_last(declarations_of(registry, items, important, experimental_enabled)),
            item_declarations(
                registry,
                items[i],
                important,
                experimental_enabled,
            )[k].longhand_spec(),
        ),
{
    let all = declarations_of(registry, items, important, experimental_enabled);
    let wanted = item_declarations(registry, items[i], important, experimental_enabled)[k];
    lemma_item_declarations_included(registry, items, important, experimental_enabled, i, k);
    let m = choose|m: int| 0 <= m < all.len() && all[m] == wanted;
    assert(all[m].longhand_spec() == wanted.longhand_spec());
    assert(declares(all, wanted.longhand_spec()));
    lemma_keep_last_declares(all, wanted.longhand_spec());
}

/// Parses a declaration list into a block. Every item is resolved, in source
/// order, whatever became of those before it. The declarations of an item
/// marked `!important` go to the important sequence, those of any other to
/// the normal one; in each sequence a declaration gives way to a later one of
/// the same longhand, and those that stay keep their source order. Each item
/// that contributes nothing is reported at the end of `log`.
pub fn parse_property_declaration_list(
    registry: &PropertyRegistry,
    input: &[DeclarationListItem],
    base_url: &url::Url,
    experimental_enabled: bool,
    log: &mut Vec<CssError>,
) -> (block: PropertyDeclarationBlock)
    ensures
        block.important_spec() == keep_last(
            declarations_of(*registry, input@, true, experimental_enabled),
        ),
        block.normal_spec() == keep_last(
            declarations_of(*registry, input@, false, experimental_enabled),
        ),
        errors_view(final(log)@) == errors_view(old(log)@) + log_of(
            *registry,
            input@,
            experimental_enabled,
        ),
{
    let mut important_declarations: Vec<PropertyDeclaration> = Vec::new();
    let mut normal_declarations: Vec<PropertyDeclaration> = Vec::new();
    let mut i: usize = 0;
    assert(input@.take(0) =~= Seq::<DeclarationListItem>::empty());
    assert(errors_view(log@) =~= errors_view(old(log)@) + Seq::<CssErrorView>::empty());
    while i < input.len()
        invariant
            i <= input@.len(),
            important_declarations@ == declarations_of(
                *registry,
                input@.take(i as int),
                true,
                experimental_enabled,
            ),
            normal_declarations@ == declarations_of(
                *registry,
                input@.take(i as int),
                false,
                experimental_enabled,
            ),
            errors_view(log@) == errors_view(old(log)@) + log_of(
                *registry,
                input@.take(i as int),
                experimental_enabled,
            ),
        decreases input@.len() - i,
    {
        let ghost done = input@.take(i as int);
        let ghost next = input@.take(i + 1);
        let ghost log_before = log@;
        proof {
            assert(next.drop_last() =~= done);
            assert(next.last() == input@[i as int]);
        }
        match &input[i] {
            DeclarationListItem::DeclAtRule(rule) => {
                log.push(at_rule_error(rule.location, rule.name.as_str()));
                proof {
                    assert(errors_view(log@) =~= errors_view(log_before).push(log@.last()@));
                }
            },
            DeclarationListItem::Declaration(declaration) => {
                let outcome = if declaration.important {
                    parse_property_declaration(
                        registry,
                        declaration.name.as_str(),
                        declaration.value.as_str(),
                        &mut important_declarations,
                        base_url,
                        experimental_enabled,
                    )
                } else {
                    parse_property_declaration(
                        registry,
                        declaration.name.as_str(),
                        declaration.value.as_str(),
                        &mut normal_declarations,
                        base_url,
                        experimental_enabled,
                    )
                };
                proof {
                    assert(important_declarations@ =~= declarations_of(
                        *registry,
                        next,
                        true,
                        experimental_enabled,
                    ));
                    assert(normal_declarations@ =~= declarations_of(
                        *registry,
                        next,
                        false,
                        experimental_enabled,
                    ));
                }
                let kind = match outcome {
                    PropertyDeclarationParseResult::UnknownProperty => Some(
                        CssErrorKind::UnknownProperty,
                    ),
                    PropertyDeclarationParseResult::ExperimentalProperty => Some(
                        CssErrorKind::ExperimentalProperty,
                    ),
                    PropertyDeclarationParseResult::InvalidValue => Some(
                        CssErrorKind::InvalidValue,
                    ),
                    PropertyDeclarationParseResult::ValidOrIgnoredDeclaration => None,
                };
                match kind {
                    Some(kind) => {
                        log.push(
                            declaration_error(
                                declaration.location,
                                kind,
                                declaration.name.as_str(),
                                declaration.value.as_str(),
                            ),
                        );
                        proof {
                            assert(errors_view(log@) =~= errors_view(log_before).push(
                                log@.last()@,
                            ));
                        }
                    },
                    None => {},
                }
            },
        }
        i += 1;
        proof {
            assert(errors_view(log@) =~= errors_view(old(log)@) + log_of(
                *registry,
                next,
                experimental_enabled,
            ));
        }
    }
    assert(input@.take(input@.len() as int) =~= input@);
    PropertyDeclarationBlock::new(important_declarations, normal_declarations)
}

} // verus!
