//! Declaration blocks: two sequences of declarations, the important ones and
//! the normal ones, each holding for every longhand at most one declaration,
//! the last that was made.

use std::sync::Arc;
use vstd::prelude::*;
use crate::bitfield::PropertyBitField;
use crate::declaration::{PropertyDeclaration, distinct_longhands};
use crate::registry::Longhand;

verus! {

/// Whether a later declaration of the sequence is of the same longhand as the
/// declaration at `i`.
pub open spec fn declared_later(declarations: Seq<PropertyDeclaration>, i: int) -> bool {
    exists|j: int|
        i < j < declarations.len() && (#[trigger] declarations[j]).longhand_spec()
            == declarations[i].longhand_spec()
}

/// What overriding leaves of a sequence of declarations: each declaration
/// that no later one of the same longhand follows, in the order in which
/// they stand.
pub open spec fn keep_last(declarations: Seq<PropertyDeclaration>) -> Seq<PropertyDeclaration>
    decreases declarations.len(),
{
    if declarations.len() == 0 {
        declarations
    } else if declared_later(declarations, 0) {
        keep_last(declarations.skip(1))
    } else {
        seq![declarations[0]] + keep_last(declarations.skip(1))
    }
}

/// Whether some declaration of the sequence is of the longhand.
pub open spec fn declares(declarations: Seq<PropertyDeclaration>, property: Longhand) -> bool {
    exists|i: int|
        0 <= i < declarations.len() && (#[trigger] declarations[i]).longhand_spec() == property
}

/// Every declaration that overriding leaves was in the sequence.
pub proof fn lemma_keep_last_members(declarations: Seq<PropertyDeclaration>)
    ensures
        forall|k: int|
            0 <= k < keep_last(declarations).len() ==> declarations.contains(
                #[trigger] keep_last(declarations)[k],
            ),
    decreases declarations.len(),
{
    if declarations.len() > 0 {
        let rest = declarations.skip(1);
        lemma_keep_last_members(rest);
        assert forall|k: int| 0 <= k < keep_last(declarations).len() implies declarations.contains(
            #[trigger] keep_last(declarations)[k],
        ) by {
            let d = keep_last(declarations)[k];
            if !declared_later(declarations, 0) && k == 0 {
                assert(declarations[0] == d);
            } else {
                let m = if declared_later(declarations, 0) {
                    k
                } else {
                    k - 1
                };
                assert(keep_last(rest)[m] == d);
                assert(rest.contains(d));
                let i = choose|i: int| 0 <= i < rest.len() && rest[i] == d;
                assert(declarations[i + 1] == d);
            }
        }
    }
}

/// Overriding leaves no two declarations of the same longhand.
pub proof fn lemma_keep_last_distinct(declarations: Seq<PropertyDeclaration>)
    ensures
        distinct_longhands(keep_last(declarations)),
    decreases declarations.len(),
{
    if declarations.len() > 0 {
        let rest = declarations.skip(1);
        lemma_keep_last_distinct(rest);
        lemma_keep_last_members(rest);
        if !declared_later(declarations, 0) {
            let kept = keep_last(declarations);
            assert forall|i: int, j: int| 0 <= i < j < kept.len() implies (
            #[trigger] kept[i]).longhand_spec() != (#[trigger] kept[j]).longhand_spec() by {
                assert(kept[j] == keep_last(rest)[j - 1]);
                if i == 0 {
                    assert(rest.contains(keep_last(rest)[j - 1]));
                    let m = choose|m: int| 0 <= m < rest.len() && rest[m] == keep_last(rest)[j - 1];
                    assert(declarations[m + 1] == kept[j]);
                } else {
                    assert(kept[i] == keep_last(rest)[i - 1]);
                }
            }
        }
    }
}

/// Overriding changes nothing in a sequence that declares no longhand twice.
pub proof fn lemma_keep_last_of_distinct(declarations: Seq<PropertyDeclaration>)
    requires
        distinct_longhands(declarations),
    ensures
        keep_last(declarations) == declarations,
    decreases declarations.len(),
{
    if declarations.len() > 0 {
        let rest = declarations.skip(1);
        assert forall|i: int, j: int| 0 <= i < j < rest.len() implies (
        #[trigger] rest[i]).longhand_spec() != (#[trigger] rest[j]).longhand_spec() by {
            assert(rest[i] == declarations[i + 1]);
            assert(rest[j] == declarations[j + 1]);
        }
        lemma_keep_last_of_distinct(rest);
        assert(!declared_later(declarations, 0));
        assert(seq![declarations[0]] + rest =~= declarations);
    }
}

/// Overriding a second time changes nothing: a sequence that was made by
/// overriding comes out of it as it went in.
pub proof fn lemma_keep_last_idempotent(declarations: Seq<PropertyDeclaration>)
    ensures
        keep_last(keep_last(declarations)) == keep_last(declarations),
{
    lemma_keep_last_distinct(declarations);
    lemma_keep_last_of_distinct(keep_last(declarations));
}

/// The last declaration of a longhand wins: it is among those that
/// overriding leaves, and no other declaration of its longhand is.
pub proof fn lemma_last_declaration_wins(declarations: Seq<PropertyDeclaration>, i: int)
    requires
        0 <= i < declarations.len(),
        !declared_later(declarations, i),
    ensures
        keep_last(declarations).contains(declarations[i]),
        forall|k: int|
            0 <= k < keep_last(declarations).len() && (#[trigger] keep_last(
                declarations,
            )[k]).longhand_spec() == declarations[i].longhand_spec() ==> keep_last(declarations)[k]
                == declarations[i],
    decreases declarations.len(),
{
    let kept = keep_last(declarations);
    let rest = declarations.skip(1);
    if i == 0 {
        assert(kept[0] == declarations[0]);
    } else {
        assert(rest[i - 1] == declarations[i]);
        if declared_later(rest, i - 1) {
            let j = choose|j: int|
                i - 1 < j < rest.len() && (#[trigger] rest[j]).longhand_spec() == rest[i
                    - 1].longhand_spec();
            assert(declarations[j + 1] == rest[j]);
        }
        lemma_last_declaration_wins(rest, i - 1);
        let m = choose|m: int| 0 <= m < keep_last(rest).len() && keep_last(rest)[m] == rest[i - 1];
        if declared_later(declarations, 0) {
            assert(kept[m] == declarations[i]);
        } else {
            assert(kept[m + 1] == declarations[i]);
        }
    }
    lemma_keep_last_distinct(declarations);
    let at = choose|at: int| 0 <= at < kept.len() && kept[at] == declarations[i];
    assert forall|k: int|
        0 <= k < kept.len() && (#[trigger] kept[k]).longhand_spec()
            == declarations[i].longhand_spec() implies kept[k] == declarations[i] by {
        if k < at {
            assert(kept[k].longhand_spec() != kept[at].longhand_spec());
        } else if at < k {
            assert(kept[at].longhand_spec() != kept[k].longhand_spec());
        }
    }
}

/// Overriding loses no longhand: what the sequence declares, what is left of
/// it declares too.
pub proof fn lemma_keep_last_declares(declarations: Seq<PropertyDeclaration>, property: Longhand)
    ensures
        declares(keep_last(declarations), property) == declares(declarations, property),
    decreases declarations.len(),
{
    let kept = keep_last(declarations);
    lemma_keep_last_members(declarations);
    if declares(kept, property) {
        let k = choose|k: int|
            0 <= k < kept.len() && (#[trigger] kept[k]).longhand_spec() == property;
        assert(declarations.contains(kept[k]));
        let i = choose|i: int| 0 <= i < declarations.len() && declarations[i] == kept[k];
        assert(declarations[i].longhand_spec() == property);
    }
    if declares(declarations, property) {
        let i = choose|i: int|
            0 <= i < declarations.len() && (#[trigger] declarations[i]).longhand_spec() == property;
        let rest = declarations.skip(1);
        if i > 0 {
            assert(rest[i - 1] == declarations[i]);
            assert(declares(rest, property));
        }
        if declares(rest, property) {
            lemma_keep_last_declares(rest, property);
            let k = choose|k: int|
                0 <= k < keep_last(rest).len() && (#[trigger] keep_last(rest)[k]).longhand_spec()
                    == property;
            if declared_later(declarations, 0) {
                assert(kept[k] == keep_last(rest)[k]);
            } else {
                assert(kept[k + 1] == keep_last(rest)[k]);
            }
        } else {
            assert(i == 0);
            if declared_later(declarations, 0) {
                let j = choose|j: int|
                    0 < j < declarations.len() && (#[trigger] declarations[j]).longhand_spec()
                        == declarations[0].longhand_spec();
                assert(rest[j - 1] == declarations[j]);
            }
            assert(kept[0] == declarations[0]);
        }
    }
}

/// Drops from a sequence of declarations each one that a later declaration
/// of the same longhand overrides. Those that stay keep their order.
pub fn keep_last_declarations(declarations: &[PropertyDeclaration]) -> (kept: Vec<
    PropertyDeclaration,
>)
    ensures
        kept@ == keep_last(declarations@),
{
    let ghost all = declarations@;
    let mut seen = PropertyBitField::new();
    let mut reversed: Vec<PropertyDeclaration> = Vec::new();
    let mut i: usize = declarations.len();
    assert(all.skip(i as int) =~= Seq::<PropertyDeclaration>::empty());
    while i > 0
        invariant
            i <= all.len(),
            all == declarations@,
            reversed@.reverse() == keep_last(all.skip(i as int)),
            forall|property: Longhand|
                seen.contains(property) <==> exists|j: int|
                    i <= j < all.len() && (#[trigger] all[j]).longhand_spec() == property,
        decreases i,
    {
        i -= 1;
        let declaration = declarations[i];
        let property = declaration.longhand();
        let ghost tail = all.skip(i as int);
        let ghost before = reversed@;
        let ghost seen_before = seen;
        proof {
            assert(tail.skip(1) =~= all.skip(i + 1));
            assert(tail[0] == declaration);
            if seen.contains(property) {
                let j = choose|j: int|
                    i + 1 <= j < all.len() && (#[trigger] all[j]).longhand_spec() == property;
                assert(tail[j - i] == all[j]);
                assert(declared_later(tail, 0));
            } else if declared_later(tail, 0) {
                let j = choose|j: int|
                    0 < j < tail.len() && (#[trigger] tail[j]).longhand_spec()
                        == tail[0].longhand_spec();
                assert(all[i + j] == tail[j]);
            }
        }
        if !seen.get(property) {
            seen.set(property, true);
            reversed.push(declaration);
            assert(reversed@.reverse() =~= seq![declaration] + before.reverse());
        }
        proof {
            assert forall|p: Longhand|
                seen.contains(p) <==> exists|j: int|
                    i <= j < all.len() && (#[trigger] all[j]).longhand_spec() == p by {
                if seen.contains(p) {
                    if p == property {
                        assert(all[i as int].longhand_spec() == p);
                    } else {
                        assert(seen_before.contains(p));
                        let j = choose|j: int|
                            i + 1 <= j < all.len() && (#[trigger] all[j]).longhand_spec() == p;
                        assert(all[j].longhand_spec() == p);
                    }
                }
                if exists|j: int| i <= j < all.len() && (#[trigger] all[j]).longhand_spec() == p {
                    let j = choose|j: int|
                        i <= j < all.len() && (#[trigger] all[j]).longhand_spec() == p;
                    if j > i {
                        assert(all[j].longhand_spec() == p);
                        assert(seen_before.contains(p));
                    }
                }
            }
        }
    }
    assert(all.skip(0) =~= all);
    let count = reversed.len();
    let mut kept: Vec<PropertyDeclaration> = Vec::new();
    let mut k: usize = count;
    while k > 0
        invariant
            k <= count,
            count == reversed@.len(),
            kept@.len() == count - k,
            forall|m: int| 0 <= m < kept@.len() ==> kept@[m] == reversed@[count - 1 - m],
        decreases k,
    {
        k -= 1;
        kept.push(reversed[k]);
    }
    assert(kept@ =~= reversed@.reverse());
    kept
}

/// The declarations of one style attribute or of one rule body, split by
/// importance. Each sequence holds at most one declaration of a longhand.
/// The storage of each is shared and never written again.
pub struct PropertyDeclarationBlock {
    important: Arc<Vec<PropertyDeclaration>>,
    normal: Arc<Vec<PropertyDeclaration>>,
}

/// `Arc::clone` gives another handle to the same storage: what is read
/// through it is what is read through the first.
#[verifier::external_body]
fn share(storage: &Arc<Vec<PropertyDeclaration>>) -> (handle: Arc<Vec<PropertyDeclaration>>)
    ensures
        handle@ == storage@,
{
    Arc::clone(storage)
}

impl PropertyDeclarationBlock {
    #[verifier::type_invariant]
    spec fn well_formed(self) -> bool {
        distinct_longhands(self.important@) && distinct_longhands(self.normal@)
    }

    /// The important declarations, in source order.
    pub closed spec fn important_spec(self) -> Seq<PropertyDeclaration> {
        self.important@
    }

    /// The normal declarations, in source order.
    pub closed spec fn normal_spec(self) -> Seq<PropertyDeclaration> {
        self.normal@
    }

    /// Assembles a block from the important and the normal declarations of a
    /// list, each in source order: in each sequence a declaration gives way
    /// to a later one of the same longhand.
    pub fn new(important: Vec<PropertyDeclaration>, normal: Vec<PropertyDeclaration>) -> (block:
        PropertyDeclarationBlock)
        ensures
            block.important_spec() == keep_last(important@),
            block.normal_spec() == keep_last(normal@),
    {
        proof {
            lemma_keep_last_distinct(important@);
            lemma_keep_last_distinct(normal@);
        }
        let important_kept = keep_last_declarations(important.as_slice());
        let normal_kept = keep_last_declarations(normal.as_slice());
        PropertyDeclarationBlock {
            important: Arc::new(important_kept),
            normal: Arc::new(normal_kept),
        }
    }

    /// A handle to the important declarations.
    pub fn important(&self) -> (declarations: Arc<Vec<PropertyDeclaration>>)
        ensures
            declarations@ == self.important_spec(),
            distinct_longhands(declarations@),
    {
        proof {
            use_type_invariant(self);
        }
        share(&self.important)
    }

    /// A handle to the normal declarations.
    pub fn normal(&self) -> (declarations: Arc<Vec<PropertyDeclaration>>)
        ensures
            declarations@ == self.normal_spec(),
            distinct_longhands(declarations@),
    {
        proof {
            use_type_invariant(self);
        }
        share(&self.normal)
    }
}

/// Releases a block: the storage of each sequence goes when its last handle
/// does.
pub fn dummy(block: PropertyDeclarationBlock) {
    let _ = block;
}

} // verus!
