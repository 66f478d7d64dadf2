//! The order of names in a listing, and sorting by it.

use vstd::prelude::*;
use vstd::seq_lib::*;
use crate::types::FileAttr;

verus! {

/// The order of strings: position by position, by code point; a proper prefix
/// comes before the longer string.
pub open spec fn name_le(a: Seq<char>, b: Seq<char>) -> bool
    decreases a.len(),
{
    if a.len() == 0 {
        true
    } else if b.len() == 0 {
        false
    } else if a[0] != b[0] {
        (a[0] as u32) < (b[0] as u32)
    } else {
        name_le(a.drop_first(), b.drop_first())
    }
}

/// Every string is at or before itself.
pub proof fn lemma_name_le_reflexive(a: Seq<char>)
    ensures
        name_le(a, a),
    decreases a.len(),
{
    if a.len() > 0 {
        lemma_name_le_reflexive(a.drop_first());
    }
}

/// Of two strings one is at or before the other.
pub proof fn lemma_name_le_total(a: Seq<char>, b: Seq<char>)
    ensures
        name_le(a, b) || name_le(b, a),
    decreases a.len(),
{
    if a.len() > 0 && b.len() > 0 {
        if a[0] == b[0] {
            lemma_name_le_total(a.drop_first(), b.drop_first());
        } else {
            vstd::utf8::char_u32_cast(a[0], a[0] as u32);
            vstd::utf8::char_u32_cast(b[0], b[0] as u32);
        }
    }
}

/// The order of strings is transitive.
pub proof fn lemma_name_le_transitive(a: Seq<char>, b: Seq<char>, c: Seq<char>)
    requires
        name_le(a, b),
        name_le(b, c),
    ensures
        name_le(a, c),
    decreases a.len(),
{
    if a.len() > 0 && b.len() > 0 && c.len() > 0 && a[0] == b[0] && b[0] == c[0] {
        lemma_name_le_transitive(a.drop_first(), b.drop_first(), c.drop_first());
    }
}

/// `<=` on `str`, which std documents as the lexicographic order of the
/// strings' bytes, that is of their code points.
#[verifier::external_body]
fn str_le(a: &str, b: &str) -> (r: bool)
    ensures
        r == name_le(a@, b@),
{
    a <= b
}

/// What a listing is ordered by.
pub trait Named {
    spec fn name_view(&self) -> Seq<char>;

    fn name(&self) -> (r: &str)
        ensures
            r@ == self.name_view(),
    ;
}

impl Named for String {
    open spec fn name_view(&self) -> Seq<char> {
        self@
    }

    fn name(&self) -> (r: &str) {
        self.as_str()
    }
}

impl Named for FileAttr {
    open spec fn name_view(&self) -> Seq<char> {
        self.name@
    }

    fn name(&self) -> (r: &str) {
        self.name.as_str()
    }
}

/// Every item is at or before each item that follows it.
pub open spec fn sorted_by_name<T: Named>(items: Seq<T>) -> bool {
    forall|i: int, j: int|
        0 <= i < j < items.len() ==> name_le(
            #[trigger] items[i].name_view(),
            #[trigger] items[j].name_view(),
        )
}

/// Index of the first item of `items` that no other item comes before.
fn first_smallest<T: Named>(items: &Vec<T>) -> (m: usize)
    requires
        items@.len() > 0,
    ensures
        m < items@.len(),
        forall|j: int|
            0 <= j < items@.len() ==> name_le(
                items@[m as int].name_view(),
                #[trigger] items@[j].name_view(),
            ),
{
    let mut m: usize = 0;
    let mut k: usize = 1;
    proof {
        lemma_name_le_reflexive(items@[0].name_view());
    }
    while k < items.len()
        invariant
            m < k <= items@.len(),
            forall|j: int|
                0 <= j < k ==> name_le(
                    items@[m as int].name_view(),
                    #[trigger] items@[j].name_view(),
                ),
        decreases items@.len() - k,
    {
        if !str_le(items[m].name(), items[k].name()) {
            proof {
                let best = items@[m as int].name_view();
                let next = items@[k as int].name_view();
                lemma_name_le_total(best, next);
                lemma_name_le_reflexive(next);
                assert forall|j: int| 0 <= j < k + 1 implies name_le(
                    next,
                    #[trigger] items@[j].name_view(),
                ) by {
                    if j < k {
                        lemma_name_le_transitive(next, best, items@[j].name_view());
                    }
                }
            }
            m = k;
        }
        k += 1;
    }
    m
}

/// Puts `items` in ascending order of name. Nothing is added or lost.
pub fn sort_by_name<T: Named>(items: Vec<T>) -> (r: Vec<T>)
    ensures
        sorted_by_name(r@),
        r@.to_multiset() == items@.to_multiset(),
{
    let ghost all = items@.to_multiset();
    let mut rest = items;
    let mut out: Vec<T> = Vec::new();
    proof {
        broadcast use group_to_multiset_ensures;

        assert(out@.to_multiset().add(rest@.to_multiset()) =~= all);
    }
    while rest.len() > 0
        invariant
            sorted_by_name(out@),
            forall|i: int, j: int|
                0 <= i < out@.len() && 0 <= j < rest@.len() ==> name_le(
                    #[trigger] out@[i].name_view(),
                    #[trigger] rest@[j].name_view(),
                ),
            out@.to_multiset().add(rest@.to_multiset()) == all,
        decreases rest@.len(),
    {
        let m = first_smallest(&rest);
        let ghost rest_before = rest@;
        let ghost out_before = out@;
        let x = rest.remove(m);
        out.push(x);
        proof {
            broadcast use group_to_multiset_ensures;

            assert(rest_before.contains(x));
            assert(rest@.to_multiset() =~= rest_before.to_multiset().remove(x));
            assert(out@.to_multiset() =~= out_before.to_multiset().insert(x));
            assert(out@.to_multiset().add(rest@.to_multiset()) =~= all);
            assert forall|i: int, j: int| 0 <= i < out@.len() && 0 <= j < rest@.len() implies name_le(
                #[trigger] out@[i].name_view(),
                #[trigger] rest@[j].name_view(),
            ) by {
                let jj = if j < m { j } else { j + 1 };
                assert(rest@[j] == rest_before[jj]);
                if i < out_before.len() {
                    assert(out@[i] == out_before[i]);
                }
            }
            assert forall|i: int, j: int| 0 <= i < j < out@.len() implies name_le(
                #[trigger] out@[i].name_view(),
                #[trigger] out@[j].name_view(),
            ) by {
                if j < out_before.len() {
                    assert(out@[i] == out_before[i]);
                    assert(out@[j] == out_before[j]);
                } else {
                    assert(out@[i] == out_before[i]);
                    assert(out@[j] == rest_before[m as int]);
                }
            }
        }
    }
    proof {
        broadcast use group_to_multiset_ensures;

        assert(rest@.to_multiset() =~= vstd::multiset::Multiset::empty());
        assert(out@.to_multiset() =~= all);
    }
    out
}

} // verus!
