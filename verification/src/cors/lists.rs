//! Lists of byte strings that are kept as sets.

use super::text::{bytes_eq, eq_ignoring_case, list_view, lower, same_ignoring_case, to_lower};
use vstd::prelude::*;

verus! {

/// No item occurs twice.
pub open spec fn distinct(items: Seq<Seq<u8>>) -> bool {
    forall|i: int, j: int| 0 <= i < j < items.len() ==> items[i] != items[j]
}

/// No ASCII letter of `name` is in upper case.
pub open spec fn is_lower(name: Seq<u8>) -> bool {
    forall|i: int| 0 <= i < name.len() ==> lower(#[trigger] name[i]) == name[i]
}

/// Every name is in lower case.
pub open spec fn all_lower(names: Seq<Seq<u8>>) -> bool {
    forall|i: int| 0 <= i < names.len() ==> is_lower(#[trigger] names[i])
}

/// `name` with its ASCII letters in lower case.
pub open spec fn lowered(name: Seq<u8>) -> Seq<u8> {
    Seq::new(name.len(), |i: int| lower(name[i]))
}

/// Each name of `names` in lower case.
pub open spec fn lowered_all(names: Seq<Seq<u8>>) -> Seq<Seq<u8>> {
    Seq::new(names.len(), |i: int| lowered(names[i]))
}

/// Two names are the same up to case exactly if their lower-case forms
/// are equal.
pub proof fn lemma_lowered_same(a: Seq<u8>, b: Seq<u8>)
    ensures
        same_ignoring_case(a, b) <==> lowered(a) == lowered(b),
{
    if same_ignoring_case(a, b) {
        assert(lowered(a) =~= lowered(b));
    }
    if lowered(a) == lowered(b) {
        assert(a.len() == lowered(a).len());
        assert(b.len() == lowered(b).len());
        assert forall|i: int| 0 <= i < a.len() implies lower(#[trigger] a[i]) == lower(b[i]) by {
            assert(lowered(a)[i] == lower(a[i]));
            assert(lowered(b)[i] == lower(b[i]));
        }
    }
}

/// `items` without the repetitions: of equal items the first stays.
pub open spec fn unique(items: Seq<Seq<u8>>) -> Seq<Seq<u8>>
    decreases items.len(),
{
    if items.len() == 0 {
        items
    } else if unique(items.drop_last()).contains(items.last()) {
        unique(items.drop_last())
    } else {
        unique(items.drop_last()).push(items.last())
    }
}

/// `unique` keeps what occurs and lets nothing occur twice.
pub proof fn lemma_unique(items: Seq<Seq<u8>>)
    ensures
        distinct(unique(items)),
        forall|x: Seq<u8>| unique(items).contains(x) <==> items.contains(x),
        all_lower(items) ==> all_lower(unique(items)),
    decreases items.len(),
{
    if items.len() > 0 {
        let head = items.drop_last();
        lemma_unique(head);
        let kept = unique(head);
        assert forall|x: Seq<u8>| unique(items).contains(x) <==> items.contains(x) by {
            if items.contains(x) {
                let k = choose|k: int| 0 <= k < items.len() && items[k] == x;
                if k < head.len() {
                    assert(head[k] == x);
                    assert(head.contains(x));
                    assert(kept.contains(x));
                    if !kept.contains(items.last()) {
                        let m = choose|m: int| 0 <= m < kept.len() && kept[m] == x;
                        assert(kept.push(items.last())[m] == x);
                    }
                } else {
                    if !kept.contains(items.last()) {
                        assert(kept.push(items.last())[kept.len() as int] == x);
                    }
                }
            }
            if unique(items).contains(x) {
                let m = choose|m: int| 0 <= m < unique(items).len() && unique(items)[m] == x;
                if kept.contains(items.last()) || m < kept.len() {
                    assert(kept[m] == x);
                    assert(kept.contains(x));
                    assert(head.contains(x));
                    let k = choose|k: int| 0 <= k < head.len() && head[k] == x;
                    assert(items[k] == x);
                    assert(items.contains(x));
                } else {
                    assert(items[items.len() - 1] == x);
                    assert(items.contains(x));
                }
            }
        }
        if all_lower(items) {
            assert forall|i: int| 0 <= i < head.len() implies is_lower(#[trigger] head[i]) by {
                assert(head[i] == items[i]);
            }
            assert(is_lower(items[items.len() - 1]));
        }
    }
}

/// Lower-casing leaves nothing in upper case.
pub proof fn lemma_lowered_all(names: Seq<Seq<u8>>)
    ensures
        all_lower(lowered_all(names)),
{
    assert forall|i: int| 0 <= i < names.len() implies is_lower(
        #[trigger] lowered_all(names)[i],
    ) by {
        assert(lowered_all(names)[i] == lowered(names[i]));
    }
}

/// Whether `item` is in `list`, compared byte for byte.
pub fn contains(list: &Vec<Vec<u8>>, item: &[u8]) -> (r: bool)
    ensures
        r == list_view(*list).contains(item@),
{
    let mut i: usize = 0;
    while i < list.len()
        invariant
            i <= list.len(),
            forall|k: int| 0 <= k < i ==> list_view(*list)[k] != item@,
        decreases list.len() - i,
    {
        if bytes_eq(list[i].as_slice(), item) {
            assert(list_view(*list)[i as int] == item@);
            return true;
        }
        i += 1;
    }
    false
}

/// Whether `name` is in `list`, compared without regard to case.
pub fn contains_ignoring_case(list: &Vec<Vec<u8>>, name: &[u8]) -> (r: bool)
    ensures
        r == exists|i: int|
            0 <= i < list_view(*list).len() && same_ignoring_case(list_view(*list)[i], name@),
{
    let mut i: usize = 0;
    while i < list.len()
        invariant
            i <= list.len(),
            forall|k: int| 0 <= k < i ==> !same_ignoring_case(list_view(*list)[k], name@),
        decreases list.len() - i,
    {
        if eq_ignoring_case(list[i].as_slice(), name) {
            assert(same_ignoring_case(list_view(*list)[i as int], name@));
            return true;
        }
        i += 1;
    }
    false
}

/// Copies a list.
pub fn copy_list(items: &Vec<Vec<u8>>) -> (r: Vec<Vec<u8>>)
    ensures
        list_view(r) == list_view(*items),
{
    let mut out: Vec<Vec<u8>> = Vec::new();
    let mut i: usize = 0;
    while i < items.len()
        invariant
            i <= items.len(),
            list_view(out) == list_view(*items).subrange(0, i as int),
        decreases items.len() - i,
    {
        let ghost before = list_view(out);
        let item = super::text::to_vec(items[i].as_slice());
        out.push(item);
        assert(list_view(out) =~= before.push(items[i as int]@));
        assert(list_view(out) =~= list_view(*items).subrange(0, i + 1));
        i += 1;
    }
    assert(list_view(out) =~= list_view(*items));
    out
}

/// Computes [`lowered`].
pub fn lowercase(name: &[u8]) -> (r: Vec<u8>)
    ensures
        r@ == lowered(name@),
{
    let mut out: Vec<u8> = Vec::new();
    let mut i: usize = 0;
    while i < name.len()
        invariant
            i <= name.len(),
            out@ == lowered(name@).subrange(0, i as int),
        decreases name.len() - i,
    {
        out.push(to_lower(name[i]));
        assert(out@ =~= lowered(name@).subrange(0, i + 1));
        i += 1;
    }
    assert(out@ =~= lowered(name@));
    out
}

/// Computes [`lowered_all`].
pub fn lowercase_all(names: &Vec<Vec<u8>>) -> (r: Vec<Vec<u8>>)
    ensures
        list_view(r) == lowered_all(list_view(*names)),
{
    let mut out: Vec<Vec<u8>> = Vec::new();
    let mut i: usize = 0;
    while i < names.len()
        invariant
            i <= names.len(),
            list_view(out) == lowered_all(list_view(*names)).subrange(0, i as int),
        decreases names.len() - i,
    {
        let ghost before = list_view(out);
        let low = lowercase(names[i].as_slice());
        out.push(low);
        assert(list_view(out) =~= before.push(lowered(names[i as int]@)));
        assert(list_view(out) =~= lowered_all(list_view(*names)).subrange(0, i + 1));
        i += 1;
    }
    assert(list_view(out) =~= lowered_all(list_view(*names)));
    out
}

/// Computes [`unique`].
pub fn unique_list(items: &Vec<Vec<u8>>) -> (r: Vec<Vec<u8>>)
    ensures
        list_view(r) == unique(list_view(*items)),
{
    let mut out: Vec<Vec<u8>> = Vec::new();
    let mut i: usize = 0;
    let ghost all = list_view(*items);
    assert(all.subrange(0, 0) =~= Seq::<Seq<u8>>::empty());
    assert(list_view(out) =~= Seq::<Seq<u8>>::empty());
    while i < items.len()
        invariant
            i <= items.len(),
            all == list_view(*items),
            list_view(out) == unique(all.subrange(0, i as int)),
        decreases items.len() - i,
    {
        let ghost before = list_view(out);
        proof {
            let next = all.subrange(0, i + 1);
            assert(next.drop_last() =~= all.subrange(0, i as int));
            assert(next.last() == items[i as int]@);
        }
        if !contains(&out, items[i].as_slice()) {
            let item = super::text::to_vec(items[i].as_slice());
            out.push(item);
            assert(list_view(out) =~= before.push(items[i as int]@));
        }
        i += 1;
    }
    assert(all.subrange(0, i as int) =~= all);
    out
}

} // verus!
