//! Byte-level text helpers: ASCII case folding, trimming, splitting and
//! joining of comma-separated lists, and decimal rendering.

use vstd::prelude::*;
use vstd::string::StringSliceAdditionalSpecFns;

verus! {

/// The bytes of a piece of text.
pub open spec fn text(s: &str) -> Seq<u8> {
    s.spec_bytes()
}

/// Copies a byte slice into a vector.
pub fn to_vec(s: &[u8]) -> (r: Vec<u8>)
    ensures
        r@ == s@,
{
    let mut v: Vec<u8> = Vec::new();
    let mut i: usize = 0;
    while i < s.len()
        invariant
            i <= s.len(),
            v@ == s@.subrange(0, i as int),
        decreases s.len() - i,
    {
        v.push(s[i]);
        assert(v@ =~= s@.subrange(0, i + 1));
        i += 1;
    }
    assert(v@ =~= s@);
    v
}

/// The bytes of a piece of text, as a vector.
pub fn literal(s: &str) -> (r: Vec<u8>)
    ensures
        r@ == text(s),
{
    to_vec(s.as_bytes())
}

/// The lower-case form of an ASCII letter; every other byte is itself.
pub open spec fn lower(b: u8) -> u8 {
    if 65 <= b <= 90 {
        (b + 32) as u8
    } else {
        b
    }
}

/// Computes [`lower`].
pub fn to_lower(b: u8) -> (r: u8)
    ensures
        r == lower(b),
{
    if 65 <= b && b <= 90 {
        b + 32
    } else {
        b
    }
}

/// Two byte strings are the same up to the case of ASCII letters.
pub open spec fn same_ignoring_case(a: Seq<u8>, b: Seq<u8>) -> bool {
    &&& a.len() == b.len()
    &&& forall|i: int| 0 <= i < a.len() ==> lower(#[trigger] a[i]) == lower(b[i])
}

/// Equality up to case is an equivalence.
pub proof fn lemma_same_ignoring_case(a: Seq<u8>, b: Seq<u8>, c: Seq<u8>)
    ensures
        same_ignoring_case(a, a),
        same_ignoring_case(a, b) ==> same_ignoring_case(b, a),
        same_ignoring_case(a, b) && same_ignoring_case(b, c) ==> same_ignoring_case(a, c),
{
    if same_ignoring_case(a, b) {
        assert forall|i: int| 0 <= i < b.len() implies lower(#[trigger] b[i]) == lower(a[i]) by {
            assert(lower(a[i]) == lower(b[i]));
        }
        if same_ignoring_case(b, c) {
            assert forall|i: int| 0 <= i < a.len() implies lower(#[trigger] a[i]) == lower(
                c[i],
            ) by {
                assert(lower(b[i]) == lower(c[i]));
            }
        }
    }
}

/// Byte-exact comparison.
pub fn bytes_eq(a: &[u8], b: &[u8]) -> (r: bool)
    ensures
        r == (a@ == b@),
{
    if a.len() != b.len() {
        return false;
    }
    let mut i: usize = 0;
    while i < a.len()
        invariant
            a.len() == b.len(),
            i <= a.len(),
            forall|j: int| 0 <= j < i ==> a@[j] == b@[j],
        decreases a.len() - i,
    {
        if a[i] != b[i] {
            return false;
        }
        i += 1;
    }
    assert(a@ =~= b@);
    true
}

/// Comparison up to the case of ASCII letters.
pub fn eq_ignoring_case(a: &[u8], b: &[u8]) -> (r: bool)
    ensures
        r == same_ignoring_case(a@, b@),
{
    if a.len() != b.len() {
        return false;
    }
    let mut i: usize = 0;
    while i < a.len()
        invariant
            a.len() == b.len(),
            i <= a.len(),
            forall|j: int| 0 <= j < i ==> lower(#[trigger] a@[j]) == lower(b@[j]),
        decreases a.len() - i,
    {
        if to_lower(a[i]) != to_lower(b[i]) {
            return false;
        }
        i += 1;
    }
    true
}

/// What a list of byte strings holds.
pub open spec fn list_view(items: Vec<Vec<u8>>) -> Seq<Seq<u8>> {
    Seq::new(items.len() as nat, |i: int| items@[i]@)
}

/// The bytes that count as white space around a list item.
pub open spec fn is_blank(b: u8) -> bool {
    b == 32 || (9 <= b <= 13)
}

/// `s` without its leading white space.
pub open spec fn trim_start(s: Seq<u8>) -> Seq<u8>
    decreases s.len(),
{
    if s.len() > 0 && is_blank(s[0]) {
        trim_start(s.subrange(1, s.len() as int))
    } else {
        s
    }
}

/// `s` without its trailing white space.
pub open spec fn trim_end(s: Seq<u8>) -> Seq<u8>
    decreases s.len(),
{
    if s.len() > 0 && is_blank(s.last()) {
        trim_end(s.drop_last())
    } else {
        s
    }
}

/// `s` without the white space on either side.
pub open spec fn trim(s: Seq<u8>) -> Seq<u8> {
    trim_end(trim_start(s))
}

/// Computes [`trim`].
pub fn trimmed(s: &[u8]) -> (r: Vec<u8>)
    ensures
        r@ == trim(s@),
{
    let mut start: usize = 0;
    assert(s@.subrange(0, s.len() as int) =~= s@);
    while start < s.len() && (s[start] == 32 || (9 <= s[start] && s[start] <= 13))
        invariant
            start <= s.len(),
            trim_start(s@) == trim_start(s@.subrange(start as int, s.len() as int)),
        decreases s.len() - start,
    {
        proof {
            let rest = s@.subrange(start as int, s.len() as int);
            assert(rest[0] == s@[start as int]);
            assert(rest.subrange(1, rest.len() as int) =~= s@.subrange(
                start as int + 1,
                s.len() as int,
            ));
        }
        start += 1;
    }
    let mut end: usize = s.len();
    proof {
        let rest = s@.subrange(start as int, s.len() as int);
        if rest.len() > 0 {
            assert(rest[0] == s@[start as int]);
        }
        assert(trim_start(s@) == rest);
    }
    while end > start && (s[end - 1] == 32 || (9 <= s[end - 1] && s[end - 1] <= 13))
        invariant
            start <= end <= s.len(),
            trim(s@) == trim_end(s@.subrange(start as int, end as int)),
        decreases end - start,
    {
        proof {
            let rest = s@.subrange(start as int, end as int);
            assert(rest.last() == s@[end as int - 1]);
            assert(rest.drop_last() =~= s@.subrange(start as int, end as int - 1));
        }
        end -= 1;
    }
    proof {
        let rest = s@.subrange(start as int, end as int);
        if rest.len() > 0 {
            assert(rest.last() == s@[end as int - 1]);
        }
        assert(trim(s@) == rest);
    }
    let mut out: Vec<u8> = Vec::new();
    let mut i: usize = start;
    while i < end
        invariant
            start <= i <= end <= s.len(),
            out@ == s@.subrange(start as int, i as int),
        decreases end - i,
    {
        out.push(s[i]);
        assert(out@ =~= s@.subrange(start as int, i + 1));
        i += 1;
    }
    out
}

/// The pieces of `s` between occurrences of `sep`. There is always at least
/// one piece: the empty string has one empty piece, a separator opens a new
/// piece, and any other byte extends the last one.
pub open spec fn split(s: Seq<u8>, sep: u8) -> Seq<Seq<u8>>
    decreases s.len(),
{
    if s.len() == 0 {
        seq![Seq::<u8>::empty()]
    } else {
        let before = split(s.drop_last(), sep);
        if s.last() == sep {
            before.push(Seq::<u8>::empty())
        } else {
            before.drop_last().push(before.last().push(s.last()))
        }
    }
}

/// `items` written one after the other with `sep` between neighbours.
pub open spec fn join(items: Seq<Seq<u8>>, sep: u8) -> Seq<u8>
    decreases items.len(),
{
    if items.len() == 0 {
        Seq::<u8>::empty()
    } else if items.len() == 1 {
        items[0]
    } else {
        join(items.drop_last(), sep).push(sep) + items.last()
    }
}

/// The decimal digits of `n`, most significant first, without leading zeros.
pub open spec fn decimal(n: nat) -> Seq<u8>
    decreases n,
{
    if n < 10 {
        seq![(48 + n) as u8]
    } else {
        decimal(n / 10).push((48 + n % 10) as u8)
    }
}

/// A split has at least one piece.
pub proof fn lemma_split_nonempty(s: Seq<u8>, sep: u8)
    ensures
        split(s, sep).len() >= 1,
    decreases s.len(),
{
    if s.len() > 0 {
        lemma_split_nonempty(s.drop_last(), sep);
    }
}

/// No piece of a split holds the separator, and joining the pieces with the
/// separator gives the input back.
pub proof fn lemma_split_join(s: Seq<u8>, sep: u8)
    ensures
        forall|i: int| 0 <= i < split(s, sep).len() ==> !(#[trigger] split(s, sep)[i]).contains(sep),
        join(split(s, sep), sep) == s,
    decreases s.len(),
{
    let pieces = split(s, sep);
    if s.len() == 0 {
        assert(pieces.len() == 1);
        assert(join(pieces, sep) =~= s);
    } else {
        let head = s.drop_last();
        let before = split(head, sep);
        lemma_split_nonempty(head, sep);
        lemma_split_join(head, sep);
        if s.last() == sep {
            assert(pieces.drop_last() =~= before);
            assert(join(pieces, sep) =~= s);
        } else {
            let grown = before.last().push(s.last());
            assert(pieces.last() == grown);
            assert forall|i: int| 0 <= i < pieces.len() implies !(#[trigger] pieces[i]).contains(
                sep,
            ) by {
                if i < pieces.len() - 1 {
                    assert(pieces[i] == before[i]);
                } else {
                    assert(!before[i].contains(sep));
                    if grown.contains(sep) {
                        let k = choose|k: int| 0 <= k < grown.len() && grown[k] == sep;
                        assert(before[i][k] == sep);
                    }
                }
            }
            if before.len() == 1 {
                assert(join(before, sep) == before[0]);
                assert(join(pieces, sep) =~= s);
            } else {
                let stem = join(before.drop_last(), sep).push(sep);
                assert(pieces.drop_last() =~= before.drop_last());
                assert(join(before, sep) == stem + before.last());
                assert(join(pieces, sep) == stem + grown);
                assert(stem + grown =~= (stem + before.last()).push(s.last()));
                assert(head.push(s.last()) =~= s);
            }
        }
    }
}

/// Splitting a join gives the items back, where there is at least one item
/// and none of them holds the separator.
pub proof fn lemma_join_split(items: Seq<Seq<u8>>, sep: u8)
    requires
        items.len() >= 1,
        forall|i: int| 0 <= i < items.len() ==> !(#[trigger] items[i]).contains(sep),
    ensures
        split(join(items, sep), sep) == items,
    decreases items.len(), items.last().len(),
{
    let last = items.last();
    let init = items.drop_last();
    let joined = join(items, sep);
    if last.len() == 0 {
        if items.len() == 1 {
            assert(joined =~= Seq::<u8>::empty());
            assert(items =~= seq![Seq::<u8>::empty()]);
        } else {
            assert forall|i: int| 0 <= i < init.len() implies !(#[trigger] init[i]).contains(
                sep,
            ) by {
                assert(init[i] == items[i]);
            }
            lemma_join_split(init, sep);
            assert(joined =~= join(init, sep).push(sep));
            assert(joined.drop_last() =~= join(init, sep));
            assert(last =~= Seq::<u8>::empty());
            assert(items =~= init.push(Seq::<u8>::empty()));
        }
    } else {
        let shorter = init.push(last.drop_last());
        assert(shorter.drop_last() =~= init);
        assert forall|i: int| 0 <= i < shorter.len() implies !(#[trigger] shorter[i]).contains(
            sep,
        ) by {
            if i < init.len() {
                assert(shorter[i] == items[i]);
            } else {
                assert(!items[i].contains(sep));
                if shorter[i].contains(sep) {
                    let k = choose|k: int| 0 <= k < shorter[i].len() && shorter[i][k] == sep;
                    assert(items[i][k] == sep);
                }
            }
        }
        lemma_join_split(shorter, sep);
        assert(last[last.len() - 1] != sep) by {
            if last[last.len() - 1] == sep {
                assert(last.contains(sep));
            }
        }
        if items.len() == 1 {
            assert(joined == last);
            assert(join(shorter, sep) == last.drop_last());
        } else {
            assert(joined.drop_last() =~= join(shorter, sep));
        }
        assert(joined.last() == last.last());
        assert(last =~= last.drop_last().push(last.last()));
        assert(items =~= shorter.drop_last().push(shorter.last().push(last.last())));
    }
}

/// Computes [`split`].
pub fn split_list(s: &[u8], sep: u8) -> (r: Vec<Vec<u8>>)
    ensures
        list_view(r) == split(s@, sep),
{
    let mut done: Vec<Vec<u8>> = Vec::new();
    let mut piece: Vec<u8> = Vec::new();
    let mut i: usize = 0;
    assert(s@.subrange(0, 0) =~= Seq::<u8>::empty());
    assert(list_view(done).push(piece@) =~= seq![Seq::<u8>::empty()]);
    while i < s.len()
        invariant
            i <= s.len(),
            split(s@.subrange(0, i as int), sep) == list_view(done).push(piece@),
        decreases s.len() - i,
    {
        let ghost so_far = s@.subrange(0, i as int);
        let ghost next = s@.subrange(0, i + 1);
        let ghost before = list_view(done).push(piece@);
        proof {
            assert(next.drop_last() =~= so_far);
            assert(next.last() == s@[i as int]);
            assert(before.last() == piece@);
            assert(before.drop_last() =~= list_view(done));
        }
        if s[i] == sep {
            done.push(piece);
            piece = Vec::new();
            assert(list_view(done) =~= before);
        } else {
            piece.push(s[i]);
        }
        i += 1;
    }
    assert(s@.subrange(0, i as int) =~= s@);
    let ghost all = list_view(done).push(piece@);
    done.push(piece);
    assert(list_view(done) =~= all);
    done
}

/// Computes [`join`].
pub fn join_list(items: &Vec<Vec<u8>>, sep: u8) -> (r: Vec<u8>)
    ensures
        r@ == join(list_view(*items), sep),
{
    let mut out: Vec<u8> = Vec::new();
    let mut i: usize = 0;
    let ghost all = list_view(*items);
    assert(all.subrange(0, 0) =~= Seq::<Seq<u8>>::empty());
    while i < items.len()
        invariant
            i <= items.len(),
            all == list_view(*items),
            out@ == join(all.subrange(0, i as int), sep),
        decreases items.len() - i,
    {
        let ghost head = all.subrange(0, i as int);
        let ghost next = all.subrange(0, i + 1);
        proof {
            assert(next.drop_last() =~= head);
            assert(next.last() == items[i as int]@);
        }
        if i > 0 {
            out.push(sep);
        }
        let item = &items[i];
        let ghost base = out@;
        let mut j: usize = 0;
        while j < item.len()
            invariant
                j <= item.len(),
                out@ == base + item@.subrange(0, j as int),
            decreases item.len() - j,
        {
            out.push(item[j]);
            assert(out@ =~= base + item@.subrange(0, j + 1));
            j += 1;
        }
        proof {
            assert(item@.subrange(0, j as int) =~= item@);
            if i == 0 {
                assert(next.len() == 1);
                assert(base =~= Seq::<u8>::empty());
                assert(out@ =~= next[0]);
            }
        }
        i += 1;
    }
    assert(all.subrange(0, i as int) =~= all);
    out
}

/// Computes [`decimal`].
pub fn decimal_digits(n: u64) -> (r: Vec<u8>)
    ensures
        r@ == decimal(n as nat),
    decreases n,
{
    if n < 10 {
        let mut out: Vec<u8> = Vec::new();
        out.push(48 + n as u8);
        assert(out@ =~= decimal(n as nat));
        out
    } else {
        let mut out = decimal_digits(n / 10);
        out.push(48 + (n % 10) as u8);
        out
    }
}

} // verus!
