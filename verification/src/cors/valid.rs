//! Which bytes make a token, a header name and a header value.

use super::lists::{all_lower, is_lower, lemma_unique, unique};
use super::text::{decimal, join, list_view, to_vec};
use vstd::prelude::*;

verus! {

/// The longest header name, in bytes.
pub const MAX_NAME_LEN: usize = 65535;

/// The bytes of a token: letters, digits and some punctuation. No white
/// space, no comma, no control byte.
pub open spec fn is_token_byte(b: u8) -> bool {
    ||| 33 <= b <= 39
    ||| b == 42
    ||| b == 43
    ||| b == 45
    ||| b == 46
    ||| 48 <= b <= 57
    ||| 65 <= b <= 90
    ||| 94 <= b <= 122
    ||| b == 124
    ||| b == 126
}

/// The bytes of a header value: a tab, and every byte from the space on but
/// the delete byte.
pub open spec fn is_value_byte(b: u8) -> bool {
    (b >= 32 && b != 127) || b == 9
}

/// A token: at least one byte, each a token byte.
pub open spec fn is_token(s: Seq<u8>) -> bool {
    &&& s.len() >= 1
    &&& forall|i: int| 0 <= i < s.len() ==> is_token_byte(#[trigger] s[i])
}

/// A header name: a token that is not too long.
pub open spec fn valid_name(s: Seq<u8>) -> bool {
    is_token(s) && s.len() <= MAX_NAME_LEN
}

/// A header value: any number of value bytes.
pub open spec fn valid_value(s: Seq<u8>) -> bool {
    forall|i: int| 0 <= i < s.len() ==> is_value_byte(#[trigger] s[i])
}

/// What an item of a list has to be.
#[derive(Clone, Copy, Debug, PartialEq, Eq, Structural)]
pub enum Kind {
    /// A token, such as a method.
    Token,
    /// A header name.
    Name,
    /// A header value, such as an origin.
    Value,
}

/// The item is of the kind.
pub open spec fn fits(kind: Kind, s: Seq<u8>) -> bool {
    match kind {
        Kind::Token => is_token(s),
        Kind::Name => valid_name(s),
        Kind::Value => valid_value(s),
    }
}

/// Every item is of the kind.
pub open spec fn all_fit(kind: Kind, items: Seq<Seq<u8>>) -> bool {
    forall|i: int| 0 <= i < items.len() ==> fits(kind, #[trigger] items[i])
}

/// The items of the kind, in their order.
pub open spec fn fitting(kind: Kind, items: Seq<Seq<u8>>) -> Seq<Seq<u8>>
    decreases items.len(),
{
    if items.len() == 0 {
        items
    } else if fits(kind, items.last()) {
        fitting(kind, items.drop_last()).push(items.last())
    } else {
        fitting(kind, items.drop_last())
    }
}

/// `fitting` keeps items of the kind only, and only items of the list.
pub proof fn lemma_fitting(kind: Kind, items: Seq<Seq<u8>>)
    ensures
        all_fit(kind, fitting(kind, items)),
        forall|x: Seq<u8>| fitting(kind, items).contains(x) <==> items.contains(x) && fits(kind, x),
        all_lower(items) ==> all_lower(fitting(kind, items)),
    decreases items.len(),
{
    if items.len() > 0 {
        let head = items.drop_last();
        let kept = fitting(kind, head);
        lemma_fitting(kind, head);
        assert forall|x: Seq<u8>|
            fitting(kind, items).contains(x) <==> items.contains(x) && fits(kind, x) by {
            if fitting(kind, items).contains(x) {
                let m = choose|m: int|
                    0 <= m < fitting(kind, items).len() && fitting(kind, items)[m] == x;
                if m < kept.len() {
                    assert(kept[m] == x);
                    assert(kept.contains(x));
                    assert(head.contains(x));
                    let k = choose|k: int| 0 <= k < head.len() && head[k] == x;
                    assert(items[k] == x);
                } else {
                    assert(items[items.len() - 1] == x);
                }
                assert(items.contains(x));
            }
            if items.contains(x) && fits(kind, x) {
                let k = choose|k: int| 0 <= k < items.len() && items[k] == x;
                if k < head.len() {
                    assert(head[k] == x);
                    assert(head.contains(x));
                    assert(kept.contains(x));
                    let m = choose|m: int| 0 <= m < kept.len() && kept[m] == x;
                    assert(fitting(kind, items)[m] == x);
                } else {
                    assert(fitting(kind, items)[kept.len() as int] == x);
                }
            }
        }
        if all_lower(items) {
            assert forall|i: int| 0 <= i < head.len() implies is_lower(
                #[trigger] head[i],
            ) by {
                assert(head[i] == items[i]);
            }
            assert(is_lower(items[items.len() - 1]));
        }
    }
}

/// Taking the repetitions out of a list leaves items of the kind.
pub proof fn lemma_unique_fits(kind: Kind, items: Seq<Seq<u8>>)
    requires
        all_fit(kind, items),
    ensures
        all_fit(kind, unique(items)),
{
    lemma_unique(items);
    assert forall|i: int| 0 <= i < unique(items).len() implies fits(
        kind,
        #[trigger] unique(items)[i],
    ) by {
        assert(unique(items).contains(unique(items)[i]));
        assert(items.contains(unique(items)[i]));
        let k = choose|k: int| 0 <= k < items.len() && items[k] == unique(items)[i];
        assert(fits(kind, items[k]));
    }
}

/// A token is a header value, and holds no comma.
pub proof fn lemma_token_is_value(s: Seq<u8>)
    requires
        is_token(s),
    ensures
        valid_value(s),
        !s.contains(44u8),
{
    assert forall|i: int| 0 <= i < s.len() implies is_value_byte(#[trigger] s[i]) by {
        assert(is_token_byte(s[i]));
    }
    if s.contains(44u8) {
        let k = choose|k: int| 0 <= k < s.len() && s[k] == 44u8;
        assert(is_token_byte(s[k]));
    }
}

/// A list of header values, joined with commas, is a header value.
pub proof fn lemma_join_is_value(items: Seq<Seq<u8>>)
    requires
        all_fit(Kind::Value, items),
    ensures
        valid_value(join(items, 44u8)),
    decreases items.len(),
{
    if items.len() == 1 {
        assert(fits(Kind::Value, items[0]));
    } else if items.len() > 1 {
        let head = items.drop_last();
        assert forall|i: int| 0 <= i < head.len() implies fits(Kind::Value, #[trigger] head[i]) by {
            assert(head[i] == items[i]);
        }
        lemma_join_is_value(head);
        assert(fits(Kind::Value, items[items.len() - 1]));
        let stem = join(head, 44u8).push(44u8);
        let all = stem + items.last();
        assert forall|i: int| 0 <= i < all.len() implies is_value_byte(#[trigger] all[i]) by {
            if i < stem.len() - 1 {
                assert(all[i] == join(head, 44u8)[i]);
            } else if i >= stem.len() {
                assert(all[i] == items.last()[i - stem.len()]);
            }
        }
    }
}

/// Tokens and header names are header values.
pub proof fn lemma_fit_as_values(kind: Kind, items: Seq<Seq<u8>>)
    requires
        all_fit(kind, items),
    ensures
        all_fit(Kind::Value, items),
        kind != Kind::Value ==> forall|i: int|
            0 <= i < items.len() ==> !(#[trigger] items[i]).contains(44u8),
{
    assert forall|i: int| 0 <= i < items.len() implies fits(Kind::Value, #[trigger] items[i]) by {
        assert(fits(kind, items[i]));
        if kind != Kind::Value {
            lemma_token_is_value(items[i]);
        }
    }
    if kind != Kind::Value {
        assert forall|i: int| 0 <= i < items.len() implies !(#[trigger] items[i]).contains(
            44u8,
        ) by {
            assert(fits(kind, items[i]));
            lemma_token_is_value(items[i]);
        }
    }
}

/// Decimal digits are a header value.
pub proof fn lemma_decimal_is_value(n: nat)
    ensures
        valid_value(decimal(n)),
    decreases n,
{
    if n >= 10 {
        lemma_decimal_is_value(n / 10);
    }
}

/// Whether a byte is a token byte.
pub fn token_byte(b: u8) -> (r: bool)
    ensures
        r == is_token_byte(b),
{
    (33 <= b && b <= 39) || b == 42 || b == 43 || b == 45 || b == 46 || (48 <= b && b <= 57) || (65
        <= b && b <= 90) || (94 <= b && b <= 122) || b == 124 || b == 126
}

/// Whether a byte is a value byte.
pub fn value_byte(b: u8) -> (r: bool)
    ensures
        r == is_value_byte(b),
{
    (b >= 32 && b != 127) || b == 9
}

/// Whether the bytes are of the kind.
pub fn is_of_kind(kind: Kind, s: &[u8]) -> (r: bool)
    ensures
        r == fits(kind, s@),
{
    match kind {
        Kind::Value => {},
        Kind::Token => {
            if s.len() == 0 {
                return false;
            }
        },
        Kind::Name => {
            if s.len() == 0 || s.len() > MAX_NAME_LEN {
                return false;
            }
        },
    }
    let mut i: usize = 0;
    while i < s.len()
        invariant
            i <= s.len(),
            kind == Kind::Value ==> forall|k: int| 0 <= k < i ==> is_value_byte(#[trigger] s@[k]),
            kind != Kind::Value ==> forall|k: int| 0 <= k < i ==> is_token_byte(#[trigger] s@[k]),
        decreases s.len() - i,
    {
        let good = match kind {
            Kind::Value => value_byte(s[i]),
            _ => token_byte(s[i]),
        };
        if !good {
            return false;
        }
        i += 1;
    }
    true
}

/// Computes [`fitting`].
pub fn keep_fitting(kind: Kind, items: &Vec<Vec<u8>>) -> (r: Vec<Vec<u8>>)
    ensures
        list_view(r) == fitting(kind, list_view(*items)),
{
    let mut out: Vec<Vec<u8>> = Vec::new();
    let mut i: usize = 0;
    let ghost all = list_view(*items);
    assert(all.subrange(0, 0) =~= Seq::<Seq<u8>>::empty());
    assert(list_view(out) =~= Seq::<Seq<u8>>::empty());
    while i < items.len()
        invariant
            i <= items.len(),
            all == list_view(*items),
            list_view(out) == fitting(kind, all.subrange(0, i as int)),
        decreases items.len() - i,
    {
        let ghost before = list_view(out);
        proof {
            let next = all.subrange(0, i + 1);
            assert(next.drop_last() =~= all.subrange(0, i as int));
            assert(next.last() == items[i as int]@);
        }
        if is_of_kind(kind, items[i].as_slice()) {
            let item = to_vec(items[i].as_slice());
            out.push(item);
            assert(list_view(out) =~= before.push(items[i as int]@));
        }
        i += 1;
    }
    assert(all.subrange(0, i as int) =~= all);
    out
}

} // verus!
