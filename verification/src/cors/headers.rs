//! Response headers: the names this library writes, and an ordered list of
//! header fields with the operations a middleware needs on it.

use super::text::{eq_ignoring_case, same_ignoring_case, text, to_vec};
use super::valid::{valid_name, valid_value};
use vstd::prelude::*;

verus! {

pub const ACCESS_CONTROL_ALLOW_ORIGIN: &'static str = "access-control-allow-origin";

pub const ACCESS_CONTROL_ALLOW_CREDENTIALS: &'static str = "access-control-allow-credentials";

pub const ACCESS_CONTROL_ALLOW_METHODS: &'static str = "access-control-allow-methods";

pub const ACCESS_CONTROL_ALLOW_HEADERS: &'static str = "access-control-allow-headers";

pub const ACCESS_CONTROL_EXPOSE_HEADERS: &'static str = "access-control-expose-headers";

pub const ACCESS_CONTROL_MAX_AGE: &'static str = "access-control-max-age";

pub const VARY: &'static str = "vary";

/// A header field as the contracts see it.
pub struct Field {
    pub name: Seq<u8>,
    pub value: Seq<u8>,
}

/// A header field: a name and a value, both as bytes.
#[derive(Debug)]
pub struct Header {
    pub name: Vec<u8>,
    pub value: Vec<u8>,
}

impl View for Header {
    type V = Field;

    open spec fn view(&self) -> Field {
        Field { name: self.name@, value: self.value@ }
    }
}

/// The value of the first field of `fields` that is called `name`. Header
/// names are compared without regard to the case of ASCII letters.
pub open spec fn lookup(fields: Seq<Field>, name: Seq<u8>) -> Option<Seq<u8>>
    decreases fields.len(),
{
    if fields.len() == 0 {
        None
    } else if same_ignoring_case(fields[0].name, name) {
        Some(fields[0].value)
    } else {
        lookup(fields.subrange(1, fields.len() as int), name)
    }
}

/// The field has a header name and a header value.
pub open spec fn valid_field(field: Field) -> bool {
    valid_name(field.name) && valid_value(field.value)
}

/// Every field has a header name and a header value.
pub open spec fn all_valid(fields: Seq<Field>) -> bool {
    forall|i: int| 0 <= i < fields.len() ==> valid_field(#[trigger] fields[i])
}

/// No two fields have the same name, compared without regard to case.
pub open spec fn distinct_names(fields: Seq<Field>) -> bool {
    forall|i: int, j: int|
        0 <= i < j < fields.len() ==> !same_ignoring_case(
            #[trigger] fields[i].name,
            #[trigger] fields[j].name,
        )
}

/// The lookup finds the first field of the name.
pub proof fn lemma_lookup_first(fields: Seq<Field>, i: int, name: Seq<u8>)
    requires
        0 <= i < fields.len(),
        same_ignoring_case(fields[i].name, name),
        forall|k: int| 0 <= k < i ==> !same_ignoring_case(#[trigger] fields[k].name, name),
    ensures
        lookup(fields, name) == Some(fields[i].value),
    decreases i,
{
    if i > 0 {
        let rest = fields.subrange(1, fields.len() as int);
        assert(!same_ignoring_case(fields[0].name, name));
        assert(rest[i - 1] == fields[i]);
        assert forall|k: int| 0 <= k < i - 1 implies !same_ignoring_case(
            #[trigger] rest[k].name,
            name,
        ) by {
            assert(rest[k] == fields[k + 1]);
        }
        lemma_lookup_first(rest, i - 1, name);
    }
}

/// The lookup finds nothing where no field has the name.
pub proof fn lemma_lookup_absent(fields: Seq<Field>, name: Seq<u8>)
    requires
        forall|k: int| 0 <= k < fields.len() ==> !same_ignoring_case(#[trigger] fields[k].name, name),
    ensures
        lookup(fields, name) is None,
    decreases fields.len(),
{
    if fields.len() > 0 {
        let rest = fields.subrange(1, fields.len() as int);
        assert(!same_ignoring_case(fields[0].name, name));
        assert forall|k: int| 0 <= k < rest.len() implies !same_ignoring_case(
            #[trigger] rest[k].name,
            name,
        ) by {
            assert(rest[k] == fields[k + 1]);
        }
        lemma_lookup_absent(rest, name);
    }
}

/// Where the lookup finds nothing, no field has the name.
pub proof fn lemma_lookup_none(fields: Seq<Field>, name: Seq<u8>)
    requires
        lookup(fields, name) is None,
    ensures
        forall|k: int| 0 <= k < fields.len() ==> !same_ignoring_case(#[trigger] fields[k].name, name),
    decreases fields.len(),
{
    if fields.len() > 0 {
        let rest = fields.subrange(1, fields.len() as int);
        lemma_lookup_none(rest, name);
        assert forall|k: int| 0 <= k < fields.len() implies !same_ignoring_case(
            #[trigger] fields[k].name,
            name,
        ) by {
            if k > 0 {
                assert(rest[k - 1] == fields[k]);
            }
        }
    }
}

/// Where the lookup finds a value, it is the value of a field of the name.
pub proof fn lemma_lookup_some(fields: Seq<Field>, name: Seq<u8>) -> (i: int)
    requires
        lookup(fields, name) is Some,
    ensures
        0 <= i < fields.len(),
        same_ignoring_case(fields[i].name, name),
        lookup(fields, name) == Some(fields[i].value),
    decreases fields.len(),
{
    if same_ignoring_case(fields[0].name, name) {
        0
    } else {
        let rest = fields.subrange(1, fields.len() as int);
        let k = lemma_lookup_some(rest, name);
        assert(rest[k] == fields[k + 1]);
        k + 1
    }
}

/// The names that this library writes are header names.
pub proof fn lemma_names_are_valid()
    ensures
        valid_name(text(VARY)),
        valid_name(text(ACCESS_CONTROL_ALLOW_ORIGIN)),
        valid_name(text(ACCESS_CONTROL_ALLOW_CREDENTIALS)),
        valid_name(text(ACCESS_CONTROL_ALLOW_METHODS)),
        valid_name(text(ACCESS_CONTROL_ALLOW_HEADERS)),
        valid_name(text(ACCESS_CONTROL_EXPOSE_HEADERS)),
        valid_name(text(ACCESS_CONTROL_MAX_AGE)),
{
    broadcast use vstd::string::group_string_axioms;

    reveal_strlit("vary");
    reveal_strlit("access-control-allow-origin");
    reveal_strlit("access-control-allow-credentials");
    reveal_strlit("access-control-allow-methods");
    reveal_strlit("access-control-allow-headers");
    reveal_strlit("access-control-expose-headers");
    reveal_strlit("access-control-max-age");
    assert(vstd::string::is_ascii(VARY));
    assert(vstd::string::is_ascii(ACCESS_CONTROL_ALLOW_ORIGIN));
    assert(vstd::string::is_ascii(ACCESS_CONTROL_ALLOW_CREDENTIALS));
    assert(vstd::string::is_ascii(ACCESS_CONTROL_ALLOW_METHODS));
    assert(vstd::string::is_ascii(ACCESS_CONTROL_ALLOW_HEADERS));
    assert(vstd::string::is_ascii(ACCESS_CONTROL_EXPOSE_HEADERS));
    assert(vstd::string::is_ascii(ACCESS_CONTROL_MAX_AGE));
}

/// The names that this library writes are seven different headers.
pub proof fn lemma_names_differ()
    ensures
        !same_ignoring_case(text(VARY), text(ACCESS_CONTROL_ALLOW_ORIGIN)),
        !same_ignoring_case(text(VARY), text(ACCESS_CONTROL_ALLOW_CREDENTIALS)),
        !same_ignoring_case(text(VARY), text(ACCESS_CONTROL_ALLOW_METHODS)),
        !same_ignoring_case(text(VARY), text(ACCESS_CONTROL_ALLOW_HEADERS)),
        !same_ignoring_case(text(VARY), text(ACCESS_CONTROL_EXPOSE_HEADERS)),
        !same_ignoring_case(text(VARY), text(ACCESS_CONTROL_MAX_AGE)),
        !same_ignoring_case(text(ACCESS_CONTROL_ALLOW_ORIGIN), text(ACCESS_CONTROL_ALLOW_CREDENTIALS)),
        !same_ignoring_case(text(ACCESS_CONTROL_ALLOW_ORIGIN), text(ACCESS_CONTROL_ALLOW_METHODS)),
        !same_ignoring_case(text(ACCESS_CONTROL_ALLOW_ORIGIN), text(ACCESS_CONTROL_ALLOW_HEADERS)),
        !same_ignoring_case(text(ACCESS_CONTROL_ALLOW_ORIGIN), text(ACCESS_CONTROL_EXPOSE_HEADERS)),
        !same_ignoring_case(text(ACCESS_CONTROL_ALLOW_ORIGIN), text(ACCESS_CONTROL_MAX_AGE)),
        !same_ignoring_case(text(ACCESS_CONTROL_ALLOW_CREDENTIALS), text(ACCESS_CONTROL_ALLOW_METHODS)),
        !same_ignoring_case(text(ACCESS_CONTROL_ALLOW_CREDENTIALS), text(ACCESS_CONTROL_ALLOW_HEADERS)),
        !same_ignoring_case(text(ACCESS_CONTROL_ALLOW_CREDENTIALS), text(ACCESS_CONTROL_EXPOSE_HEADERS)),
        !same_ignoring_case(text(ACCESS_CONTROL_ALLOW_CREDENTIALS), text(ACCESS_CONTROL_MAX_AGE)),
        !same_ignoring_case(text(ACCESS_CONTROL_ALLOW_METHODS), text(ACCESS_CONTROL_ALLOW_HEADERS)),
        !same_ignoring_case(text(ACCESS_CONTROL_ALLOW_METHODS), text(ACCESS_CONTROL_EXPOSE_HEADERS)),
        !same_ignoring_case(text(ACCESS_CONTROL_ALLOW_METHODS), text(ACCESS_CONTROL_MAX_AGE)),
        !same_ignoring_case(text(ACCESS_CONTROL_ALLOW_HEADERS), text(ACCESS_CONTROL_EXPOSE_HEADERS)),
        !same_ignoring_case(text(ACCESS_CONTROL_ALLOW_HEADERS), text(ACCESS_CONTROL_MAX_AGE)),
        !same_ignoring_case(text(ACCESS_CONTROL_EXPOSE_HEADERS), text(ACCESS_CONTROL_MAX_AGE)),
{
    broadcast use vstd::string::group_string_axioms;

    reveal_strlit("vary");
    reveal_strlit("access-control-allow-origin");
    reveal_strlit("access-control-allow-credentials");
    reveal_strlit("access-control-allow-methods");
    reveal_strlit("access-control-allow-headers");
    reveal_strlit("access-control-expose-headers");
    reveal_strlit("access-control-max-age");
    assert(vstd::string::is_ascii(VARY));
    assert(vstd::string::is_ascii(ACCESS_CONTROL_ALLOW_ORIGIN));
    assert(vstd::string::is_ascii(ACCESS_CONTROL_ALLOW_CREDENTIALS));
    assert(vstd::string::is_ascii(ACCESS_CONTROL_ALLOW_METHODS));
    assert(vstd::string::is_ascii(ACCESS_CONTROL_ALLOW_HEADERS));
    assert(vstd::string::is_ascii(ACCESS_CONTROL_EXPOSE_HEADERS));
    assert(vstd::string::is_ascii(ACCESS_CONTROL_MAX_AGE));
    assert(text(ACCESS_CONTROL_ALLOW_METHODS)[21] == 109);
    assert(text(ACCESS_CONTROL_ALLOW_HEADERS)[21] == 104);
}

/// An ordered list of header fields.
#[derive(Debug)]
pub struct HeaderSet {
    entries: Vec<Header>,
}

impl View for HeaderSet {
    type V = Seq<Field>;

    closed spec fn view(&self) -> Seq<Field> {
        Seq::new(self.entries.len() as nat, |i: int| self.entries@[i]@)
    }
}

impl HeaderSet {
    /// A list without fields.
    pub fn new() -> (r: HeaderSet)
        ensures
            r@ == Seq::<Field>::empty(),
    {
        let r = HeaderSet { entries: Vec::new() };
        assert(r@ =~= Seq::<Field>::empty());
        r
    }

    /// The number of fields.
    pub fn len(&self) -> (n: usize)
        ensures
            n == self@.len(),
    {
        self.entries.len()
    }

    /// Whether the list has no field.
    pub fn is_empty(&self) -> (b: bool)
        ensures
            b == (self@.len() == 0),
    {
        self.entries.len() == 0
    }

    /// The name and the value of the field at `index`.
    pub(crate) fn field_at(&self, index: usize) -> (r: (&[u8], &[u8]))
        requires
            index < self@.len(),
        ensures
            r.0@ == self@[index as int].name,
            r.1@ == self@[index as int].value,
    {
        (self.entries[index].name.as_slice(), self.entries[index].value.as_slice())
    }

    /// The name of the field at `index`, or `None` past the end.
    pub fn name_at(&self, index: usize) -> (r: Option<Vec<u8>>)
        ensures
            match r {
                Some(n) => index < self@.len() && n@ == self@[index as int].name,
                None => index >= self@.len(),
            },
    {
        if index < self.entries.len() {
            Some(to_vec(self.entries[index].name.as_slice()))
        } else {
            None
        }
    }

    /// The value of the field at `index`, or `None` past the end.
    pub fn value_at(&self, index: usize) -> (r: Option<Vec<u8>>)
        ensures
            match r {
                Some(v) => index < self@.len() && v@ == self@[index as int].value,
                None => index >= self@.len(),
            },
    {
        if index < self.entries.len() {
            Some(to_vec(self.entries[index].value.as_slice()))
        } else {
            None
        }
    }

    /// The value of the first field called `name`, if there is one.
    pub fn get(&self, name: &[u8]) -> (r: Option<Vec<u8>>)
        ensures
            match r {
                Some(v) => lookup(self@, name@) == Some(v@),
                None => lookup(self@, name@) is None,
            },
    {
        let mut i: usize = 0;
        assert(self@.subrange(0, self@.len() as int) =~= self@);
        while i < self.entries.len()
            invariant
                i <= self.entries.len(),
                lookup(self@, name@) == lookup(self@.subrange(i as int, self@.len() as int), name@),
            decreases self.entries.len() - i,
        {
            let ghost rest = self@.subrange(i as int, self@.len() as int);
            assert(rest[0] == self@[i as int]);
            assert(rest.subrange(1, rest.len() as int) =~= self@.subrange(
                i + 1,
                self@.len() as int,
            ));
            if eq_ignoring_case(self.entries[i].name.as_slice(), name) {
                return Some(to_vec(self.entries[i].value.as_slice()));
            }
            i += 1;
        }
        None
    }

    /// Adds a field at the end, whatever the list holds already.
    pub fn append(&mut self, name: Vec<u8>, value: Vec<u8>)
        ensures
            final(self)@ == old(self)@.push(Field { name: name@, value: value@ }),
    {
        self.entries.push(Header { name, value });
        assert(self@ =~= old(self)@.push(Field { name: name@, value: value@ }));
    }
}

} // verus!
