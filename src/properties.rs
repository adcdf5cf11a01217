//! Properties: their kinds, permissions, and well-formed values.
use vstd::prelude::*;

verus! {

/// Who may change a property.
#[derive(Clone, Copy, Debug, PartialEq, Eq, Structural)]
pub enum Permission {
    ReadOnly,
    WriteOnly,
    ReadWrite,
}

/// The type that a property's textual value must parse as.
#[derive(Clone, Copy, Debug, PartialEq, Eq, Structural)]
pub enum Kind {
    Integer,
    Float,
    Boolean,
    Text,
}

/// One named, typed, permissioned value mirroring a field of the device.
#[derive(Debug)]
pub struct Property {
    pub name: String,
    pub value: String,
    pub kind: Kind,
    pub permission: Permission,
}

/// What a property is, as plain values.
pub struct PropertyView {
    pub name: Seq<char>,
    pub value: Seq<char>,
    pub kind: Kind,
    pub permission: Permission,
}

impl View for Property {
    type V = PropertyView;

    open spec fn view(&self) -> PropertyView {
        PropertyView {
            name: self.name@,
            value: self.value@,
            kind: self.kind,
            permission: self.permission,
        }
    }
}

/// The views of a sequence of properties.
pub open spec fn views(props: Seq<Property>) -> Seq<PropertyView> {
    props.map_values(|p: Property| p@)
}

pub open spec fn is_digit(c: char) -> bool {
    '0' <= c && c <= '9'
}

/// The text without one leading minus sign, if it has one.
pub open spec fn unsigned_part(v: Seq<char>) -> Seq<char> {
    if v.len() > 0 && v[0] == '-' {
        v.drop_first()
    } else {
        v
    }
}

/// An optional minus sign followed by one or more decimal digits.
pub open spec fn is_integer_text(v: Seq<char>) -> bool {
    let d = unsigned_part(v);
    d.len() > 0 && forall|i: int| 0 <= i < d.len() ==> is_digit(#[trigger] d[i])
}

/// An optional minus sign, then digits with at most one decimal point among
/// them, and at least one digit.
pub open spec fn is_float_text(v: Seq<char>) -> bool {
    let d = unsigned_part(v);
    &&& d.len() > 0
    &&& d != seq!['.']
    &&& forall|i: int| 0 <= i < d.len() ==> is_digit(#[trigger] d[i]) || d[i] == '.'
    &&& forall|i: int, j: int| 0 <= i < j < d.len() && #[trigger] d[i] == '.' ==> #[trigger] d[j] != '.'
}

/// A device boolean is written as a single `0` or `1`.
pub open spec fn is_boolean_text(v: Seq<char>) -> bool {
    v == seq!['0'] || v == seq!['1']
}

/// Whether `v` is a well-formed textual value of the given kind.
pub open spec fn fits_kind(kind: Kind, v: Seq<char>) -> bool {
    match kind {
        Kind::Integer => is_integer_text(v),
        Kind::Float => is_float_text(v),
        Kind::Boolean => is_boolean_text(v),
        Kind::Text => true,
    }
}

impl Kind {
    /// Checks that `v` is a well-formed value of this kind.
    pub fn accepts(&self, v: &str) -> (r: bool)
        ensures
            r == fits_kind(*self, v@),
    {
        let n = v.unicode_len();
        match self {
            Kind::Text => true,
            Kind::Boolean => {
                if n != 1 {
                    return false;
                }
                let c = v.get_char(0);
                let r = c == '0' || c == '1';
                proof {
                    if r {
                        assert(v@ =~= seq![c]);
                    }
                }
                r
            },
            Kind::Integer => numeric_text(v, false),
            Kind::Float => numeric_text(v, true),
        }
    }
}

/// Checks for an optional minus sign followed by digits, among which one
/// decimal point is allowed when `allow_dot` holds.
fn numeric_text(v: &str, allow_dot: bool) -> (r: bool)
    ensures
        r == (if allow_dot { is_float_text(v@) } else { is_integer_text(v@) }),
{
    let n = v.unicode_len();
    let ghost d = unsigned_part(v@);
    let mut start: usize = 0;
    if n > 0 && v.get_char(0) == '-' {
        start = 1;
    }
    assert(d =~= v@.subrange(start as int, n as int));
    if start == n {
        return false;
    }
    let mut seen_dot = false;
    let mut i = start;
    while i < n
        invariant
            start <= i <= n,
            n == v@.len(),
            d =~= v@.subrange(start as int, n as int),
            d == unsigned_part(v@),
            forall|k: int| 0 <= k < i - start ==> is_digit(#[trigger] d[k]) || (allow_dot && d[k] == '.'),
            seen_dot <==> exists|k: int| 0 <= k < i - start && #[trigger] d[k] == '.',
            forall|k: int, m: int| 0 <= k < m < i - start && #[trigger] d[k] == '.' ==> #[trigger] d[m] != '.',
        decreases n - i,
    {
        let c = v.get_char(i);
        assert(d[i - start] == c);
        if c == '.' && allow_dot && !seen_dot {
            seen_dot = true;
        } else if !is_digit_char(c) {
            proof {
                if c == '.' && allow_dot {
                    let k = choose|k: int| 0 <= k < i - start && #[trigger] d[k] == '.';
                    assert(d[k] == '.' && d[i - start] == '.');
                } else if allow_dot {
                    let j = i - start;
                    assert(!(is_digit(d[j]) || d[j] == '.'));
                    assert(0 <= j < d.len());
                    assert(!is_float_text(v@));
                } else {
                    let j = i - start;
                    assert(!is_digit(d[j]));
                    assert(0 <= j < d.len());
                    assert(!is_integer_text(v@));
                }
            }
            return false;
        }
        i = i + 1;
    }
    let r = !(seen_dot && n - start == 1);
    proof {
        if seen_dot && n - start == 1 {
            let k = choose|k: int| 0 <= k < i - start && #[trigger] d[k] == '.';
            assert(d =~= seq!['.']);
        }
        if d == seq!['.'] {
            assert(d[0] == '.');
        }
    }
    r
}

/// Whether `c` is a decimal digit.
pub fn is_digit_char(c: char) -> (r: bool)
    ensures
        r == is_digit(c),
{
    '0' <= c && c <= '9'
}

} // verus!
