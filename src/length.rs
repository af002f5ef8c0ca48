//! The value of a `Content-Length` field: surrounding whitespace is ignored and
//! the rest must be a non-negative decimal integer that fits in `usize`.
use vstd::prelude::*;

verus! {

/// ASCII whitespace: space, tab, line feed, vertical tab, form feed, carriage return.
pub open spec fn is_space(b: u8) -> bool {
    b == 32 || (9 <= b && b <= 13)
}

/// An ASCII decimal digit.
pub open spec fn is_digit(b: u8) -> bool {
    48 <= b && b <= 57
}

/// `s` without its leading whitespace.
pub open spec fn trim_start(s: Seq<u8>) -> Seq<u8>
    decreases s.len(),
{
    if s.len() > 0 && is_space(s[0]) {
        trim_start(s.drop_first())
    } else {
        s
    }
}

/// `s` without its trailing whitespace.
pub open spec fn trim_end(s: Seq<u8>) -> Seq<u8>
    decreases s.len(),
{
    if s.len() > 0 && is_space(s.last()) {
        trim_end(s.drop_last())
    } else {
        s
    }
}

/// `s` without surrounding whitespace.
pub open spec fn trim(s: Seq<u8>) -> Seq<u8> {
    trim_end(trim_start(s))
}

/// The value of a sequence of decimal digits, most significant first.
pub open spec fn decimal_value(d: Seq<u8>) -> nat
    decreases d.len(),
{
    if d.len() == 0 {
        0
    } else {
        decimal_value(d.drop_last()) * 10 + (d.last() - 48) as nat
    }
}

/// The digits of an unsigned number: one leading `+` is allowed.
pub open spec fn unsigned_digits(t: Seq<u8>) -> Seq<u8> {
    if t.len() > 0 && t[0] == 43 {
        t.drop_first()
    } else {
        t
    }
}

/// The length that a field value denotes, or `None` where it is not a
/// non-negative decimal integer that fits in `usize`.
pub open spec fn length_value(s: Seq<u8>) -> Option<nat> {
    let d = unsigned_digits(trim(s));
    if d.len() > 0 && (forall|i: int| 0 <= i < d.len() ==> is_digit(#[trigger] d[i]))
        && decimal_value(d) <= usize::MAX {
        Some(decimal_value(d))
    } else {
        None
    }
}

/// Appending digits never lowers the value.
proof fn lemma_prefix_value_le(d: Seq<u8>, k: int)
    requires
        0 <= k <= d.len(),
        forall|i: int| 0 <= i < d.len() ==> is_digit(#[trigger] d[i]),
    ensures
        decimal_value(d.subrange(0, k)) <= decimal_value(d),
    decreases d.len(),
{
    if k < d.len() {
        let e = d.drop_last();
        assert(e.subrange(0, k) =~= d.subrange(0, k));
        lemma_prefix_value_le(e, k);
    } else {
        assert(d.subrange(0, k) =~= d);
    }
}

fn is_space_byte(b: u8) -> (r: bool)
    ensures
        r == is_space(b),
{
    b == 32 || (9 <= b && b <= 13)
}

/// Parses a field value as `str::trim` followed by `usize::from_str` would.
pub fn parse_length(bytes: &[u8]) -> (r: Option<usize>)
    ensures
        match r {
            Some(n) => length_value(bytes@) == Some(n as nat),
            None => length_value(bytes@) == None::<nat>,
        },
{
    let ghost s = bytes@;
    let n: usize = bytes.len();
    let mut lo: usize = 0;
    assert(s.subrange(0, n as int) =~= s);
    while lo < n && is_space_byte(bytes[lo])
        invariant
            n == s.len(),
            s == bytes@,
            lo <= n,
            trim_start(s) == trim_start(s.subrange(lo as int, n as int)),
        decreases n - lo,
    {
        assert(s.subrange(lo as int, n as int).drop_first() =~= s.subrange(lo + 1, n as int));
        lo = lo + 1;
    }
    assert(trim_start(s) == s.subrange(lo as int, n as int));
    let mut hi: usize = n;
    while hi > lo && is_space_byte(bytes[hi - 1])
        invariant
            n == s.len(),
            s == bytes@,
            lo <= hi <= n,
            trim(s) == trim_end(s.subrange(lo as int, hi as int)),
        decreases hi,
    {
        assert(s.subrange(lo as int, hi as int).drop_last() =~= s.subrange(lo as int, hi - 1));
        hi = hi - 1;
    }
    assert(trim(s) == s.subrange(lo as int, hi as int));
    if lo < hi && bytes[lo] == 43 {
        assert(s.subrange(lo as int, hi as int).drop_first() =~= s.subrange(lo + 1, hi as int));
        lo = lo + 1;
    }
    let ghost d = s.subrange(lo as int, hi as int);
    assert(unsigned_digits(trim(s)) == d);
    if lo == hi {
        return None;
    }
    let mut value: usize = 0;
    let mut k: usize = lo;
    while k < hi
        invariant
            n == s.len(),
            s == bytes@,
            lo <= k <= hi <= n,
            d == s.subrange(lo as int, hi as int),
            unsigned_digits(trim(s)) == d,
            forall|i: int| 0 <= i < k - lo ==> is_digit(#[trigger] d[i]),
            value == decimal_value(d.subrange(0, k - lo)),
        decreases hi - k,
    {
        let b = bytes[k];
        if !(48 <= b && b <= 57) {
            assert(!is_digit(d[k - lo]));
            return None;
        }
        let ghost next = d.subrange(0, k - lo + 1);
        assert(next.drop_last() =~= d.subrange(0, k - lo));
        assert(next.last() == b);
        match value.checked_mul(10) {
            Some(tens) => match tens.checked_add((b - 48) as usize) {
                Some(v) => {
                    value = v;
                },
                None => {
                    proof {
                        if forall|i: int| 0 <= i < d.len() ==> is_digit(#[trigger] d[i]) {
                            lemma_prefix_value_le(d, k - lo + 1);
                        }
                    }
                    return None;
                },
            },
            None => {
                proof {
                    if forall|i: int| 0 <= i < d.len() ==> is_digit(#[trigger] d[i]) {
                        lemma_prefix_value_le(d, k - lo + 1);
                    }
                }
                return None;
            },
        }
        k = k + 1;
    }
    assert(d.subrange(0, hi - lo) =~= d);
    Some(value)
}

} // verus!
