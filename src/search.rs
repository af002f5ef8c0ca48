//! ASCII-case-insensitive marker search over a byte window.
use vstd::prelude::*;

verus! {

/// The ASCII lowercase of a byte; bytes that are not ASCII capitals are unchanged.
pub open spec fn lower(b: u8) -> u8 {
    if 65 <= b && b <= 90 {
        (b + 32) as u8
    } else {
        b
    }
}

/// `pattern` occurs in `buf` at `start`, ignoring ASCII case.
pub open spec fn matches_at(buf: Seq<u8>, pattern: Seq<u8>, start: int) -> bool {
    &&& 0 <= start
    &&& start + pattern.len() <= buf.len()
    &&& forall|j: int| 0 <= j < pattern.len() ==> #[trigger] lower(buf[start + j]) == lower(pattern[j])
}

/// `start` is the first position at which `pattern` occurs in `buf`.
pub open spec fn is_first_match(buf: Seq<u8>, pattern: Seq<u8>, start: int) -> bool {
    &&& matches_at(buf, pattern, start)
    &&& forall|k: int| 0 <= k < start ==> !#[trigger] matches_at(buf, pattern, k)
}

/// The first position at which `pattern` occurs in `buf`, ignoring ASCII case.
pub open spec fn find(buf: Seq<u8>, pattern: Seq<u8>) -> Option<int> {
    if exists|i: int| is_first_match(buf, pattern, i) {
        Some(choose|i: int| is_first_match(buf, pattern, i))
    } else {
        None
    }
}

/// There is at most one first match.
pub proof fn lemma_first_match_unique(buf: Seq<u8>, pattern: Seq<u8>, i: int, j: int)
    requires
        is_first_match(buf, pattern, i),
        is_first_match(buf, pattern, j),
    ensures
        i == j,
{
    if i < j {
        assert(!matches_at(buf, pattern, i));
    } else if j < i {
        assert(!matches_at(buf, pattern, j));
    }
}

/// `find` returns exactly the first match.
pub proof fn lemma_find_first(buf: Seq<u8>, pattern: Seq<u8>, i: int)
    requires
        is_first_match(buf, pattern, i),
    ensures
        find(buf, pattern) == Some(i),
{
    let c = choose|c: int| is_first_match(buf, pattern, c);
    lemma_first_match_unique(buf, pattern, i, c);
}

/// `find` finds nothing where nothing matches.
pub proof fn lemma_find_none(buf: Seq<u8>, pattern: Seq<u8>)
    requires
        forall|k: int| !#[trigger] matches_at(buf, pattern, k),
    ensures
        find(buf, pattern) == None::<int>,
{
    assert(!exists|i: int| is_first_match(buf, pattern, i));
}

/// The search ignores ASCII case in both the searched bytes and the pattern:
/// two spellings of a marker that differ only in case are located identically.
pub proof fn lemma_case_insensitive(a: Seq<u8>, b: Seq<u8>, p: Seq<u8>, q: Seq<u8>)
    requires
        a.len() == b.len(),
        p.len() == q.len(),
        forall|i: int| 0 <= i < a.len() ==> lower(#[trigger] a[i]) == lower(b[i]),
        forall|i: int| 0 <= i < p.len() ==> lower(#[trigger] p[i]) == lower(q[i]),
    ensures
        find(a, p) == find(b, q),
{
    assert forall|k: int| matches_at(a, p, k) == matches_at(b, q, k) by {
        if matches_at(a, p, k) {
            assert forall|j: int| 0 <= j < q.len() implies #[trigger] lower(b[k + j]) == lower(q[j]) by {
                assert(lower(a[k + j]) == lower(p[j]));
            }
        }
        if matches_at(b, q, k) {
            assert forall|j: int| 0 <= j < p.len() implies #[trigger] lower(a[k + j]) == lower(p[j]) by {
                assert(lower(b[k + j]) == lower(q[j]));
            }
        }
    }
    if exists|i: int| is_first_match(a, p, i) {
        let i = choose|i: int| is_first_match(a, p, i);
        assert(is_first_match(b, q, i));
        lemma_find_first(a, p, i);
        lemma_find_first(b, q, i);
    } else {
        assert forall|i: int| !is_first_match(b, q, i) by {
            if is_first_match(b, q, i) {
                assert(is_first_match(a, p, i));
            }
        }
    }
}

/// The ASCII lowercase of a byte.
pub fn ascii_lower(b: u8) -> (r: u8)
    ensures
        r == lower(b),
{
    if 65 <= b && b <= 90 {
        b + 32
    } else {
        b
    }
}

/// Whether `pattern` occurs in `buf` at `start`, ignoring ASCII case.
fn matches_here(buf: &[u8], pattern: &[u8], start: usize) -> (r: bool)
    requires
        start + pattern@.len() <= buf@.len(),
    ensures
        r == matches_at(buf@, pattern@, start as int),
{
    let n: usize = buf.len();
    let mut j: usize = 0;
    while j < pattern.len()
        invariant
            n == buf@.len(),
            start + pattern@.len() <= buf@.len(),
            j <= pattern@.len(),
            forall|jj: int| 0 <= jj < j ==> #[trigger] lower(buf@[start + jj]) == lower(pattern@[jj]),
        decreases pattern@.len() - j,
    {
        if ascii_lower(buf[start + j]) != ascii_lower(pattern[j]) {
            return false;
        }
        j = j + 1;
    }
    true
}

/// The first position at which `pattern` occurs in `buf`, comparing bytes
/// without regard to ASCII case. An empty pattern occurs at position 0.
pub fn contains_lowercase(buf: &[u8], pattern: &[u8]) -> (r: Option<usize>)
    ensures
        match r {
            Some(i) => find(buf@, pattern@) == Some(i as int),
            None => find(buf@, pattern@) == None::<int>,
        },
{
    if buf.len() < pattern.len() {
        proof {
            assert forall|k: int| !#[trigger] matches_at(buf@, pattern@, k) by {}
            lemma_find_none(buf@, pattern@);
        }
        return None;
    }
    let n: usize = buf.len();
    let last: usize = n - pattern.len();
    let mut start: usize = 0;
    while start <= last
        invariant
            n == buf@.len(),
            last == buf@.len() - pattern@.len(),
            start <= last + 1,
            forall|k: int| 0 <= k < start ==> !#[trigger] matches_at(buf@, pattern@, k),
        decreases last + 1 - start,
    {
        if matches_here(buf, pattern, start) {
            proof {
                assert(is_first_match(buf@, pattern@, start as int));
                lemma_find_first(buf@, pattern@, start as int);
            }
            return Some(start);
        }
        start = start + 1;
    }
    proof {
        assert forall|k: int| !#[trigger] matches_at(buf@, pattern@, k) by {
            if k > last {
                assert(!(k + pattern@.len() <= buf@.len()));
            }
        }
        lemma_find_none(buf@, pattern@);
    }
    None
}

} // verus!
