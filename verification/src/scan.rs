//! Byte-scanning primitives: prefix and substring matching, first-occurrence
//! search, comma counting, ASCII and UTF-8 checks. Each executable function
//! is proved equal to a spec-level description of the same scan.

use vstd::prelude::*;

verus! {

/// Index of the first occurrence of `t` in `b` at or after `from`;
/// `b.len()` when there is none.
pub open spec fn find_first(b: Seq<u8>, from: int, t: u8) -> int
    decreases b.len() - from,
{
    if from < 0 || from >= b.len() {
        b.len() as int
    } else if b[from] == t {
        from
    } else {
        find_first(b, from + 1, t)
    }
}

/// The needle `n` occurs in `h` starting exactly at index `i`.
pub open spec fn matches_at(h: Seq<u8>, n: Seq<u8>, i: int) -> bool {
    0 <= i && i + n.len() <= h.len() && h.subrange(i, i + n.len() as int) == n
}

/// The needle `n` occurs somewhere in `h`.
pub open spec fn contains_seq(h: Seq<u8>, n: Seq<u8>) -> bool {
    exists|i: int| matches_at(h, n, i)
}

/// Number of commas in `b` within the half-open range `[from, to)`.
pub open spec fn commas_in(b: Seq<u8>, from: int, to: int) -> nat
    decreases to - from,
{
    if from < 0 || from >= to || to > b.len() {
        0
    } else {
        (if b[from] == 44u8 {
            1nat
        } else {
            0nat
        }) + commas_in(b, from + 1, to)
    }
}

/// Every byte of `b` is ASCII.
pub open spec fn is_ascii_seq(b: Seq<u8>) -> bool {
    forall|i: int| 0 <= i < b.len() ==> b[i] < 0x80
}

/// A UTF-8 continuation byte.
pub open spec fn is_cont(c: u8) -> bool {
    0x80 <= c && c <= 0xBF
}

/// Width (1 to 4) of the well-formed UTF-8 sequence starting at index `i`
/// of `b`, or 0 when the bytes at `i` do not begin one (overlong forms,
/// surrogates, values past U+10FFFF and truncated tails all yield 0).
pub open spec fn utf8_step(b: Seq<u8>, i: int) -> int {
    if !(0 <= i < b.len()) {
        0
    } else {
        let c = b[i];
        if c < 0x80 {
            1
        } else if 0xC2 <= c && c <= 0xDF {
            if i + 2 <= b.len() && is_cont(b[i + 1]) {
                2
            } else {
                0
            }
        } else if c == 0xE0 {
            if i + 3 <= b.len() && 0xA0 <= b[i + 1] && b[i + 1] <= 0xBF && is_cont(b[i + 2]) {
                3
            } else {
                0
            }
        } else if 0xE1 <= c && c <= 0xEC || 0xEE <= c && c <= 0xEF {
            if i + 3 <= b.len() && is_cont(b[i + 1]) && is_cont(b[i + 2]) {
                3
            } else {
                0
            }
        } else if c == 0xED {
            if i + 3 <= b.len() && 0x80 <= b[i + 1] && b[i + 1] <= 0x9F && is_cont(b[i + 2]) {
                3
            } else {
                0
            }
        } else if c == 0xF0 {
            if i + 4 <= b.len() && 0x90 <= b[i + 1] && b[i + 1] <= 0xBF && is_cont(b[i + 2])
                && is_cont(b[i + 3]) {
                4
            } else {
                0
            }
        } else if 0xF1 <= c && c <= 0xF3 {
            if i + 4 <= b.len() && is_cont(b[i + 1]) && is_cont(b[i + 2]) && is_cont(b[i + 3]) {
                4
            } else {
                0
            }
        } else if c == 0xF4 {
            if i + 4 <= b.len() && 0x80 <= b[i + 1] && b[i + 1] <= 0x8F && is_cont(b[i + 2])
                && is_cont(b[i + 3]) {
                4
            } else {
                0
            }
        } else {
            0
        }
    }
}

/// The bytes of `b` from index `i` onward are well-formed UTF-8.
pub open spec fn utf8_valid_from(b: Seq<u8>, i: int) -> bool
    decreases b.len() - i,
{
    if !(0 <= i < b.len()) {
        true
    } else if utf8_step(b, i) == 0 {
        false
    } else {
        utf8_valid_from(b, i + utf8_step(b, i))
    }
}

/// The whole of `b` is well-formed UTF-8.
pub open spec fn utf8_valid(b: Seq<u8>) -> bool {
    utf8_valid_from(b, 0)
}

/// `find_first` lands on an occurrence of `t` (or on the end) and skips none.
pub proof fn lemma_find_first(b: Seq<u8>, from: int, t: u8)
    requires
        0 <= from <= b.len(),
    ensures
        from <= find_first(b, from, t) <= b.len(),
        find_first(b, from, t) < b.len() ==> b[find_first(b, from, t)] == t,
        forall|k: int| from <= k < find_first(b, from, t) ==> b[k] != t,
    decreases b.len() - from,
{
    if from < b.len() && b[from] != t {
        lemma_find_first(b, from + 1, t);
    }
}

/// First index of `t` in `b` at or after `from`, as `find_first` describes.
pub fn find_byte(b: &[u8], from: usize, t: u8) -> (r: usize)
    requires
        from <= b@.len(),
    ensures
        r == find_first(b@, from as int, t),
{
    let mut i: usize = from;
    while i < b.len()
        invariant
            from <= i <= b@.len(),
            find_first(b@, from as int, t) == find_first(b@, i as int, t),
        decreases b@.len() - i,
    {
        if b[i] == t {
            return i;
        }
        i = i + 1;
    }
    i
}

/// Number of commas in `b[from..to]`, as `commas_in` describes.
pub fn count_commas(b: &[u8], from: usize, to: usize) -> (r: usize)
    requires
        from <= to <= b@.len(),
    ensures
        r == commas_in(b@, from as int, to as int),
{
    let mut i: usize = from;
    let mut n: usize = 0;
    while i < to
        invariant
            from <= i <= to <= b@.len(),
            n <= i - from,
            commas_in(b@, from as int, to as int) == n + commas_in(b@, i as int, to as int),
        decreases to - i,
    {
        if b[i] == 44u8 {
            n = n + 1;
        }
        i = i + 1;
    }
    n
}

/// Whether `b` starts with `sig`, as `matches_at` at index 0 describes.
pub fn starts_with_bytes(b: &[u8], sig: &[u8]) -> (r: bool)
    ensures
        r == matches_at(b@, sig@, 0),
{
    if sig.len() > b.len() {
        return false;
    }
    let mut j: usize = 0;
    while j < sig.len() && b[j] == sig[j]
        invariant
            0 <= j <= sig@.len(),
            sig@.len() <= b@.len(),
            forall|m: int| 0 <= m < j ==> b@[m] == sig@[m],
        decreases sig@.len() - j,
    {
        j = j + 1;
    }
    if j == sig.len() {
        proof {
            assert(b@.subrange(0, sig@.len() as int) =~= sig@);
        }
        true
    } else {
        proof {
            if matches_at(b@, sig@, 0) {
                assert(b@.subrange(0, sig@.len() as int)[j as int] == sig@[j as int]);
            }
        }
        false
    }
}

/// Whether `n` occurs anywhere in `h`, as `contains_seq` describes.
pub fn contains_bytes(h: &[u8], n: &[u8]) -> (r: bool)
    ensures
        r == contains_seq(h@, n@),
{
    if n.len() > h.len() {
        proof {
            assert(forall|i: int| !matches_at(h@, n@, i));
        }
        return false;
    }
    let last: usize = h.len() - n.len();
    let mut i: usize = 0;
    while i <= last
        invariant
            n@.len() <= h@.len(),
            h@.len() <= usize::MAX,
            last == h@.len() - n@.len(),
            0 <= i <= last + 1,
            forall|k: int| 0 <= k < i ==> !matches_at(h@, n@, k),
        decreases last + 1 - i,
    {
        let mut j: usize = 0;
        while j < n.len() && h[i + j] == n[j]
            invariant
                0 <= j <= n@.len(),
                i <= last,
                last == h@.len() - n@.len(),
                h@.len() <= usize::MAX,
                forall|m: int| 0 <= m < j ==> h@[i + m] == n@[m],
            decreases n@.len() - j,
        {
            j = j + 1;
        }
        if j == n.len() {
            proof {
                assert(h@.subrange(i as int, i + n@.len() as int) =~= n@);
                assert(matches_at(h@, n@, i as int));
            }
            return true;
        }
        proof {
            if matches_at(h@, n@, i as int) {
                assert(h@.subrange(i as int, i + n@.len() as int)[j as int] == n@[j as int]);
            }
        }
        i = i + 1;
    }
    proof {
        assert forall|k: int| !matches_at(h@, n@, k) by {
            if k > last {
                assert(k + n@.len() > h@.len());
            }
        }
    }
    false
}

/// Whether every byte of `b` is ASCII, as `is_ascii_seq` describes.
pub fn ascii_bytes(b: &[u8]) -> (r: bool)
    ensures
        r == is_ascii_seq(b@),
{
    let mut i: usize = 0;
    while i < b.len()
        invariant
            0 <= i <= b@.len(),
            forall|m: int| 0 <= m < i ==> b@[m] < 0x80,
        decreases b@.len() - i,
    {
        if b[i] >= 0x80 {
            return false;
        }
        i = i + 1;
    }
    true
}

/// Whether `b` is well-formed UTF-8, as `utf8_valid` describes.
pub fn valid_utf8_bytes(b: &[u8]) -> (r: bool)
    ensures
        r == utf8_valid(b@),
{
    let n = b.len();
    let mut i: usize = 0;
    while i < n
        invariant
            0 <= i <= n,
            n == b@.len(),
            utf8_valid(b@) == utf8_valid_from(b@, i as int),
        decreases n - i,
    {
        let c = b[i];
        let step: usize = if c < 0x80 {
            1
        } else if 0xC2 <= c && c <= 0xDF {
            if n - i >= 2 && 0x80 <= b[i + 1] && b[i + 1] <= 0xBF {
                2
            } else {
                0
            }
        } else if c == 0xE0 {
            if n - i >= 3 && 0xA0 <= b[i + 1] && b[i + 1] <= 0xBF && 0x80 <= b[i + 2]
                && b[i + 2] <= 0xBF {
                3
            } else {
                0
            }
        } else if 0xE1 <= c && c <= 0xEC || 0xEE <= c && c <= 0xEF {
            if n - i >= 3 && 0x80 <= b[i + 1] && b[i + 1] <= 0xBF && 0x80 <= b[i + 2]
                && b[i + 2] <= 0xBF {
                3
            } else {
                0
            }
        } else if c == 0xED {
            if n - i >= 3 && 0x80 <= b[i + 1] && b[i + 1] <= 0x9F && 0x80 <= b[i + 2]
                && b[i + 2] <= 0xBF {
                3
            } else {
                0
            }
        } else if c == 0xF0 {
            if n - i >= 4 && 0x90 <= b[i + 1] && b[i + 1] <= 0xBF && 0x80 <= b[i + 2]
                && b[i + 2] <= 0xBF && 0x80 <= b[i + 3] && b[i + 3] <= 0xBF {
                4
            } else {
                0
            }
        } else if 0xF1 <= c && c <= 0xF3 {
            if n - i >= 4 && 0x80 <= b[i + 1] && b[i + 1] <= 0xBF && 0x80 <= b[i + 2]
                && b[i + 2] <= 0xBF && 0x80 <= b[i + 3] && b[i + 3] <= 0xBF {
                4
            } else {
                0
            }
        } else if c == 0xF4 {
            if n - i >= 4 && 0x80 <= b[i + 1] && b[i + 1] <= 0x8F && 0x80 <= b[i + 2]
                && b[i + 2] <= 0xBF && 0x80 <= b[i + 3] && b[i + 3] <= 0xBF {
                4
            } else {
                0
            }
        } else {
            0
        };
        proof {
            assert(step == utf8_step(b@, i as int));
        }
        if step == 0 {
            return false;
        }
        i = i + step;
    }
    true
}

} // verus!
