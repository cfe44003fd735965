//! The bounded C string helpers the driver links against: `strncmp` and
//! `strncpy`, over the bytes the caller gathered from C memory.

use vstd::prelude::*;

verus! {

/// Result of comparing `s1` and `s2` from position `i` on, looking at no
/// position `n` or past: the difference of the first differing bytes (taken
/// as unsigned), or 0 once a NUL is matched or `n` positions were compared.
pub open spec fn compare_from(s1: Seq<u8>, s2: Seq<u8>, n: usize, i: usize) -> i32
    decreases n - i,
{
    if i >= n {
        0
    } else if s1[i as int] != s2[i as int] {
        (s1[i as int] as int - s2[i as int] as int) as i32
    } else if s1[i as int] == 0 {
        0
    } else {
        compare_from(s1, s2, n, (i + 1) as usize)
    }
}

/// Every byte that the comparison from position `i` on reads lies in both
/// sequences: the comparison reads position `j < n` only while every earlier
/// pair was equal and not NUL.
pub open spec fn compare_reads_within(s1: Seq<u8>, s2: Seq<u8>, n: usize, i: usize) -> bool
    decreases n - i,
{
    if i >= n {
        true
    } else {
        &&& i < s1.len()
        &&& i < s2.len()
        &&& (s1[i as int] != s2[i as int] || s1[i as int] == 0
            || compare_reads_within(s1, s2, n, (i + 1) as usize))
    }
}

/// What the comparison decides after reading one pair of bytes.
pub enum CompareStep {
    /// The bytes are equal and not NUL: compare the next pair.
    Continue,
    /// The comparison is over, with this result.
    Finish(i32),
}

/// One step of the comparison: differing bytes end it with their difference,
/// a matched NUL ends it with 0, otherwise it goes on.
pub fn compare_step(c1: u8, c2: u8) -> (r: CompareStep)
    ensures
        c1 != c2 ==> r == CompareStep::Finish((c1 as int - c2 as int) as i32),
        c1 == c2 && c1 == 0 ==> r == CompareStep::Finish(0),
        c1 == c2 && c1 != 0 ==> r is Continue,
{
    if c1 != c2 {
        CompareStep::Finish(c1 as i32 - c2 as i32)
    } else if c1 == 0 {
        CompareStep::Finish(0)
    } else {
        CompareStep::Continue
    }
}

/// Compares at most `n` bytes of two NUL-terminated strings, as C's
/// `strncmp`: the result is the difference of the first differing bytes,
/// taken as unsigned, or 0 when they agree up to a NUL or for `n` bytes.
/// Only the bytes that the comparison reads need to be present.
pub fn strncmp(s1: &[u8], s2: &[u8], n: usize) -> (r: i32)
    requires
        compare_reads_within(s1@, s2@, n, 0),
    ensures
        r == compare_from(s1@, s2@, n, 0),
{
    let mut i: usize = 0;
    while i < n
        invariant
            i <= n,
            compare_reads_within(s1@, s2@, n, i),
            compare_from(s1@, s2@, n, 0) == compare_from(s1@, s2@, n, i),
        decreases n - i,
    {
        match compare_step(s1[i], s2[i]) {
            CompareStep::Finish(d) => {
                return d;
            },
            CompareStep::Continue => {},
        }
        i = i + 1;
    }
    0
}

/// Whether `s` holds a NUL before position `i`.
pub open spec fn has_nul_before(s: Seq<u8>, i: int) -> bool {
    exists|j: int| 0 <= j < i && s[j] == 0
}

/// Every byte that copying at most `n` bytes of `src` reads lies in `src`:
/// position `i < n` is read only while no NUL came before it.
pub open spec fn copy_reads_within(src: Seq<u8>, n: nat) -> bool {
    forall|i: int| 0 <= i < n && !has_nul_before(src, i) ==> i < src.len()
}

/// The byte that `strncpy` stores at position `i < n`: the source byte until
/// the first NUL has been copied, and NUL after it.
pub open spec fn copied_byte(src: Seq<u8>, i: int) -> u8 {
    if has_nul_before(src, i) {
        0
    } else {
        src[i]
    }
}

/// The destination after `strncpy(dest, src, n)`: its first `n` bytes
/// replaced, the rest as it was.
pub open spec fn spec_strncpy(dest: Seq<u8>, src: Seq<u8>, n: nat) -> Seq<u8> {
    Seq::new(dest.len(), |i: int| if i < n { copied_byte(src, i) } else { dest[i] })
}

/// Copies at most `n` bytes of the NUL-terminated `src` into `dest`, as C's
/// `strncpy`: bytes up to and including the first NUL are copied, and the
/// rest of the first `n` bytes of `dest` are set to NUL.
pub fn strncpy(dest: &mut Vec<u8>, src: &[u8], n: usize)
    requires
        n <= old(dest).len(),
        copy_reads_within(src@, n as nat),
    ensures
        final(dest)@ == spec_strncpy(old(dest)@, src@, n as nat),
        final(dest)@.len() == old(dest)@.len(),
        forall|i: int| 0 <= i < n && (forall|j: int| 0 <= j <= i ==> src@[j] != 0) ==> #[trigger] final(dest)@[i] == src@[i],
        forall|i: int| 0 <= i < n && (exists|j: int| 0 <= j <= i && src@[j] == 0) ==> #[trigger] final(dest)@[i] == 0,
        forall|i: int| n <= i < old(dest)@.len() ==> #[trigger] final(dest)@[i] == old(dest)@[i],
{
    let ghost d0 = dest@;
    let mut i: usize = 0;
    while i < n
        invariant_except_break
            i <= n,
            n <= dest.len(),
            dest.len() == d0.len(),
            copy_reads_within(src@, n as nat),
            !has_nul_before(src@, i as int),
            forall|j: int| 0 <= j < i ==> dest@[j] == src@[j],
            forall|j: int| i <= j < dest.len() ==> dest@[j] == d0[j],
        ensures
            i <= n,
            dest.len() == d0.len(),
            forall|j: int| 0 <= j < i ==> dest@[j] == copied_byte(src@, j),
            forall|j: int| i <= j < dest.len() ==> dest@[j] == d0[j],
            i < n ==> has_nul_before(src@, i as int),
        decreases n - i,
    {
        let c = src[i];
        dest.set(i, c);
        if c == 0 {
            assert forall|j: int| 0 <= j < i + 1 implies dest@[j] == copied_byte(src@, j) by {
                if j < i {
                    assert(!has_nul_before(src@, j)) by {
                        if has_nul_before(src@, j) {
                            let k = choose|k: int| 0 <= k < j && src@[k] == 0;
                            assert(0 <= k < i && src@[k] == 0);
                        }
                    }
                }
            }
            assert(has_nul_before(src@, i as int + 1));
            i = i + 1;
            break;
        }
        i = i + 1;
        assert(!has_nul_before(src@, i as int)) by {
            if has_nul_before(src@, i as int) {
                let k = choose|k: int| 0 <= k < i && src@[k] == 0;
                assert(k == i - 1 || k < i - 1);
            }
        }
    }
    proof {
        if i == n {
            // the loop ran to n without a NUL in the way
            assert forall|j: int| 0 <= j < i implies dest@[j] == copied_byte(src@, j) by {}
        }
    }
    let ghost copied = i;
    while i < n
        invariant
            copied <= i <= n,
            n <= dest.len(),
            dest.len() == d0.len(),
            copied < n ==> has_nul_before(src@, copied as int),
            forall|j: int| 0 <= j < copied ==> dest@[j] == copied_byte(src@, j),
            forall|j: int| copied <= j < i ==> dest@[j] == 0,
            forall|j: int| i <= j < dest.len() ==> dest@[j] == d0[j],
        decreases n - i,
    {
        dest.set(i, 0);
        i = i + 1;
    }
    proof {
        assert forall|j: int| copied <= j < n implies copied_byte(src@, j) == 0 by {
            let k = choose|k: int| 0 <= k < copied && src@[k] == 0;
            assert(0 <= k < j && src@[k] == 0);
        }
        assert(dest@ =~= spec_strncpy(d0, src@, n as nat));
        lemma_strncpy_bytes(d0, src@, n as nat);
    }
}

/// A string compares equal to itself: the comparison of `s` with `s` from
/// any position is 0.
pub proof fn lemma_compare_reflexive(s: Seq<u8>, n: usize, i: usize)
    ensures
        compare_from(s, s, n, i) == 0,
    decreases n - i,
{
    if i < n && s[i as int] != 0 {
        lemma_compare_reflexive(s, n, (i + 1) as usize);
    }
}

/// Swapping the two strings negates the comparison: `strncmp(a, b, n)` is
/// `-strncmp(b, a, n)`.
pub proof fn lemma_compare_antisymmetric(a: Seq<u8>, b: Seq<u8>, n: usize, i: usize)
    ensures
        compare_from(a, b, n, i) as int == -(compare_from(b, a, n, i) as int),
    decreases n - i,
{
    if i < n && a[i as int] == b[i as int] && a[i as int] != 0 {
        lemma_compare_antisymmetric(a, b, n, (i + 1) as usize);
    }
}

proof fn lemma_copy_compares_equal_from(dest: Seq<u8>, src: Seq<u8>, n: usize, i: usize)
    requires
        n <= dest.len(),
        copy_reads_within(src, n as nat),
        !has_nul_before(src, i as int),
    ensures
        compare_reads_within(spec_strncpy(dest, src, n as nat), src, n, i),
        compare_from(spec_strncpy(dest, src, n as nat), src, n, i) == 0,
    decreases n - i,
{
    let d = spec_strncpy(dest, src, n as nat);
    if i < n {
        assert(i < src.len());
        assert(d[i as int] == src[i as int]);
        if src[i as int] != 0 {
            assert(!has_nul_before(src, i + 1)) by {
                if has_nul_before(src, i + 1) {
                    let k = choose|k: int| 0 <= k < i + 1 && src[k] == 0;
                    assert(k < i);
                }
            }
            lemma_copy_compares_equal_from(dest, src, n, (i + 1) as usize);
        }
    }
}

/// After `strncpy(dest, src, n)` the first `n` bytes of `dest` compare equal
/// to `src` under `strncmp(dest, src, n)`, and that comparison reads only
/// bytes that are there.
pub proof fn lemma_strncpy_then_compare_equal(dest: Seq<u8>, src: Seq<u8>, n: usize)
    requires
        n <= dest.len(),
        copy_reads_within(src, n as nat),
    ensures
        compare_reads_within(spec_strncpy(dest, src, n as nat), src, n, 0),
        compare_from(spec_strncpy(dest, src, n as nat), src, n, 0) == 0,
{
    lemma_copy_compares_equal_from(dest, src, n, 0);
}

/// What `strncpy(dest, src, n)` leaves in `dest`, byte by byte: before the
/// first NUL of `src` the source byte, from that NUL on up to `n` a NUL
/// (the NUL itself included), and past `n` the old byte; the length stays.
pub proof fn lemma_strncpy_bytes(dest: Seq<u8>, src: Seq<u8>, n: nat)
    ensures
        spec_strncpy(dest, src, n).len() == dest.len(),
        forall|i: int| 0 <= i < n && i < dest.len() && (forall|j: int| 0 <= j <= i ==> src[j] != 0)
            ==> #[trigger] spec_strncpy(dest, src, n)[i] == src[i],
        forall|i: int| 0 <= i < n && i < dest.len() && (exists|j: int| 0 <= j <= i && src[j] == 0)
            ==> #[trigger] spec_strncpy(dest, src, n)[i] == 0,
        forall|i: int| n <= i < dest.len() ==> #[trigger] spec_strncpy(dest, src, n)[i] == dest[i],
{
    assert forall|i: int| 0 <= i < n && i < dest.len() && (forall|j: int| 0 <= j <= i ==> src[j] != 0)
        implies #[trigger] spec_strncpy(dest, src, n)[i] == src[i] by {
        if has_nul_before(src, i) {
            let k = choose|k: int| 0 <= k < i && src[k] == 0;
            assert(src[k] != 0);
        }
    }
    assert forall|i: int| 0 <= i < n && i < dest.len() && (exists|j: int| 0 <= j <= i && src[j] == 0)
        implies #[trigger] spec_strncpy(dest, src, n)[i] == 0 by {
        let k = choose|j: int| 0 <= j <= i && src[j] == 0;
        if k < i {
            assert(has_nul_before(src, i));
        }
    }
}

proof fn lemma_compare_first_difference_from(s1: Seq<u8>, s2: Seq<u8>, n: usize, k: int, i: usize)
    requires
        i <= k < n,
        k < s1.len(),
        k < s2.len(),
        forall|j: int| 0 <= j < k ==> s1[j] == s2[j] && s1[j] != 0,
        s1[k] != s2[k],
    ensures
        compare_from(s1, s2, n, i) as int == s1[k] as int - s2[k] as int,
    decreases k - i,
{
    if i < k {
        lemma_compare_first_difference_from(s1, s2, n, k, (i + 1) as usize);
    }
}

/// The comparison of at most `n` bytes answers the difference, as unsigned
/// bytes, at the first position below `n` where the strings differ, when
/// they agree and hold no NUL before it. This covers the last position
/// `n - 1` as well as any earlier one.
pub proof fn lemma_compare_first_difference(s1: Seq<u8>, s2: Seq<u8>, n: usize, k: int)
    requires
        0 <= k < n,
        k < s1.len(),
        k < s2.len(),
        forall|j: int| 0 <= j < k ==> s1[j] == s2[j] && s1[j] != 0,
        s1[k] != s2[k],
    ensures
        compare_from(s1, s2, n, 0) as int == s1[k] as int - s2[k] as int,
{
    lemma_compare_first_difference_from(s1, s2, n, k, 0);
}

proof fn lemma_compare_agreeing_from(s1: Seq<u8>, s2: Seq<u8>, n: usize, i: usize)
    requires
        i <= n,
        n <= s1.len(),
        n <= s2.len(),
        forall|j: int| 0 <= j < n ==> #[trigger] s1[j] == s2[j],
    ensures
        compare_from(s1, s2, n, i) == 0,
    decreases n - i,
{
    if i < n {
        lemma_compare_agreeing_from(s1, s2, n, (i + 1) as usize);
    }
}

/// Strings that agree on their first `n` bytes compare equal, whatever
/// follows.
pub proof fn lemma_compare_agreeing(s1: Seq<u8>, s2: Seq<u8>, n: usize)
    requires
        n <= s1.len(),
        n <= s2.len(),
        forall|j: int| 0 <= j < n ==> #[trigger] s1[j] == s2[j],
    ensures
        compare_from(s1, s2, n, 0) == 0,
{
    lemma_compare_agreeing_from(s1, s2, n, 0);
}

proof fn lemma_compare_stops_at_nul_from(s1: Seq<u8>, s2: Seq<u8>, n: usize, k: int, i: usize)
    requires
        i <= k < n,
        k < s1.len(),
        k < s2.len(),
        forall|j: int| 0 <= j <= k ==> s1[j] == s2[j],
        s1[k] == 0,
    ensures
        compare_from(s1, s2, n, i) == 0,
    decreases k - i,
{
    if i < k && s1[i as int] != 0 {
        lemma_compare_stops_at_nul_from(s1, s2, n, k, (i + 1) as usize);
    }
}

/// Strings that agree up to and including a NUL before position `n`
/// compare equal, whatever follows the NUL.
pub proof fn lemma_compare_stops_at_nul(s1: Seq<u8>, s2: Seq<u8>, n: usize, k: int)
    requires
        0 <= k < n,
        k < s1.len(),
        k < s2.len(),
        forall|j: int| 0 <= j <= k ==> s1[j] == s2[j],
        s1[k] == 0,
    ensures
        compare_from(s1, s2, n, 0) == 0,
{
    lemma_compare_stops_at_nul_from(s1, s2, n, k, 0);
}

} // verus!
