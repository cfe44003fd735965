//! Filling a buffer from the hardware random number generator, four bytes
//! (one 32-bit reading, in the machine's byte order) at a time.

use vstd::prelude::*;

verus! {

/// Bytes taken from one reading of the random number generator.
pub const WORD_BYTES: usize = 4;

/// How many readings a buffer of `len` bytes takes: `len / 4` rounded up.
pub open spec fn words_for(len: int) -> int {
    (len + 3) / 4
}

/// How many readings of the random number generator fill `len` bytes.
pub fn random_words_needed(len: usize) -> (r: usize)
    ensures
        r == words_for(len as int),
{
    if len % WORD_BYTES == 0 {
        len / WORD_BYTES
    } else {
        len / WORD_BYTES + 1
    }
}

/// The `len` random bytes of `os_get_random`, given the readings in the
/// order they were taken, each as its four bytes: byte `i` is byte `i % 4`
/// of reading `i / 4`, and a final partial reading gives its leading bytes.
pub fn os_get_random(len: usize, words: &Vec<[u8; 4]>) -> (r: Vec<u8>)
    requires
        words.len() >= words_for(len as int),
    ensures
        r.len() == len,
        forall|i: int| 0 <= i < len ==> r@[i] == words@[i / 4]@[i % 4],
{
    let mut out: Vec<u8> = Vec::new();
    let mut i: usize = 0;
    let mut w: usize = 0;
    while i < len
        invariant
            i <= len,
            out.len() == i,
            i < len ==> i == 4 * w,
            words.len() >= words_for(len as int),
            forall|j: int| 0 <= j < i ==> out@[j] == words@[j / 4]@[j % 4],
        decreases len - i,
    {
        assert(w < words.len()) by (nonlinear_arith)
            requires i < len, i == 4 * w, words.len() >= (len + 3) / 4;
        let bytes: [u8; 4] = words[w];
        let copy_len: usize = if len - i < WORD_BYTES { len - i } else { WORD_BYTES };
        let mut k: usize = 0;
        while k < copy_len
            invariant
                k <= copy_len <= 4,
                i + copy_len <= len,
                i == 4 * w,
                w < words.len(),
                bytes@ == words@[w as int]@,
                out.len() == i + k,
                forall|j: int| 0 <= j < i + k ==> out@[j] == words@[j / 4]@[j % 4],
            decreases copy_len - k,
        {
            out.push(bytes[k]);
            assert((i + k) / 4 == w && (i + k) % 4 == k) by (nonlinear_arith)
                requires i == 4 * w, k < 4;
            k = k + 1;
        }
        i = i + copy_len;
        w = w + 1;
    }
    out
}

/// `os_get_random` takes as many readings as the buffer needs and no more:
/// the readings cover all `len` bytes, and each of them gives at least one.
pub proof fn lemma_readings_cover_exactly(len: int)
    requires
        0 <= len,
    ensures
        4 * words_for(len) >= len,
        len > 0 ==> 4 * (words_for(len) - 1) < len,
        forall|i: int| 0 <= i < len ==> 0 <= #[trigger] (i / 4) < words_for(len),
{
    assert forall|i: int| 0 <= i < len implies 0 <= #[trigger] (i / 4) < words_for(len) by {
        assert(i / 4 <= (len + 3) / 4 - 1) by (nonlinear_arith)
            requires 0 <= i < len;
    }
}

} // verus!
