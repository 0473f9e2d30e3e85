//! Telling binary contents from text by a sample of their first bytes.
use vstd::prelude::*;

verus! {

/// How many leading bytes of a file the classification looks at.
pub const SAMPLE_LEN: usize = 1024;

/// A byte that is not printable text: outside ASCII, or an ASCII control
/// character other than tab, line feed and carriage return.
pub open spec fn is_non_printable(b: u8) -> bool {
    b >= 128 || (b < 32 && b != 9 && b != 10 && b != 13)
}

/// How many bytes of `s` are not printable.
pub open spec fn count_non_printable(s: Seq<u8>) -> nat
    decreases s.len(),
{
    if s.len() == 0 {
        0
    } else {
        count_non_printable(s.drop_last()) + if is_non_printable(s.last()) {
            1nat
        } else {
            0nat
        }
    }
}

/// `s` holds a zero byte.
pub open spec fn has_null(s: Seq<u8>) -> bool {
    exists|i: int| 0 <= i < s.len() && s[i] == 0
}

/// The leading bytes of `data` that the classification looks at.
pub open spec fn sample_of(data: Seq<u8>) -> Seq<u8> {
    if data.len() <= SAMPLE_LEN {
        data
    } else {
        data.take(SAMPLE_LEN as int)
    }
}

/// A non-empty sample is binary if it holds a zero byte or if more than
/// 30 per cent of its bytes are not printable. An empty one is text.
pub open spec fn looks_binary(sample: Seq<u8>) -> bool {
    sample.len() > 0 && (has_null(sample) || 10 * count_non_printable(sample) > 3
        * sample.len())
}

/// Whether contents that begin with `data` are binary, judged on their
/// first `SAMPLE_LEN` bytes (or all of `data`, if it is shorter).
pub fn is_binary_sample(data: &[u8]) -> (r: bool)
    ensures
        r == looks_binary(sample_of(data@)),
{
    let n: usize = if data.len() <= SAMPLE_LEN {
        data.len()
    } else {
        SAMPLE_LEN
    };
    let ghost sample = sample_of(data@);
    assert(sample =~= data@.take(n as int));
    if n == 0 {
        return false;
    }
    let mut nulls: usize = 0;
    let mut non_printable: usize = 0;
    let mut i: usize = 0;
    while i < n
        invariant
            n <= SAMPLE_LEN,
            n <= data@.len(),
            i <= n,
            nulls <= i,
            non_printable <= i,
            non_printable == count_non_printable(data@.take(i as int)),
            (nulls > 0) == has_null(data@.take(i as int)),
        decreases n - i,
    {
        let b = data[i];
        proof {
            let before = data@.take(i as int);
            let after = data@.take(i + 1);
            assert(after.drop_last() =~= before);
            if has_null(before) {
                let j = choose|j: int| 0 <= j < before.len() && before[j] == 0;
                assert(after[j] == 0);
            }
            if has_null(after) && b != 0 {
                let j = choose|j: int| 0 <= j < after.len() && after[j] == 0;
                assert(before[j] == 0);
            }
            if b == 0 {
                assert(after[i as int] == 0);
            }
        }
        if b == 0 {
            nulls += 1;
        }
        if b >= 128 || (b < 32 && b != 9 && b != 10 && b != 13) {
            non_printable += 1;
        }
        i += 1;
    }
    nulls > 0 || 10 * non_printable > 3 * n
}

} // verus!
