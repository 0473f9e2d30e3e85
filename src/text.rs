//! Literal matching and replacement of byte patterns.
use vstd::prelude::*;
use vstd::string::StringSliceAdditionalSpecFns;

verus! {

/// `p` occurs in `s` starting at byte `i`.
pub open spec fn occurs_at(s: Seq<u8>, p: Seq<u8>, i: int) -> bool {
    0 <= i && i + p.len() <= s.len() && s.subrange(i, i + p.len()) == p
}

/// `p` occurs somewhere in `s`.
pub open spec fn occurs_in(s: Seq<u8>, p: Seq<u8>) -> bool {
    exists|i: int| occurs_at(s, p, i)
}

/// `s` with every occurrence of `p` replaced by `r`, scanning from the left
/// and never letting two replaced occurrences overlap.
/// An empty pattern leaves `s` as it is.
pub open spec fn replaced(s: Seq<u8>, p: Seq<u8>, r: Seq<u8>) -> Seq<u8>
    decreases s.len(),
{
    if p.len() == 0 || s.len() < p.len() {
        s
    } else if s.subrange(0, p.len() as int) == p {
        r + replaced(s.subrange(p.len() as int, s.len() as int), p, r)
    } else {
        seq![s[0]] + replaced(s.subrange(1, s.len() as int), p, r)
    }
}

/// Whether `p` occurs in `s` at byte `i`.
pub fn matches_at(s: &[u8], p: &[u8], i: usize) -> (r: bool)
    ensures
        r == occurs_at(s@, p@, i as int),
{
    if i > s.len() || p.len() > s.len() - i {
        return false;
    }
    let mut k: usize = 0;
    while k < p.len()
        invariant
            k <= p.len(),
            i + p.len() <= s.len(),
            forall|j: int| 0 <= j < k ==> s@[i + j] == p@[j],
        decreases p.len() - k,
    {
        if s[i + k] != p[k] {
            assert(s@.subrange(i as int, i + p.len())[k as int] != p@[k as int]);
            return false;
        }
        k += 1;
    }
    assert(s@.subrange(i as int, i + p.len()) =~= p@);
    true
}

/// Whether `p` occurs anywhere in `s` (an empty pattern occurs everywhere).
pub fn contains_bytes(s: &[u8], p: &[u8]) -> (r: bool)
    ensures
        r == occurs_in(s@, p@),
{
    if p.len() > s.len() {
        return false;
    }
    let last: usize = s.len() - p.len();
    let mut i: usize = 0;
    loop
        invariant
            last == s.len() - p.len(),
            i <= last,
            forall|j: int| 0 <= j < i ==> !occurs_at(s@, p@, j),
        decreases last - i,
    {
        if matches_at(s, p, i) {
            return true;
        }
        if i == last {
            assert forall|j: int| !occurs_at(s@, p@, j) by {
                if 0 <= j < i {
                }
            }
            return false;
        }
        i += 1;
    }
}

/// Text that does not hold the pattern comes out of a replacement unchanged.
pub proof fn lemma_replaced_without_occurrence(s: Seq<u8>, p: Seq<u8>, r: Seq<u8>)
    requires
        !occurs_in(s, p),
    ensures
        replaced(s, p, r) == s,
    decreases s.len(),
{
    if p.len() == 0 || s.len() < p.len() {
    } else {
        assert(!occurs_at(s, p, 0));
        let rest = s.subrange(1, s.len() as int);
        assert forall|j: int| !occurs_at(rest, p, j) by {
            if occurs_at(rest, p, j) {
                assert(s.subrange(j + 1, j + 1 + p.len()) =~= rest.subrange(j, j + p.len()));
                assert(occurs_at(s, p, j + 1));
            }
        }
        lemma_replaced_without_occurrence(rest, p, r);
        assert(s =~= seq![s[0]] + rest);
    }
}

/// `s` with every occurrence of `p` replaced by `r`, leftmost first and
/// without overlaps.
pub fn replace_bytes(s: &[u8], p: &[u8], r: &[u8]) -> (out: Vec<u8>)
    ensures
        out@ == replaced(s@, p@, r@),
{
    let n = s.len();
    let mut out: Vec<u8> = Vec::new();
    let mut i: usize = 0;
    assert(s@.subrange(0, n as int) =~= s@);
    while i < n
        invariant
            n == s@.len(),
            i <= n,
            out@ + replaced(s@.subrange(i as int, n as int), p@, r@) == replaced(s@, p@, r@),
        decreases n - i,
    {
        let ghost t = s@.subrange(i as int, n as int);
        if p.len() > 0 && p.len() <= n - i && matches_at(s, p, i) {
            assert(t.subrange(0, p@.len() as int) =~= p@);
            assert(t.subrange(p@.len() as int, t.len() as int) =~= s@.subrange(
                i + p@.len(),
                n as int,
            ));
            let ghost before = out@;
            out.extend_from_slice(r);
            assert(out@ == before + r@);
            assert(before + (r@ + replaced(s@.subrange(i + p@.len(), n as int), p@, r@)) =~= out@
                + replaced(s@.subrange(i + p@.len(), n as int), p@, r@));
            i += p.len();
        } else {
            let ghost before = out@;
            let ghost tail = s@.subrange(i + 1, n as int);
            assert(t.subrange(1, t.len() as int) =~= tail);
            if p.len() > 0 && p.len() <= n - i {
                assert(t.subrange(0, p@.len() as int) =~= s@.subrange(i as int, i + p@.len()));
            } else {
                assert(t =~= seq![t[0]] + tail);
            }
            out.push(s[i]);
            assert(before + (seq![s@[i as int]] + replaced(tail, p@, r@)) =~= out@ + replaced(
                tail,
                p@,
                r@,
            ));
            i += 1;
        }
    }
    assert(s@.subrange(n as int, n as int) =~= Seq::<u8>::empty());
    assert(s@.subrange(0, n as int) =~= s@);
    out
}

/// The new contents of a text file whose contents are `content`, when every
/// occurrence of `find_text` is to become `replace_text`; `None` where the
/// file is to be left alone: the text to find is empty, or the contents
/// would not change.
/// The texts are compared and rewritten in their UTF-8 encodings.
pub fn find_replace_content(content: &str, find_text: &str, replace_text: &str) -> (r: Option<
    Vec<u8>,
>)
    ensures
        r is Some <==> find_text@.len() > 0 && replaced(
            content.spec_bytes(),
            find_text.spec_bytes(),
            replace_text.spec_bytes(),
        ) != content.spec_bytes(),
        r matches Some(v) ==> v@ == replaced(
            content.spec_bytes(),
            find_text.spec_bytes(),
            replace_text.spec_bytes(),
        ),
{
    if find_text.is_empty() {
        return None;
    }
    let s = content.as_bytes();
    let p = find_text.as_bytes();
    if !contains_bytes(s, p) {
        proof {
            lemma_replaced_without_occurrence(s@, p@, replace_text.spec_bytes());
        }
        return None;
    }
    let out = replace_bytes(s, p, replace_text.as_bytes());
    if out.len() == s.len() && matches_at(out.as_slice(), s, 0) {
        assert(out@ =~= out@.subrange(0, s@.len() as int));
        return None;
    }
    proof {
        if out@ == s@ {
            assert(out@.subrange(0, s@.len() as int) =~= s@);
        }
    }
    Some(out)
}

} // verus!
