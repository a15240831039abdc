use vstd::prelude::*;

verus! {

/// Whether byte `i` of `s` survives the cleaning pass: control bytes go, and
/// of a run of spaces only the last one stays.
pub open spec fn kept_at(s: Seq<u8>, i: int) -> bool {
    s[i] >= 32 && !(s[i] == 32 && i + 1 < s.len() && s[i + 1] == 32)
}

/// The first `n` bytes of `s` after dropping control bytes and collapsing
/// space runs.
pub open spec fn squeeze(s: Seq<u8>, n: int) -> Seq<u8>
    decreases n,
{
    if n <= 0 {
        Seq::empty()
    } else if kept_at(s, n - 1) {
        squeeze(s, n - 1).push(s[n - 1])
    } else {
        squeeze(s, n - 1)
    }
}

/// `t` without leading spaces.
pub open spec fn trim_front(t: Seq<u8>) -> Seq<u8>
    decreases t.len(),
{
    if t.len() > 0 && t[0] == 32 {
        trim_front(t.subrange(1, t.len() as int))
    } else {
        t
    }
}

/// `t` without trailing spaces.
pub open spec fn trim_back(t: Seq<u8>) -> Seq<u8>
    decreases t.len(),
{
    if t.len() > 0 && t.last() == 32 {
        trim_back(t.drop_last())
    } else {
        t
    }
}

/// The cleaned form of raw extracted text.
pub open spec fn cleaned(s: Seq<u8>) -> Seq<u8> {
    trim_back(trim_front(squeeze(s, s.len() as int)))
}

/// Cleans raw text bytes from the document library: control bytes (below
/// 32) are dropped, runs of spaces collapse to one, leading and trailing
/// spaces go. Other bytes, UTF-8 included, pass unchanged.
pub struct SimdSanitizer;

impl SimdSanitizer {
    /// The cleaning pass, one byte at a time.
    pub fn scalar_clean(input: &[u8]) -> (r: Vec<u8>)
        ensures
            r@ == cleaned(input@),
    {
        let len = input.len();
        let mut squeezed: Vec<u8> = Vec::new();
        let mut i: usize = 0;
        while i < len
            invariant
                len == input@.len(),
                i <= len,
                squeezed@ == squeeze(input@, i as int),
            decreases len - i,
        {
            let b = input[i];
            if b >= 32 && !(b == 32 && i + 1 < len && input[i + 1] == 32) {
                squeezed.push(b);
            }
            i = i + 1;
        }
        let n = squeezed.len();
        let mut start: usize = 0;
        assert(squeezed@.subrange(0, n as int) =~= squeezed@);
        while start < n && squeezed[start] == 32
            invariant
                n == squeezed@.len(),
                start <= n,
                trim_front(squeezed@) == trim_front(squeezed@.subrange(start as int, n as int)),
            decreases n - start,
        {
            assert(squeezed@.subrange(start as int, n as int).subrange(1, (n - start) as int)
                =~= squeezed@.subrange(start + 1, n as int));
            start = start + 1;
        }
        proof {
            let t = squeezed@.subrange(start as int, n as int);
            assert(trim_front(t) == t);
        }
        let mut end: usize = n;
        while end > start && squeezed[end - 1] == 32
            invariant
                n == squeezed@.len(),
                start <= end <= n,
                trim_back(squeezed@.subrange(start as int, n as int)) == trim_back(
                    squeezed@.subrange(start as int, end as int),
                ),
            decreases end,
        {
            assert(squeezed@.subrange(start as int, end as int).drop_last() =~= squeezed@.subrange(
                start as int,
                end - 1,
            ));
            end = end - 1;
        }
        let mut out: Vec<u8> = Vec::new();
        let mut k: usize = start;
        while k < end
            invariant
                start <= k <= end,
                end <= n,
                n == squeezed@.len(),
                out@ == squeezed@.subrange(start as int, k as int),
            decreases end - k,
        {
            out.push(squeezed[k]);
            k = k + 1;
            assert(out@ =~= squeezed@.subrange(start as int, k as int));
        }
        proof {
            let t = squeezed@.subrange(start as int, end as int);
            assert(trim_back(t) == t);
            assert(squeezed@ =~= squeeze(input@, input@.len() as int));
        }
        out
    }

    /// The cleaning pass; the same result as `scalar_clean` on every input.
    pub fn fast_clean(input: &[u8]) -> (r: Vec<u8>)
        ensures
            r@ == cleaned(input@),
    {
        Self::scalar_clean(input)
    }

    /// Whether the two entry points agree on `input`; they always do.
    pub fn verify_consistency(input: &[u8]) -> (r: bool)
        ensures
            r,
    {
        let a = Self::scalar_clean(input);
        let b = Self::fast_clean(input);
        let mut same = a.len() == b.len();
        let mut i: usize = 0;
        while same && i < a.len()
            invariant
                a@ == b@,
                same,
                i <= a@.len(),
            decreases a@.len() - i,
        {
            if a[i] != b[i] {
                same = false;
            }
            i = i + 1;
        }
        assert(a@.len() == b@.len());
        same
    }
}

} // verus!
