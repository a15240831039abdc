use vstd::prelude::*;

use crate::text::{chars_of, ends_with_chars, has_prefix, has_suffix, starts_with_chars};

verus! {

/// Where an on-disk file came from, as far as its basename tells.
#[derive(Debug, Clone, Copy, PartialEq, Eq, Structural)]
pub enum FileOrigin {
    /// Produced by the cache: eligible for deletion.
    Owned,
    /// Anything else: never touched.
    Alien,
}

/// The fixed token every cache-produced basename starts with.
pub open spec fn owned_prefix() -> Seq<char> {
    seq!['T', 'F', 'T', '_']
}

/// The fixed token every cache-produced basename ends with.
pub open spec fn owned_suffix() -> Seq<char> {
    seq!['.', 't', 'f', 't', '_', 'c', 'a', 'c', 'h', 'e']
}

/// Number of underscores in `s`.
pub open spec fn separators(s: Seq<char>) -> nat
    decreases s.len(),
{
    if s.len() == 0 {
        0
    } else {
        separators(s.drop_last()) + if s.last() == '_' { 1nat } else { 0nat }
    }
}

/// Whether `char::is_numeric` holds of a character.
pub uninterp spec fn numeric(c: char) -> bool;

/// Relies on `char::is_numeric`: the Unicode general categories Nd, Nl and
/// No, which take in the ASCII digits.
#[verifier::external_body]
fn is_numeric_char(c: char) -> (r: bool)
    ensures
        r == numeric(c),
        '0' <= c && c <= '9' ==> r,
{
    c.is_numeric()
}

/// The part between prefix and suffix.
pub open spec fn middle_of(s: Seq<char>) -> Seq<char> {
    s.subrange(owned_prefix().len() as int, s.len() - owned_suffix().len())
}

/// Every character of the third underscore-separated part of `m` is numeric.
pub open spec fn timestamp_part_numeric(m: Seq<char>) -> bool {
    forall|i: int|
        0 <= i < m.len() && separators(#[trigger] m.subrange(0, i)) == 2 && m[i] != '_'
            ==> numeric(m[i])
}

/// The middle splits at underscores into at least three parts.
pub open spec fn has_three_parts(m: Seq<char>) -> bool {
    separators(m) >= 2
}

/// The naming contract: a basename is cache-produced iff it carries the prefix
/// and the suffix, and its middle splits at underscores into at least three
/// parts of which the third is numeric in the sense of `char::is_numeric`.
pub open spec fn is_owned_name(s: Seq<char>) -> bool {
    &&& has_prefix(s, owned_prefix())
    &&& has_suffix(s, owned_suffix())
    &&& has_three_parts(middle_of(s))
    &&& timestamp_part_numeric(middle_of(s))
}

pub open spec fn origin_of(s: Seq<char>) -> FileOrigin {
    if is_owned_name(s) {
        FileOrigin::Owned
    } else {
        FileOrigin::Alien
    }
}

/// Counts the parts of `m` and checks that the third one is numeric.
fn scan_middle(m: &Vec<char>) -> (r: (bool, bool))
    ensures
        r.0 == has_three_parts(m@),
        r.1 == timestamp_part_numeric(m@),
{
    let mut seps: usize = 0;
    let mut ts_ok = true;
    let mut i: usize = 0;
    while i < m.len()
        invariant
            i <= m.len(),
            seps as nat == separators(m@.subrange(0, i as int)),
            seps <= i,
            ts_ok == (forall|j: int|
                0 <= j < i && separators(#[trigger] m@.subrange(0, j)) == 2 && m@[j] != '_'
                    ==> numeric(m@[j])),
        decreases m.len() - i,
    {
        let c = m[i];
        assert(m@.subrange(0, i + 1).drop_last() =~= m@.subrange(0, i as int));
        if seps == 2 && c != '_' && !is_numeric_char(c) {
            ts_ok = false;
        }
        if c == '_' {
            seps = seps + 1;
        }
        i = i + 1;
    }
    assert(m@.subrange(0, m.len() as int) =~= m@);
    (seps >= 2, ts_ok)
}

/// Classifies on-disk basenames; the single authority on whether a file may be
/// deleted.
#[derive(Debug)]
pub struct NamingContract;

impl NamingContract {
    /// Checks `file_name` against the naming contract. The flag says whether it
    /// is cache-produced; when it is not, the list holds the one reason why,
    /// naming the first rule broken.
    pub fn validate(file_name: &str) -> (r: (bool, Vec<String>))
        ensures
            r.0 == is_owned_name(file_name@),
            r.0 <==> r.1.len() == 0,
            r.1.len() <= 1,
            !has_prefix(file_name@, owned_prefix()) ==> r.1.len() == 1
                && r.1[0]@ == "Missing 'TFT_' prefix"@,
            has_prefix(file_name@, owned_prefix()) && !has_suffix(file_name@, owned_suffix())
                ==> r.1.len() == 1 && r.1[0]@ == "Missing '.tft_cache' suffix"@,
            has_prefix(file_name@, owned_prefix()) && has_suffix(file_name@, owned_suffix())
                && !has_three_parts(middle_of(file_name@)) ==> r.1.len() == 1 && r.1[0]@
                == "Invalid format: need at least 3 underscore-separated parts"@,
            has_prefix(file_name@, owned_prefix()) && has_suffix(file_name@, owned_suffix())
                && has_three_parts(middle_of(file_name@)) && !timestamp_part_numeric(
                middle_of(file_name@),
            ) ==> r.1.len() == 1 && r.1[0]@ == "Timestamp part is not numeric"@,
    {
        let s = chars_of(file_name);
        let prefix = vec!['T', 'F', 'T', '_'];
        let suffix = vec!['.', 't', 'f', 't', '_', 'c', 'a', 'c', 'h', 'e'];
        let mut reasons: Vec<String> = Vec::new();
        assert(prefix@ =~= owned_prefix());
        assert(suffix@ =~= owned_suffix());
        if !starts_with_chars(&s, &prefix) {
            reasons.push(String::from_str("Missing 'TFT_' prefix"));
            return (false, reasons);
        }
        if !ends_with_chars(&s, &suffix) {
            reasons.push(String::from_str("Missing '.tft_cache' suffix"));
            return (false, reasons);
        }
        if s.len() < 14 {
            // the prefix and the suffix cannot overlap
            proof {
                assert(s@.subrange(0, 4)[3] == '_');
                assert(s@.subrange(s@.len() - 10, s@.len() as int)[0] == '.');
                assert(s@.subrange(0, 4)[2] == 'T');
                assert(s@.subrange(s@.len() - 10, s@.len() as int)[1] == 't');
            }
            reasons.push(String::from_str("Invalid structure"));
            return (false, reasons);
        }
        let mut middle: Vec<char> = Vec::new();
        let end = s.len() - 10;
        let mut i: usize = 4;
        while i < end
            invariant
                4 <= i <= end,
                end == s.len() - 10,
                middle@ == s@.subrange(4, i as int),
            decreases end - i,
        {
            middle.push(s[i]);
            i = i + 1;
            assert(middle@ =~= s@.subrange(4, i as int));
        }
        assert(middle@ == middle_of(file_name@));
        let (three, numeric) = scan_middle(&middle);
        if !three {
            reasons.push(String::from_str("Invalid format: need at least 3 underscore-separated parts"));
            return (false, reasons);
        }
        if !numeric {
            reasons.push(String::from_str("Timestamp part is not numeric"));
            return (false, reasons);
        }
        (true, reasons)
    }

    /// Owned iff `validate` accepts the basename.
    pub fn classify(file_name: &str) -> (r: FileOrigin)
        ensures
            r == origin_of(file_name@),
    {
        let (valid, _) = Self::validate(file_name);
        if valid {
            FileOrigin::Owned
        } else {
            FileOrigin::Alien
        }
    }
}

} // verus!
