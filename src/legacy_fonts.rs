use vstd::prelude::*;

use vstd::string::*;
use crate::text::{chars_of, contains_chars, contains_seq, lower_of, lowercase, string_of};

verus! {

/// Legacy Vietnamese 8-bit encodings that text may have been typed in.
#[derive(Debug, Clone, Copy, PartialEq, Eq, Structural)]
pub enum VietnameseEncoding {
    Tcvn3,
    Vni,
    Unknown,
}

/// The Unicode character a TCVN3 glyph stands for, if it is one the
/// converter knows.
pub open spec fn tcvn3_char(c: char) -> Option<char> {
    if c == 'a' { Some('a') }
    else if c == '\u{e1}' { Some('\u{e1}') }
    else if c == '\u{e0}' { Some('\u{e0}') }
    else if c == '\u{1ea3}' { Some('\u{1ea3}') }
    else if c == '\u{e3}' { Some('\u{e3}') }
    else if c == '\u{1ea1}' { Some('\u{1ea1}') }
    else if c == '\u{ab}' { Some('\u{f4}') }
    else if c == '\u{d7}' { Some('\u{ec}') }
    else if c == '\u{a9}' { Some('\u{e2}') }
    else if c == '\u{f9}' { Some('\u{1ef1}') }
    else if c == '\u{ae}' { Some('\u{111}') }
    else if c == '\u{b9}' { Some('\u{1ea1}') }
    else if c == '\u{ba}' { Some('\u{1edd}') }
    else if c == '\u{bb}' { Some('\u{1eb1}') }
    else if c == '\u{bc}' { Some('\u{1eb3}') }
    else if c == '\u{bd}' { Some('\u{1eb5}') }
    else if c == '\u{be}' { Some('\u{1eb7}') }
    else if c == '\u{b5}' { Some('\u{c0}') }
    else if c == '\u{b6}' { Some('\u{c1}') }
    else if c == '\u{b7}' { Some('\u{1ea2}') }
    else if c == '\u{b8}' { Some('\u{c3}') }
    else { None }
}

/// The Unicode character a VNI glyph stands for, if it is one the converter
/// knows.
pub open spec fn vni_char(c: char) -> Option<char> {
    if c == '\u{d8}' {
        Some('\u{c0}')
    } else if c == '\u{e8}' {
        Some('\u{e8}')
    } else {
        None
    }
}

fn tcvn3_lookup(c: char) -> (r: Option<char>)
    ensures
        r == tcvn3_char(c),
{
    match c {
        'a' => Some('a'),
        '\u{e1}' => Some('\u{e1}'),
        '\u{e0}' => Some('\u{e0}'),
        '\u{1ea3}' => Some('\u{1ea3}'),
        '\u{e3}' => Some('\u{e3}'),
        '\u{1ea1}' => Some('\u{1ea1}'),
        '\u{ab}' => Some('\u{f4}'),
        '\u{d7}' => Some('\u{ec}'),
        '\u{a9}' => Some('\u{e2}'),
        '\u{f9}' => Some('\u{1ef1}'),
        '\u{ae}' => Some('\u{111}'),
        '\u{b9}' => Some('\u{1ea1}'),
        '\u{ba}' => Some('\u{1edd}'),
        '\u{bb}' => Some('\u{1eb1}'),
        '\u{bc}' => Some('\u{1eb3}'),
        '\u{bd}' => Some('\u{1eb5}'),
        '\u{be}' => Some('\u{1eb7}'),
        '\u{b5}' => Some('\u{c0}'),
        '\u{b6}' => Some('\u{c1}'),
        '\u{b7}' => Some('\u{1ea2}'),
        '\u{b8}' => Some('\u{c3}'),
        _ => None,
    }
}

fn vni_lookup(c: char) -> (r: Option<char>)
    ensures
        r == vni_char(c),
{
    match c {
        '\u{d8}' => Some('\u{c0}'),
        '\u{e8}' => Some('\u{e8}'),
        _ => None,
    }
}

/// How many characters of `s` the table `f` knows.
pub open spec fn tcvn3_count(s: Seq<char>) -> int
    decreases s.len(),
{
    if s.len() == 0 {
        0
    } else {
        tcvn3_count(s.drop_last()) + if tcvn3_char(s.last()).is_some() { 1int } else { 0int }
    }
}

pub open spec fn vni_count(s: Seq<char>) -> int
    decreases s.len(),
{
    if s.len() == 0 {
        0
    } else {
        vni_count(s.drop_last()) + if vni_char(s.last()).is_some() { 1int } else { 0int }
    }
}

/// The encoding guessed from glyph counts `t` and `v` over a text of `len`
/// bytes: one that covers over a tenth of the text and more than twice the
/// other wins; failing that, any TCVN3 glyph at least as frequent as VNI
/// ones, then any VNI glyph.
pub open spec fn guess_encoding(t: int, v: int, len: int) -> VietnameseEncoding {
    if len > 0 && t > len / 10 && t > 2 * v {
        VietnameseEncoding::Tcvn3
    } else if len > 0 && v > len / 10 && v > 2 * t {
        VietnameseEncoding::Vni
    } else if t > 0 && t >= v {
        VietnameseEncoding::Tcvn3
    } else if v > 0 {
        VietnameseEncoding::Vni
    } else {
        VietnameseEncoding::Unknown
    }
}

/// `s` with every glyph the encoding's table knows replaced.
pub open spec fn convert_with(s: Seq<char>, e: VietnameseEncoding) -> Seq<char> {
    Seq::new(
        s.len(),
        |i: int|
            match e {
                VietnameseEncoding::Tcvn3 => match tcvn3_char(s[i]) {
                    Some(u) => u,
                    None => s[i],
                },
                VietnameseEncoding::Vni => match vni_char(s[i]) {
                    Some(u) => u,
                    None => s[i],
                },
                VietnameseEncoding::Unknown => s[i],
            },
    )
}

/// Guesses whether `text` was typed in a legacy encoding and converts it to
/// Unicode; unknown text comes back unchanged.
pub fn detect_and_convert(text: &str) -> (r: (VietnameseEncoding, String))
    ensures
        r.0 == guess_encoding(tcvn3_count(text@), vni_count(text@), text.spec_bytes().len() as int),
        r.1@ == convert_with(text@, r.0),
{
    let cs = chars_of(text);
    let len = text.as_bytes().len();
    let mut t: usize = 0;
    let mut v: usize = 0;
    let mut i: usize = 0;
    while i < cs.len()
        invariant
            cs@ == text@,
            i <= cs@.len(),
            t as int == tcvn3_count(cs@.subrange(0, i as int)),
            v as int == vni_count(cs@.subrange(0, i as int)),
            t <= i,
            v <= i,
        decreases cs@.len() - i,
    {
        assert(cs@.subrange(0, i + 1).drop_last() =~= cs@.subrange(0, i as int));
        if tcvn3_lookup(cs[i]).is_some() {
            t = t + 1;
        }
        if vni_lookup(cs[i]).is_some() {
            v = v + 1;
        }
        i = i + 1;
    }
    assert(cs@.subrange(0, i as int) =~= cs@);
    let t2 = t as u128;
    let v2 = v as u128;
    let len2 = len as u128;
    let encoding = if len2 > 0 && t2 > len2 / 10 && t2 > 2 * v2 {
        VietnameseEncoding::Tcvn3
    } else if len2 > 0 && v2 > len2 / 10 && v2 > 2 * t2 {
        VietnameseEncoding::Vni
    } else if t2 > 0 && t2 >= v2 {
        VietnameseEncoding::Tcvn3
    } else if v2 > 0 {
        VietnameseEncoding::Vni
    } else {
        VietnameseEncoding::Unknown
    };
    let mut out: Vec<char> = Vec::new();
    let mut k: usize = 0;
    while k < cs.len()
        invariant
            cs@ == text@,
            k <= cs@.len(),
            out@ == convert_with(cs@, encoding).subrange(0, k as int),
        decreases cs@.len() - k,
    {
        let c = cs[k];
        let mapped = match encoding {
            VietnameseEncoding::Tcvn3 => match tcvn3_lookup(c) {
                Some(u) => u,
                None => c,
            },
            VietnameseEncoding::Vni => match vni_lookup(c) {
                Some(u) => u,
                None => c,
            },
            VietnameseEncoding::Unknown => c,
        };
        out.push(mapped);
        k = k + 1;
        assert(out@ =~= convert_with(cs@, encoding).subrange(0, k as int));
    }
    assert(convert_with(cs@, encoding).subrange(0, k as int) =~= convert_with(cs@, encoding));
    (encoding, string_of(&out))
}

/// Common words of construction documents, used to confirm a conversion.
pub open spec fn dictionary_words() -> Seq<Seq<char>> {
    seq![
        "công"@,
        "trình"@,
        "xây"@,
        "dự"@,
        "bê"@,
        "tông"@,
        "thép"@,
        "hạng"@,
        "mục"@,
    ]
}

/// Whether an already lowercased text holds at least one dictionary word.
pub fn dictionary_match(lowered: &str) -> (r: bool)
    ensures
        r == exists|i: int| 0 <= i < dictionary_words().len() && contains_seq(lowered@, #[trigger] dictionary_words()[i]),
{
    let hay = chars_of(lowered);
    let words = ["công", "trình", "xây", "dự", "bê", "tông", "thép", "hạng", "mục"];
    proof {
        assert(words@ == seq!["công", "trình", "xây", "dự", "bê", "tông", "thép", "hạng", "mục"]);
    }
    let mut i: usize = 0;
    while i < 9
        invariant
            i <= 9,
            hay@ == lowered@,
            words@ == seq!["công", "trình", "xây", "dự", "bê", "tông", "thép", "hạng", "mục"],
            forall|k: int| 0 <= k < i ==> !contains_seq(hay@, #[trigger] dictionary_words()[k]),
        decreases 9 - i,
    {
        let w = chars_of(words[i]);
        assert(w@ == dictionary_words()[i as int]);
        if contains_chars(&hay, &w) {
            return true;
        }
        i = i + 1;
    }
    false
}

/// Whether the lowercased text holds at least one dictionary word.
pub fn validate_by_dictionary(converted_text: &str) -> (r: bool)
    ensures
        r == exists|i: int| 0 <= i < dictionary_words().len() && contains_seq(lower_of(converted_text@), #[trigger] dictionary_words()[i]),
{
    let lower = lowercase(converted_text);
    dictionary_match(lower.as_str())
}

} // verus!
