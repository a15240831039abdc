use vstd::prelude::*;

use crate::text::{
    chars_of, contains_chars, contains_seq, lower_of, lowercase, same_text, string_of, trim_chars,
    trimmed,
};

verus! {

/// What `strsim::jaro_winkler` returns for two strings, as the bit pattern
/// of the `f64`.
pub uninterp spec fn jaro_winkler_bits(a: Seq<char>, b: Seq<char>) -> u64;

/// Relies on `strsim::jaro_winkler`: a similarity in [0, 1] that depends on
/// the two strings alone. It is handed over as its IEEE-754 bit pattern,
/// which orders as the similarity does for such values.
#[verifier::external_body]
fn similarity(a: &str, b: &str) -> (r: u64)
    ensures
        r == jaro_winkler_bits(a@, b@),
{
    strsim::jaro_winkler(a, b).to_bits()
}

/// What `deunicode::deunicode` makes of a string.
pub uninterp spec fn ascii_folded(s: Seq<char>) -> Seq<char>;

/// Relies on `deunicode::deunicode`: an ASCII transliteration that depends
/// on the string alone.
#[verifier::external_body]
fn fold_to_ascii(s: &str) -> (r: String)
    ensures
        r@ == ascii_folded(s@),
        forall|i: int| 0 <= i < r@.len() ==> (r@[i] as u32) < 128,
{
    deunicode::deunicode(s)
}

/// Whether `char::is_alphanumeric` holds of a character.
pub uninterp spec fn alphanumeric(c: char) -> bool;

/// Relies on `char::is_alphanumeric`: Unicode `Alphabetic` or `Numeric`;
/// the ASCII space is neither.
#[verifier::external_body]
fn is_alphanumeric(c: char) -> (r: bool)
    ensures
        r == alphanumeric(c),
        c == ' ' ==> !r,
{
    c.is_alphanumeric()
}

/// Similarity above which a term matches a known variant: 0.82 as an
/// IEEE-754 bit pattern.
pub const FUZZY_THRESHOLD_BITS: u64 = 4605561122934164029;

/// The variant a fuzzy match picks from the similarity scores, in order: the
/// first of the highest scores, if it is above the threshold.
pub open spec fn fuzzy_pick(scores: Seq<u64>) -> Option<int>
    decreases scores.len(),
{
    if scores.len() == 0 {
        None
    } else {
        let earlier = fuzzy_pick(scores.drop_last());
        let best = match earlier {
            Some(i) => scores[i],
            None => FUZZY_THRESHOLD_BITS,
        };
        if scores.last() > best {
            Some(scores.len() - 1)
        } else {
            earlier
        }
    }
}

proof fn lemma_fuzzy_pick_bounds(scores: Seq<u64>)
    ensures
        match fuzzy_pick(scores) {
            Some(i) => 0 <= i < scores.len(),
            None => true,
        },
    decreases scores.len(),
{
    if scores.len() > 0 {
        lemma_fuzzy_pick_bounds(scores.drop_last());
    }
}

/// The first of the highest scores above the threshold, by position.
pub fn best_match(scores: &Vec<u64>) -> (r: Option<usize>)
    ensures
        match r {
            Some(i) => fuzzy_pick(scores@) == Some(i as int),
            None => fuzzy_pick(scores@).is_none(),
        },
{
    let mut best: u64 = FUZZY_THRESHOLD_BITS;
    let mut pick: Option<usize> = None;
    let mut i: usize = 0;
    while i < scores.len()
        invariant
            i <= scores@.len(),
            match pick {
                Some(p) => fuzzy_pick(scores@.subrange(0, i as int)) == Some(p as int) && p < i && best
                    == scores@[p as int],
                None => fuzzy_pick(scores@.subrange(0, i as int)).is_none() && best == FUZZY_THRESHOLD_BITS,
            },
        decreases scores@.len() - i,
    {
        let ghost pre = scores@.subrange(0, i + 1);
        assert(pre.drop_last() =~= scores@.subrange(0, i as int));
        proof {
            match pick {
                Some(p) => {
                    assert(pre[p as int] == scores@[p as int]);
                },
                None => {},
            }
        }
        if scores[i] > best {
            best = scores[i];
            pick = Some(i);
        }
        i = i + 1;
    }
    assert(scores@.subrange(0, i as int) =~= scores@);
    pick
}

/// A description with its standard term and the term's category.
#[derive(Debug, Clone)]
pub struct NormalizedTerm {
    pub original: String,
    pub standardized: String,
    pub category: String,
}

/// Maps accounting and construction terms, as typed, to standard terms and
/// their categories.
pub struct TerminologyNormalizer {
    /// Variant, standard term; variants are unique.
    term_mapping: Vec<(String, String)>,
    /// Standard term, category; terms are unique.
    category_mapping: Vec<(String, String)>,
}

/// The text view of a table of string pairs.
pub open spec fn view_pairs(m: Seq<(String, String)>) -> Seq<(Seq<char>, Seq<char>)> {
    Seq::new(m.len(), |i: int| (m[i].0@, m[i].1@))
}

/// Index of the entry whose first component is `k`, if any.
pub open spec fn lookup(m: Seq<(Seq<char>, Seq<char>)>, k: Seq<char>) -> Option<int> {
    if exists|i: int| 0 <= i < m.len() && (#[trigger] m[i]).0 == k {
        Some(choose|i: int| 0 <= i < m.len() && (#[trigger] m[i]).0 == k)
    } else {
        None
    }
}

pub open spec fn unique_keys(m: Seq<(Seq<char>, Seq<char>)>) -> bool {
    forall|i: int, j: int| 0 <= i < j < m.len() ==> (#[trigger] m[i]).0 != (#[trigger] m[j]).0
}

/// The standard term for `term`, given the similarity of `term` to each
/// variant in order: an exact variant's term, else the fuzzy pick's term,
/// else `term` itself.
pub open spec fn standardized_of(m: Seq<(Seq<char>, Seq<char>)>, term: Seq<char>, scores: Seq<u64>) -> Seq<char> {
    match lookup(m, term) {
        Some(i) => m[i].1,
        None => match fuzzy_pick(scores) {
            Some(j) => m[j].1,
            None => term,
        },
    }
}

/// The similarity of `term` to each variant of `m`, in order.
pub open spec fn scores_of(m: Seq<(Seq<char>, Seq<char>)>, term: Seq<char>) -> Seq<u64> {
    Seq::new(m.len(), |i: int| jaro_winkler_bits(term, m[i].0))
}

/// The category of a standard term, "khác" (other) when it has none.
pub open spec fn category_of(c: Seq<(Seq<char>, Seq<char>)>, term: Seq<char>) -> Seq<char> {
    match lookup(c, term) {
        Some(i) => c[i].1,
        None => "khác"@,
    }
}

/// The built-in variants and their standard terms, in lookup order.
pub open spec fn vocabulary() -> Seq<(Seq<char>, Seq<char>)> {
    seq![
        ("cp nvl"@, "chi phí nguyên vật liệu"@),
        ("cp nguyên vật liệu"@, "chi phí nguyên vật liệu"@),
        ("nguyen vat lieu"@, "chi phí nguyên vật liệu"@),
        ("vật tư"@, "chi phí nguyên vật liệu"@),
        ("cp nhân công"@, "chi phí nhân công"@),
        ("cp nhan cong"@, "chi phí nhân công"@),
        ("tiền công"@, "chi phí nhân công"@),
        ("tiền lương"@, "chi phí nhân công"@),
        ("nhân công xây dựng"@, "chi phí nhân công"@),
        ("vc"@, "vận chuyển"@),
        ("cước vận chuyển"@, "vận chuyển"@),
        ("phí vận chuyển"@, "vận chuyển"@),
    ]
}

/// The built-in standard terms and their categories.
pub open spec fn category_table() -> Seq<(Seq<char>, Seq<char>)> {
    seq![
        ("chi phí nguyên vật liệu"@, "vật tư"@),
        ("chi phí nhân công"@, "nhân công"@),
        ("vận chuyển"@, "logistics"@),
    ]
}

/// How a description is cleaned before lookup: lowercased, then trimmed.
pub open spec fn cleaned_term(description: Seq<char>) -> Seq<char> {
    trimmed(lower_of(description))
}

fn pair(a: &str, b: &str) -> (r: (String, String))
    ensures
        r.0@ == a@,
        r.1@ == b@,
{
    (String::from_str(a), String::from_str(b))
}

fn find_key(m: &Vec<(String, String)>, k: &str) -> (r: Option<usize>)
    requires
        unique_keys(view_pairs(m@)),
    ensures
        match r {
            Some(i) => lookup(view_pairs(m@), k@) == Some(i as int) && i < m@.len(),
            None => lookup(view_pairs(m@), k@).is_none(),
        },
{
    let ghost v = view_pairs(m@);
    let mut i: usize = 0;
    while i < m.len()
        invariant
            i <= m@.len(),
            v == view_pairs(m@),
            unique_keys(v),
            forall|j: int| 0 <= j < i ==> (#[trigger] v[j]).0 != k@,
        decreases m@.len() - i,
    {
        if same_text(m[i].0.as_str(), k) {
            proof {
                assert(v[i as int].0 == k@);
                let c = choose|c: int| 0 <= c < v.len() && (#[trigger] v[c]).0 == k@;
                if c != i as int {
                    if c < i as int {
                        assert(v[c].0 != v[i as int].0);
                    } else {
                        assert(v[i as int].0 != v[c].0);
                    }
                }
            }
            return Some(i);
        }
        proof {
            assert(v[i as int].0 == m@[i as int].0@);
        }
        i = i + 1;
    }
    None
}

impl TerminologyNormalizer {
    /// Variants and their standard terms, in lookup order.
    pub closed spec fn spec_terms(&self) -> Seq<(Seq<char>, Seq<char>)> {
        view_pairs(self.term_mapping@)
    }

    /// Standard terms and their categories.
    pub closed spec fn spec_categories(&self) -> Seq<(Seq<char>, Seq<char>)> {
        view_pairs(self.category_mapping@)
    }

    pub closed spec fn wf(&self) -> bool {
        unique_keys(view_pairs(self.term_mapping@)) && unique_keys(view_pairs(self.category_mapping@))
    }

    /// The built-in vocabulary: material, labour and transport costs.
    pub fn new() -> (r: TerminologyNormalizer)
        ensures
            r.wf(),
            r.spec_terms() == vocabulary(),
            r.spec_categories() == category_table(),
    {
        let mut t: Vec<(String, String)> = Vec::new();
        t.push(pair("cp nvl", "chi phí nguyên vật liệu"));
        t.push(pair("cp nguyên vật liệu", "chi phí nguyên vật liệu"));
        t.push(pair("nguyen vat lieu", "chi phí nguyên vật liệu"));
        t.push(pair("vật tư", "chi phí nguyên vật liệu"));
        t.push(pair("cp nhân công", "chi phí nhân công"));
        t.push(pair("cp nhan cong", "chi phí nhân công"));
        t.push(pair("tiền công", "chi phí nhân công"));
        t.push(pair("tiền lương", "chi phí nhân công"));
        t.push(pair("nhân công xây dựng", "chi phí nhân công"));
        t.push(pair("vc", "vận chuyển"));
        t.push(pair("cước vận chuyển", "vận chuyển"));
        t.push(pair("phí vận chuyển", "vận chuyển"));
        let mut c: Vec<(String, String)> = Vec::new();
        c.push(pair("chi phí nguyên vật liệu", "vật tư"));
        c.push(pair("chi phí nhân công", "nhân công"));
        c.push(pair("vận chuyển", "logistics"));
        proof {
            reveal_strlit("cp nvl");
            reveal_strlit("cp nguyên vật liệu");
            reveal_strlit("nguyen vat lieu");
            reveal_strlit("vật tư");
            reveal_strlit("cp nhân công");
            reveal_strlit("cp nhan cong");
            reveal_strlit("tiền công");
            reveal_strlit("tiền lương");
            reveal_strlit("nhân công xây dựng");
            reveal_strlit("vc");
            reveal_strlit("cước vận chuyển");
            reveal_strlit("phí vận chuyển");
            reveal_strlit("chi phí nguyên vật liệu");
            reveal_strlit("chi phí nhân công");
            reveal_strlit("vận chuyển");
            let m = view_pairs(t@);
            assert(m =~= vocabulary());
            assert forall|i: int, j: int| 0 <= i < j < m.len() implies (#[trigger] m[i]).0 != (#[trigger] m[j]).0 by {
                if m[i].0.len() == m[j].0.len() {
                    assert(m[i].0[0] != m[j].0[0] || m[i].0[5] != m[j].0[5]);
                }
            }
            let n = view_pairs(c@);
            assert(n =~= category_table());
            assert forall|i: int, j: int| 0 <= i < j < n.len() implies (#[trigger] n[i]).0 != (#[trigger] n[j]).0 by {
                assert(n[i].0.len() != n[j].0.len());
            }
        }
        TerminologyNormalizer { term_mapping: t, category_mapping: c }
    }

    /// The standard term for `term` given its similarity to each variant, in
    /// variant order (as `similarity` reports it).
    pub fn standardize_scored(&self, term: &str, scores: &Vec<u64>) -> (r: String)
        requires
            self.wf(),
            scores@.len() == self.spec_terms().len(),
        ensures
            r@ == standardized_of(self.spec_terms(), term@, scores@),
    {
        match find_key(&self.term_mapping, term) {
            Some(i) => self.term_mapping[i].1.clone(),
            None => {
                proof {
                    lemma_fuzzy_pick_bounds(scores@);
                }
                match best_match(scores) {
                    Some(j) => self.term_mapping[j].1.clone(),
                    None => string_of(&chars_of(term)),
                }
            },
        }
    }

    /// The standard term for an already cleaned `term`.
    fn standardize_term(&self, term: &str) -> (r: String)
        requires
            self.wf(),
        ensures
            r@ == standardized_of(self.spec_terms(), term@, scores_of(self.spec_terms(), term@)),
    {
        let mut scores: Vec<u64> = Vec::new();
        let mut i: usize = 0;
        while i < self.term_mapping.len()
            invariant
                i <= self.term_mapping@.len(),
                scores@ == scores_of(view_pairs(self.term_mapping@), term@).subrange(0, i as int),
            decreases self.term_mapping@.len() - i,
        {
            let s = similarity(term, self.term_mapping[i].0.as_str());
            scores.push(s);
            i = i + 1;
            assert(scores@ =~= scores_of(view_pairs(self.term_mapping@), term@).subrange(0, i as int));
        }
        assert(scores@ =~= scores_of(view_pairs(self.term_mapping@), term@));
        self.standardize_scored(term, &scores)
    }

    /// The category of a standard term.
    pub fn categorize(&self, standardized_term: &str) -> (r: String)
        requires
            self.wf(),
        ensures
            r@ == category_of(self.spec_categories(), standardized_term@),
    {
        match find_key(&self.category_mapping, standardized_term) {
            Some(i) => self.category_mapping[i].1.clone(),
            None => String::from_str("khác"),
        }
    }

    /// `text` lowercased and trimmed.
    pub fn clean_text(&self, text: &str) -> (r: String)
        ensures
            r@ == cleaned_term(text@),
    {
        let lower = lowercase(text);
        let cs = chars_of(lower.as_str());
        string_of(&trim_chars(&cs))
    }

    /// Normalizes one description: cleans it, maps it to its standard term
    /// (exact variant, else fuzzy match above 0.82, else itself), and
    /// categorizes the result.
    pub fn normalize(&self, description: &str) -> (r: NormalizedTerm)
        requires
            self.wf(),
        ensures
            r.original@ == description@,
            r.standardized@ == standardized_of(
                self.spec_terms(),
                cleaned_term(description@),
                scores_of(self.spec_terms(), cleaned_term(description@)),
            ),
            r.category@ == category_of(self.spec_categories(), r.standardized@),
    {
        let cleaned = self.clean_text(description);
        let standardized = self.standardize_term(cleaned.as_str());
        let category = self.categorize(standardized.as_str());
        NormalizedTerm { original: string_of(&chars_of(description)), standardized, category }
    }
}

/// Normalizes each description with the built-in vocabulary, in order.
pub fn cmd_normalize_descriptions(descriptions: Vec<String>) -> (r: Result<Vec<NormalizedTerm>, String>)
    ensures
        r matches Ok(v) && v@.len() == descriptions@.len() && forall|i: int|
            0 <= i < v@.len() ==> (#[trigger] v@[i]).original@ == descriptions@[i]@
                && v@[i].standardized@ == standardized_of(
                vocabulary(),
                cleaned_term(descriptions@[i]@),
                scores_of(vocabulary(), cleaned_term(descriptions@[i]@)),
            ) && v@[i].category@ == category_of(category_table(), v@[i].standardized@),
{
    let normalizer = TerminologyNormalizer::new();
    let mut out: Vec<NormalizedTerm> = Vec::new();
    let mut i: usize = 0;
    while i < descriptions.len()
        invariant
            normalizer.wf(),
            normalizer.spec_terms() == vocabulary(),
            normalizer.spec_categories() == category_table(),
            i <= descriptions@.len(),
            out@.len() == i,
            forall|k: int|
                0 <= k < i ==> (#[trigger] out@[k]).original@ == descriptions@[k]@
                    && out@[k].standardized@ == standardized_of(
                    vocabulary(),
                    cleaned_term(descriptions@[k]@),
                    scores_of(vocabulary(), cleaned_term(descriptions@[k]@)),
                ) && out@[k].category@ == category_of(category_table(), out@[k].standardized@),
        decreases descriptions@.len() - i,
    {
        out.push(normalizer.normalize(descriptions[i].as_str()));
        i = i + 1;
    }
    Ok(out)
}

/// What a spreadsheet column holds.
#[derive(Debug, Clone, Copy, PartialEq, Eq, Structural)]
pub enum ColumnType {
    Amount,
    Calculated,
    Measured,
    Status,
    Other,
}

/// A column header with its system key and kind.
#[derive(Debug, Clone)]
pub struct ColumnNormalizationResult {
    pub original_name: String,
    pub normalized_name: String,
    pub column_type: ColumnType,
}

/// Characters joined into snake case: runs of spaces between words become
/// one underscore, leading and trailing spaces vanish.
pub open spec fn snake(s: Seq<char>) -> Seq<char>
    decreases s.len(),
{
    if s.len() == 0 {
        Seq::empty()
    } else {
        let prev = snake(s.drop_last());
        let c = s.last();
        if c == ' ' {
            prev
        } else if prev.len() > 0 && s.drop_last().last() == ' ' {
            prev.push('_').push(c)
        } else {
            prev.push(c)
        }
    }
}

/// Every character that is not alphanumeric becomes a space.
pub open spec fn blank_symbols(s: Seq<char>) -> Seq<char> {
    Seq::new(s.len(), |i: int| if alphanumeric(s[i]) { s[i] } else { ' ' })
}

/// The system key of a column header: transliterated to ASCII, lowercased,
/// symbols blanked, words joined by underscores.
pub open spec fn system_key_of(name: Seq<char>) -> Seq<char> {
    snake(blank_symbols(lower_of(ascii_folded(name))))
}

/// The normalized name and kind for a system key; the first rule that
/// matches wins.
pub open spec fn classify_key(k: Seq<char>) -> (Seq<char>, ColumnType) {
    if contains_seq(k, "thanh_tien"@) || contains_seq(k, "tong_cong"@) || contains_seq(k, "thanh_toan"@) {
        ("thanh_tien"@, ColumnType::Amount)
    } else if contains_seq(k, "don_gia"@) || (contains_seq(k, "gia"@) && contains_seq(k, "don"@)) {
        ("don_gia"@, ColumnType::Amount)
    } else if contains_seq(k, "tinh_toan"@) || contains_seq(k, "kltt"@) || contains_seq(k, "du_toan"@) {
        ("khoi_luong_tinh_toan"@, ColumnType::Calculated)
    } else if contains_seq(k, "thuc_te"@) || contains_seq(k, "do_luong"@) {
        ("khoi_luong_thuc_te"@, ColumnType::Measured)
    } else if contains_seq(k, "trang_thai"@) || contains_seq(k, "status"@) {
        ("trang_thai"@, ColumnType::Status)
    } else if contains_seq(k, "hang_muc"@) || contains_seq(k, "dien_giai"@) || contains_seq(k, "mo_ta"@) {
        ("hang_muc"@, ColumnType::Other)
    } else if contains_seq(k, "khoi_luong"@) || contains_seq(k, "so_luong"@) {
        ("khoi_luong"@, ColumnType::Other)
    } else if contains_seq(k, "don_vi"@) || k == "dvt"@ {
        ("don_vi"@, ColumnType::Other)
    } else if k == "stt"@ || k == "tt"@ || contains_seq(k, "so_thu_tu"@) {
        ("stt"@, ColumnType::Other)
    } else if contains_seq(k, "ghi_chu"@) {
        ("ghi_chu"@, ColumnType::Other)
    } else {
        (k, ColumnType::Other)
    }
}

fn has(k: &Vec<char>, p: &str) -> (r: bool)
    ensures
        r == contains_seq(k@, p@),
{
    contains_chars(k, &chars_of(p))
}

fn is_exactly(k: &Vec<char>, p: &str) -> (r: bool)
    ensures
        r == (k@ == p@),
{
    same_text(string_of(k).as_str(), p)
}

impl TerminologyNormalizer {
    /// Forces a column header into the system's ASCII snake case and
    /// classifies it.
    pub fn normalize_column_name(&self, column_name: &str) -> (r: ColumnNormalizationResult)
        ensures
            r.original_name@ == column_name@,
            r.normalized_name@ == classify_key(system_key_of(column_name@)).0,
            r.column_type == classify_key(system_key_of(column_name@)).1,
    {
        let folded = fold_to_ascii(column_name);
        let lower = lowercase(folded.as_str());
        self.column_from_lowered(column_name, lower.as_str())
    }

    /// Classifies the header `column_name` from its transliterated, lowercased
    /// form `lowered`: symbols blanked, words joined by underscores, then the
    /// first matching rule.
    pub fn column_from_lowered(&self, column_name: &str, lowered: &str) -> (r: ColumnNormalizationResult)
        ensures
            r.original_name@ == column_name@,
            r.normalized_name@ == classify_key(snake(blank_symbols(lowered@))).0,
            r.column_type == classify_key(snake(blank_symbols(lowered@))).1,
    {
        let cs = chars_of(lowered);
        let mut blanked: Vec<char> = Vec::new();
        let mut i: usize = 0;
        while i < cs.len()
            invariant
                i <= cs@.len(),
                blanked@ == blank_symbols(cs@).subrange(0, i as int),
            decreases cs@.len() - i,
        {
            let c = cs[i];
            if is_alphanumeric(c) {
                blanked.push(c);
            } else {
                blanked.push(' ');
            }
            i = i + 1;
            assert(blanked@ =~= blank_symbols(cs@).subrange(0, i as int));
        }
        assert(blanked@ =~= blank_symbols(cs@));
        let mut key: Vec<char> = Vec::new();
        let mut j: usize = 0;
        while j < blanked.len()
            invariant
                j <= blanked@.len(),
                key@ == snake(blanked@.subrange(0, j as int)),
            decreases blanked@.len() - j,
        {
            let ghost pre = blanked@.subrange(0, j + 1);
            assert(pre.drop_last() =~= blanked@.subrange(0, j as int));
            let c = blanked[j];
            if c != ' ' {
                if key.len() > 0 && blanked[j - 1] == ' ' {
                    key.push('_');
                }
                key.push(c);
            } else {
            }
            proof {
                if j > 0 {
                    assert(pre.drop_last().last() == blanked@[j - 1]);
                } else {
                    assert(snake(pre.drop_last()).len() == 0);
                }
            }
            j = j + 1;
        }
        assert(blanked@.subrange(0, j as int) =~= blanked@);
        let (name, kind) = if has(&key, "thanh_tien") || has(&key, "tong_cong") || has(&key, "thanh_toan") {
            ("thanh_tien", ColumnType::Amount)
        } else if has(&key, "don_gia") || (has(&key, "gia") && has(&key, "don")) {
            ("don_gia", ColumnType::Amount)
        } else if has(&key, "tinh_toan") || has(&key, "kltt") || has(&key, "du_toan") {
            ("khoi_luong_tinh_toan", ColumnType::Calculated)
        } else if has(&key, "thuc_te") || has(&key, "do_luong") {
            ("khoi_luong_thuc_te", ColumnType::Measured)
        } else if has(&key, "trang_thai") || has(&key, "status") {
            ("trang_thai", ColumnType::Status)
        } else if has(&key, "hang_muc") || has(&key, "dien_giai") || has(&key, "mo_ta") {
            ("hang_muc", ColumnType::Other)
        } else if has(&key, "khoi_luong") || has(&key, "so_luong") {
            ("khoi_luong", ColumnType::Other)
        } else if has(&key, "don_vi") || is_exactly(&key, "dvt") {
            ("don_vi", ColumnType::Other)
        } else if is_exactly(&key, "stt") || is_exactly(&key, "tt") || has(&key, "so_thu_tu") {
            ("stt", ColumnType::Other)
        } else if has(&key, "ghi_chu") {
            ("ghi_chu", ColumnType::Other)
        } else {
            return ColumnNormalizationResult {
                original_name: string_of(&chars_of(column_name)),
                normalized_name: string_of(&key),
                column_type: ColumnType::Other,
            };
        };
        ColumnNormalizationResult {
            original_name: string_of(&chars_of(column_name)),
            normalized_name: String::from_str(name),
            column_type: kind,
        }
    }
}

/// Normalizes each column header, in order.
pub fn cmd_normalize_columns(column_names: Vec<String>) -> (r: Result<Vec<ColumnNormalizationResult>, String>)
    ensures
        r matches Ok(v) && v@.len() == column_names@.len() && forall|i: int|
            0 <= i < v@.len() ==> (#[trigger] v@[i]).column_type == classify_key(system_key_of(column_names@[i]@)).1
                && v@[i].normalized_name@ == classify_key(system_key_of(column_names@[i]@)).0,
{
    let normalizer = TerminologyNormalizer::new();
    let mut out: Vec<ColumnNormalizationResult> = Vec::new();
    let mut i: usize = 0;
    while i < column_names.len()
        invariant
            i <= column_names@.len(),
            out@.len() == i,
            forall|k: int|
                0 <= k < i ==> (#[trigger] out@[k]).column_type == classify_key(system_key_of(column_names@[k]@)).1
                    && out@[k].normalized_name@ == classify_key(system_key_of(column_names@[k]@)).0,
        decreases column_names@.len() - i,
    {
        out.push(normalizer.normalize_column_name(column_names[i].as_str()));
        i = i + 1;
    }
    Ok(out)
}

} // verus!
