//! Text normalization used when comparing a guess with a stored answer.
use vstd::prelude::*;

verus! {

/// The characters with the Unicode `White_Space` property, which is what
/// `char::is_whitespace` and `str::trim` go by.
pub open spec fn is_white(c: char) -> bool {
    let u = c as u32;
    (0x09 <= u && u <= 0x0d) || u == 0x20 || u == 0x85 || u == 0xa0 || u == 0x1680
        || (0x2000 <= u && u <= 0x200a) || u == 0x2028 || u == 0x2029 || u == 0x202f
        || u == 0x205f || u == 0x3000
}

/// Whether `c` is white space.
pub fn is_white_space(c: char) -> (r: bool)
    ensures
        r == is_white(c),
{
    let u = c as u32;
    (0x09 <= u && u <= 0x0d) || u == 0x20 || u == 0x85 || u == 0xa0 || u == 0x1680
        || (0x2000 <= u && u <= 0x200a) || u == 0x2028 || u == 0x2029 || u == 0x202f
        || u == 0x205f || u == 0x3000
}

/// Index of the first character at or after `i` that is not white space
/// (the length of `s` if there is none).
pub open spec fn solid_start(s: Seq<char>, i: int) -> int
    decreases s.len() - i,
{
    if 0 <= i < s.len() && is_white(s[i]) {
        solid_start(s, i + 1)
    } else {
        i
    }
}

/// One past the last character before `j`, and not before `lo`, that is not
/// white space (`lo` if there is none).
pub open spec fn solid_end(s: Seq<char>, lo: int, j: int) -> int
    decreases j - lo,
{
    if lo < j <= s.len() && is_white(s[j - 1]) {
        solid_end(s, lo, j - 1)
    } else {
        j
    }
}

/// `s` without its leading and trailing white space.
pub open spec fn trimmed(s: Seq<char>) -> Seq<char> {
    let lo = solid_start(s, 0);
    s.subrange(lo, solid_end(s, lo, s.len() as int))
}

/// Neither end of `s` is white space.
pub open spec fn has_solid_ends(s: Seq<char>) -> bool {
    s.len() == 0 || (!is_white(s[0]) && !is_white(s.last()))
}

proof fn lemma_solid_start(s: Seq<char>, i: int)
    requires
        0 <= i <= s.len(),
    ensures
        i <= solid_start(s, i) <= s.len(),
        forall|k: int| i <= k < solid_start(s, i) ==> is_white(#[trigger] s[k]),
        solid_start(s, i) == s.len() || !is_white(s[solid_start(s, i)]),
    decreases s.len() - i,
{
    if i < s.len() && is_white(s[i]) {
        lemma_solid_start(s, i + 1);
    }
}

proof fn lemma_solid_end(s: Seq<char>, lo: int, j: int)
    requires
        0 <= lo <= j <= s.len(),
    ensures
        lo <= solid_end(s, lo, j) <= j,
        forall|k: int| solid_end(s, lo, j) <= k < j ==> is_white(#[trigger] s[k]),
        solid_end(s, lo, j) == lo || !is_white(s[solid_end(s, lo, j) - 1]),
    decreases j - lo,
{
    if lo < j && is_white(s[j - 1]) {
        lemma_solid_end(s, lo, j - 1);
    }
}

/// What trimming removes is white space, and what it keeps has solid ends.
pub proof fn lemma_trimmed(s: Seq<char>)
    ensures
        has_solid_ends(trimmed(s)),
        trimmed(s).len() <= s.len(),
        0 <= solid_start(s, 0) <= solid_end(s, solid_start(s, 0), s.len() as int) <= s.len(),
{
    let lo = solid_start(s, 0);
    lemma_solid_start(s, 0);
    lemma_solid_end(s, lo, s.len() as int);
    let hi = solid_end(s, lo, s.len() as int);
    if hi > lo {
        assert(!is_white(s[lo]));
        assert(trimmed(s)[0] == s[lo]);
    }
}

/// A text whose ends are not white space is its own trimmed form.
pub proof fn lemma_trim_solid(s: Seq<char>)
    requires
        has_solid_ends(s),
    ensures
        trimmed(s) == s,
{
    if s.len() > 0 {
        assert(solid_start(s, 0) == 0);
        assert(solid_end(s, 0, s.len() as int) == s.len());
    } else {
        assert(solid_start(s, 0) == 0);
    }
    assert(trimmed(s) =~= s);
}

/// `s` with its leading and trailing white space removed.
pub fn trim(s: &str) -> (r: String)
    ensures
        r@ == trimmed(s@),
{
    let n = s.unicode_len();
    let mut lo: usize = 0;
    while lo < n && is_white_space(s.get_char(lo))
        invariant
            n == s@.len(),
            lo <= n,
            solid_start(s@, 0) == solid_start(s@, lo as int),
        decreases n - lo,
    {
        lo = lo + 1;
    }
    let mut hi: usize = n;
    while hi > lo && is_white_space(s.get_char(hi - 1))
        invariant
            n == s@.len(),
            lo <= hi <= n,
            solid_end(s@, lo as int, n as int) == solid_end(s@, lo as int, hi as int),
        decreases hi,
    {
        hi = hi - 1;
    }
    String::from_str(s.substring_char(lo, hi))
}

/// Some `(` in `s` is followed, somewhere later, by a `)`.
pub open spec fn has_bracket_pair(s: Seq<char>) -> bool {
    exists|i: int, j: int| #![trigger s[i], s[j]] 0 <= i < j < s.len() && s[i] == '(' && s[j] == ')'
}

/// What removing every parenthesized annotation, with the white space before
/// it, leaves of a text that holds a bracket pair.
pub uninterp spec fn annotations_removed(s: Seq<char>) -> Seq<char>;

/// `s` with its parenthesized annotations removed; a text without a bracket
/// pair holds none and stays as it is.
pub open spec fn stripped(s: Seq<char>) -> Seq<char> {
    if has_bracket_pair(s) {
        annotations_removed(s)
    } else {
        s
    }
}

/// Relies on `regex::Regex::new`, which compiles the fixed pattern
/// `\s*\(.*?\)` (a valid one, so it does not fail), and on
/// `regex::Regex::replace_all` with an empty replacement: every match is
/// removed, and where there is no match the text is returned unchanged. A
/// match needs a `(` with a `)` after it.
#[verifier::external_body]
fn remove_annotations(s: &str) -> (r: String)
    ensures
        has_bracket_pair(s@) ==> r@ == annotations_removed(s@),
        !has_bracket_pair(s@) ==> r@ == s@,
{
    let re = regex::Regex::new(r"\s*\(.*?\)").unwrap();
    re.replace_all(s, "").to_string()
}

/// Every character of `s` is ASCII.
pub open spec fn is_ascii_text(s: Seq<char>) -> bool {
    forall|k: int| 0 <= k < s.len() ==> (#[trigger] s[k] as u32) < 128
}

/// `c` with `A`..`Z` mapped to `a`..`z`.
pub open spec fn ascii_lower_char(c: char) -> char {
    if 'A' <= c && c <= 'Z' {
        ((c as u32 + 32) as u8) as char
    } else {
        c
    }
}

/// What `str::to_lowercase` gives for a text that is not all ASCII.
pub uninterp spec fn lower_of(s: Seq<char>) -> Seq<char>;

/// The lowercase form of `s`.
pub open spec fn lowered(s: Seq<char>) -> Seq<char> {
    if is_ascii_text(s) {
        s.map_values(|c: char| ascii_lower_char(c))
    } else {
        lower_of(s)
    }
}

/// Relies on `str::to_lowercase`: the Unicode lowercase mapping, which on
/// ASCII characters maps `A`..`Z` to `a`..`z` and keeps every other one.
#[verifier::external_body]
fn lowercase(s: &str) -> (r: String)
    ensures
        is_ascii_text(s@) ==> r@ == s@.map_values(|c: char| ascii_lower_char(c)),
        !is_ascii_text(s@) ==> r@ == lower_of(s@),
{
    s.to_lowercase()
}

/// The form in which a guess and an answer are compared: annotations
/// removed, then trimmed, then lowercased.
pub open spec fn normalized(s: Seq<char>) -> Seq<char> {
    lowered(trimmed(stripped(s)))
}

/// The normalized form of `s`.
pub fn normalize(s: &str) -> (r: String)
    ensures
        r@ == normalized(s@),
{
    let a = remove_annotations(s);
    let b = trim(a.as_str());
    lowercase(b.as_str())
}

/// A text that holds no bracket pair, has no white space at either end and
/// is already lowercase is its own normalized form.
pub proof fn lemma_normalized_is_fixed(s: Seq<char>)
    requires
        !has_bracket_pair(s),
        has_solid_ends(s),
        lowered(s) == s,
    ensures
        normalized(s) == s,
{
    lemma_trim_solid(s);
}

proof fn lemma_ascii_lower_char(c: char)
    requires
        (c as u32) < 128,
    ensures
        (ascii_lower_char(c) as u32) < 128,
        ascii_lower_char(ascii_lower_char(c)) == ascii_lower_char(c),
        (ascii_lower_char(c) == '(') == (c == '('),
        (ascii_lower_char(c) == ')') == (c == ')'),
        is_white(ascii_lower_char(c)) == is_white(c),
{
}

/// On ASCII text without a bracket pair, normalizing a second time changes
/// nothing.
pub proof fn lemma_normalize_idempotent(s: Seq<char>)
    requires
        is_ascii_text(s),
        !has_bracket_pair(s),
    ensures
        normalized(normalized(s)) == normalized(s),
{
    lemma_trimmed(s);
    let lo = solid_start(s, 0);
    let t = trimmed(s);
    assert forall|k: int| 0 <= k < t.len() implies t[k] == s[lo + k] by {}
    assert(is_ascii_text(t));
    if has_bracket_pair(t) {
        let (i, j) = choose|i: int, j: int| #![trigger t[i], t[j]]
            0 <= i < j < t.len() && t[i] == '(' && t[j] == ')';
        assert(s[lo + i] == '(' && s[lo + j] == ')');
    }
    let n = t.map_values(|c: char| ascii_lower_char(c));
    assert(normalized(s) == n);
    assert forall|k: int| 0 <= k < n.len() implies n[k] == ascii_lower_char(t[k]) by {
        lemma_ascii_lower_char(t[k]);
    }
    assert forall|k: int| 0 <= k < n.len() implies (#[trigger] n[k] as u32) < 128 by {
        lemma_ascii_lower_char(t[k]);
    }
    if has_bracket_pair(n) {
        let (i, j) = choose|i: int, j: int| #![trigger n[i], n[j]]
            0 <= i < j < n.len() && n[i] == '(' && n[j] == ')';
        lemma_ascii_lower_char(t[i]);
        lemma_ascii_lower_char(t[j]);
        assert(t[i] == '(' && t[j] == ')');
    }
    if n.len() > 0 {
        lemma_ascii_lower_char(t[0]);
        lemma_ascii_lower_char(t[t.len() - 1]);
    }
    lemma_trim_solid(n);
    let m = n.map_values(|c: char| ascii_lower_char(c));
    assert forall|k: int| 0 <= k < n.len() implies m[k] == n[k] by {
        lemma_ascii_lower_char(t[k]);
    }
    assert(m =~= n);
}

} // verus!
