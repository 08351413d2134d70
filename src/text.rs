//! Character-level helpers: substring search and file-name sanitisation.
use vstd::prelude::*;

verus! {

/// The characters of `s`, in order.
pub fn chars_of(s: &str) -> (r: Vec<char>)
    ensures
        r@ == s@,
{
    broadcast use vstd::string::axiom_spec_iter;
    let mut out: Vec<char> = Vec::new();
    for c in it: s.chars()
        invariant
            out@ == it.seq().take(it.index() as int),
            it.seq() == s@,
    {
        out.push(c);
        assert(out@ =~= it.seq().take(it.index() + 1));
    }
    assert(out@ =~= s@);
    out
}

/// Relies on `String: FromIterator<&char>`: the string made of the characters of `c`, in order.
#[verifier::external_body]
pub(crate) fn string_of(c: &Vec<char>) -> (r: String)
    ensures
        r@ == c@,
{
    c.iter().collect()
}

/// `p` occurs in `s` starting at index `i`.
pub open spec fn occurs_at(s: Seq<char>, p: Seq<char>, i: int) -> bool {
    0 <= i && i + p.len() <= s.len() && s.subrange(i, i + p.len()) == p
}

/// `p` occurs somewhere in `s`.
pub open spec fn seq_contains(s: Seq<char>, p: Seq<char>) -> bool {
    exists|i: int| occurs_at(s, p, i)
}

fn matches_at(s: &Vec<char>, p: &Vec<char>, i: usize) -> (r: bool)
    requires
        i + p.len() <= s.len(),
    ensures
        r == occurs_at(s@, p@, i as int),
{
    let mut k: usize = 0;
    while k < p.len()
        invariant
            k <= p.len(),
            i + p.len() <= s.len(),
            forall|j: int| 0 <= j < k ==> s@[i + j] == p@[j],
        decreases p.len() - k,
    {
        if s[i + k] != p[k] {
            assert(s@.subrange(i as int, i + p.len())[k as int] != p@[k as int]);
            return false;
        }
        k = k + 1;
    }
    assert(s@.subrange(i as int, i + p.len()) =~= p@);
    true
}

/// Whether `p` occurs in `s` as a run of consecutive characters.
pub fn contains_chars(s: &Vec<char>, p: &Vec<char>) -> (r: bool)
    ensures
        r == seq_contains(s@, p@),
{
    if p.len() > s.len() {
        return false;
    }
    let last: usize = s.len() - p.len();
    let mut i: usize = 0;
    loop
        invariant
            last == s.len() - p.len(),
            p.len() <= s.len(),
            i <= last,
            forall|j: int| 0 <= j < i ==> !occurs_at(s@, p@, j),
        decreases last - i,
    {
        if matches_at(s, p, i) {
            return true;
        }
        if i == last {
            return false;
        }
        i = i + 1;
    }
}

/// Whether the text `s` holds the text `p`.
pub fn contains_text(s: &str, p: &str) -> (r: bool)
    ensures
        r == seq_contains(s@, p@),
{
    let sc = chars_of(s);
    let pc = chars_of(p);
    contains_chars(&sc, &pc)
}

/// The Unicode White_Space characters, which a file name must not keep as they are.
pub open spec fn is_space(c: char) -> bool {
    ('\u{9}' <= c && c <= '\u{D}') || c == '\u{20}' || c == '\u{85}' || c == '\u{A0}' || c
        == '\u{1680}' || ('\u{2000}' <= c && c <= '\u{200A}') || c == '\u{2028}' || c == '\u{2029}'
        || c == '\u{202F}' || c == '\u{205F}' || c == '\u{3000}'
}

/// Whether `c` is a Unicode White_Space character.
pub fn is_space_char(c: char) -> (r: bool)
    ensures
        r == is_space(c),
{
    ('\u{9}' <= c && c <= '\u{D}') || c == '\u{20}' || c == '\u{85}' || c == '\u{A0}' || c
        == '\u{1680}' || ('\u{2000}' <= c && c <= '\u{200A}') || c == '\u{2028}' || c == '\u{2029}'
        || c == '\u{202F}' || c == '\u{205F}' || c == '\u{3000}'
}

/// Index of the first non-blank character at or after `i` (or the length).
pub open spec fn lead_from(s: Seq<char>, i: int) -> int
    decreases s.len() - i,
{
    if 0 <= i < s.len() && is_space(s[i]) {
        lead_from(s, i + 1)
    } else {
        i
    }
}

/// End of `s` once the blanks before `j` and after `lo` are cut off.
pub open spec fn trail_from(s: Seq<char>, lo: int, j: int) -> int
    decreases j - lo,
{
    if lo < j && j <= s.len() && is_space(s[j - 1]) {
        trail_from(s, lo, j - 1)
    } else {
        j
    }
}

/// `s` without its leading and trailing blanks.
pub open spec fn trimmed(s: Seq<char>) -> Seq<char> {
    let lo = lead_from(s, 0);
    s.subrange(lo, trail_from(s, lo, s.len() as int))
}

/// What one character becomes in a file name: colons vanish, blanks become `_`.
pub open spec fn clean_char(c: char) -> Seq<char> {
    if c == ':' {
        Seq::empty()
    } else if is_space(c) {
        seq!['_']
    } else {
        seq![c]
    }
}

/// Every character of `s` put through [`clean_char`].
pub open spec fn cleaned(s: Seq<char>) -> Seq<char>
    decreases s.len(),
{
    if s.len() == 0 {
        s
    } else {
        cleaned(s.drop_last()) + clean_char(s.last())
    }
}

/// The file-name form of `s`: trimmed, colons removed, blanks turned into `_`.
pub open spec fn sanitized(s: Seq<char>) -> Seq<char> {
    cleaned(trimmed(s))
}

/// No character of `s` is a blank or a colon.
pub open spec fn is_clean(s: Seq<char>) -> bool {
    forall|i: int| 0 <= i < s.len() ==> !is_space(#[trigger] s[i]) && s[i] != ':'
}

proof fn lemma_lead_bounds(s: Seq<char>, i: int)
    requires
        0 <= i <= s.len(),
    ensures
        i <= lead_from(s, i) <= s.len(),
        lead_from(s, i) < s.len() ==> !is_space(s[lead_from(s, i)]),
    decreases s.len() - i,
{
    if i < s.len() && is_space(s[i]) {
        lemma_lead_bounds(s, i + 1);
    }
}

proof fn lemma_trail_bounds(s: Seq<char>, lo: int, j: int)
    requires
        0 <= lo <= j <= s.len(),
    ensures
        lo <= trail_from(s, lo, j) <= j,
    decreases j - lo,
{
    if lo < j && is_space(s[j - 1]) {
        lemma_trail_bounds(s, lo, j - 1);
    }
}

proof fn lemma_cleaned_is_clean(s: Seq<char>)
    ensures
        is_clean(cleaned(s)),
    decreases s.len(),
{
    if s.len() > 0 {
        lemma_cleaned_is_clean(s.drop_last());
        let a = cleaned(s.drop_last());
        let b = clean_char(s.last());
        assert forall|i: int| 0 <= i < (a + b).len() implies !is_space(#[trigger] (a + b)[i])
            && (a + b)[i] != ':' by {
            if i >= a.len() {
                assert((a + b)[i] == b[i - a.len()]);
            } else {
                assert((a + b)[i] == a[i]);
            }
        }
    }
}

proof fn lemma_clean_fixed(s: Seq<char>)
    requires
        is_clean(s),
    ensures
        cleaned(s) == s,
    decreases s.len(),
{
    if s.len() > 0 {
        let d = s.drop_last();
        assert(is_clean(d)) by {
            assert forall|i: int| 0 <= i < d.len() implies !is_space(#[trigger] d[i]) && d[i]
                != ':' by {
                assert(d[i] == s[i]);
            }
        }
        lemma_clean_fixed(d);
        assert(!is_space(s[s.len() - 1]) && s[s.len() - 1] != ':');
        assert(d + seq![s.last()] =~= s);
    }
}

proof fn lemma_trim_clean(s: Seq<char>)
    requires
        is_clean(s),
    ensures
        trimmed(s) == s,
{
    if s.len() > 0 {
        assert(!is_space(s[0]));
        assert(!is_space(s[s.len() - 1]));
    }
    assert(lead_from(s, 0) == 0);
    assert(trail_from(s, 0, s.len() as int) == s.len());
    assert(s.subrange(0, s.len() as int) =~= s);
}

/// Sanitising a name that is already sanitised leaves it unchanged.
pub proof fn lemma_sanitize_idempotent(s: Seq<char>)
    ensures
        sanitized(sanitized(s)) == sanitized(s),
{
    let t = sanitized(s);
    lemma_cleaned_is_clean(trimmed(s));
    lemma_trim_clean(t);
    lemma_clean_fixed(t);
}

/// The file-name form of `name`: leading and trailing blanks cut off, colons
/// removed, every other blank replaced by `_`.
pub fn sanitize_chars(name: &Vec<char>) -> (r: Vec<char>)
    ensures
        r@ == sanitized(name@),
{
    let n: usize = name.len();
    let mut lo: usize = 0;
    while lo < n && is_space_char(name[lo])
        invariant
            n == name@.len(),
            lo <= n,
            lead_from(name@, lo as int) == lead_from(name@, 0),
        decreases n - lo,
    {
        lo = lo + 1;
    }
    proof {
        lemma_lead_bounds(name@, 0);
    }
    let mut hi: usize = n;
    while hi > lo && is_space_char(name[hi - 1])
        invariant
            n == name@.len(),
            lo <= hi <= n,
            lo == lead_from(name@, 0),
            trail_from(name@, lo as int, hi as int) == trail_from(name@, lo as int, n as int),
        decreases hi - lo,
    {
        hi = hi - 1;
    }
    let ghost src = name@.subrange(lo as int, hi as int);
    assert(src == trimmed(name@));
    let mut out: Vec<char> = Vec::new();
    let mut i: usize = lo;
    while i < hi
        invariant
            lo <= i <= hi <= n,
            n == name@.len(),
            out@ == cleaned(name@.subrange(lo as int, i as int)),
        decreases hi - i,
    {
        let c = name[i];
        proof {
            let next = name@.subrange(lo as int, i + 1);
            assert(next.drop_last() =~= name@.subrange(lo as int, i as int));
            assert(next.last() == c);
        }
        if c == ':' {
        } else if is_space_char(c) {
            out.push('_');
        } else {
            out.push(c);
        }
        proof {
            let next = name@.subrange(lo as int, i + 1);
            assert(out@ =~= cleaned(next));
        }
        i = i + 1;
    }
    out
}

/// The file-name form of `name` (see [`sanitize_chars`]).
pub fn sanitize_name(name: &str) -> (r: String)
    ensures
        r@ == sanitized(name@),
{
    let c = chars_of(name);
    let s = sanitize_chars(&c);
    string_of(&s)
}

/// `s` without the trailing `suffix`, where it ends with it.
pub open spec fn without_suffix(s: Seq<char>, suffix: Seq<char>) -> Seq<char> {
    if suffix.len() <= s.len() && s.skip(s.len() - suffix.len()) == suffix {
        s.take(s.len() - suffix.len())
    } else {
        s
    }
}

/// `c` without the trailing `suffix`, where it ends with it.
pub fn strip_suffix_chars(c: &Vec<char>, x: &Vec<char>) -> (r: Vec<char>)
    ensures
        r@ == without_suffix(c@, x@),
{
    if x.len() > c.len() {
        return c.clone();
    }
    let start: usize = c.len() - x.len();
    let keep: usize = if matches_at(c, x, start) { start } else { c.len() };
    assert(c@.subrange(start as int, start + x.len()) =~= c@.skip(start as int));
    let mut out: Vec<char> = Vec::new();
    let mut i: usize = 0;
    while i < keep
        invariant
            i <= keep <= c.len(),
            out@ == c@.take(i as int),
        decreases keep - i,
    {
        out.push(c[i]);
        assert(out@ =~= c@.take(i + 1));
        i = i + 1;
    }
    assert(c@.take(c.len() as int) =~= c@);
    out
}

/// `s` without the trailing `suffix`, where it ends with it (a page title
/// without the site's name).
pub fn strip_title_suffix(s: &str, suffix: &str) -> (r: String)
    ensures
        r@ == without_suffix(s@, suffix@),
{
    let c = chars_of(s);
    let x = chars_of(suffix);
    let out = strip_suffix_chars(&c, &x);
    string_of(&out)
}

/// The name of the staged manifest of an episode: its sanitised title with `.m3u8`.
pub fn staged_file_name(title: &str) -> (r: String)
    ensures
        r@ == sanitized(title@) + seq!['.', 'm', '3', 'u', '8'],
{
    let c = chars_of(title);
    let mut s = sanitize_chars(&c);
    let mut ext: Vec<char> = vec!['.', 'm', '3', 'u', '8'];
    s.append(&mut ext);
    string_of(&s)
}

} // verus!
