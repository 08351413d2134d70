//! Ordering of downloaded episodes into a play-queue.
use vstd::prelude::*;
use crate::text::{chars_of, sanitize_chars, sanitized, string_of, strip_suffix_chars, without_suffix};

verus! {

/// An ASCII decimal digit.
pub open spec fn is_digit(c: char) -> bool {
    '0' <= c && c <= '9'
}

/// End of the run of digits that starts at `i`.
pub open spec fn run_end(s: Seq<char>, i: int) -> int
    decreases s.len() - i,
{
    if 0 <= i < s.len() && is_digit(s[i]) {
        run_end(s, i + 1)
    } else {
        i
    }
}

/// First index in `i..e` that does not hold a `0` (or `e`).
pub open spec fn skip_zeros(s: Seq<char>, i: int, e: int) -> int
    decreases e - i,
{
    if i < e && 0 <= i < s.len() && s[i] == '0' {
        skip_zeros(s, i + 1, e)
    } else {
        i
    }
}

/// Digit-by-digit comparison of `a[i..i+n]` with `b[j..j+n]`: -1, 0 or 1.
pub open spec fn digits_cmp(a: Seq<char>, i: int, b: Seq<char>, j: int, n: int) -> int
    decreases n,
{
    if n <= 0 {
        0
    } else if a[i] < b[j] {
        -1
    } else if a[i] > b[j] {
        1
    } else {
        digits_cmp(a, i + 1, b, j + 1, n - 1)
    }
}

/// Numeric-aware comparison of `a[i..]` with `b[j..]`: -1, 0 or 1. Runs of
/// digits compare by their value (more significant digits is larger, then
/// digit by digit); other characters compare one by one.
pub open spec fn nat_cmp(a: Seq<char>, i: int, b: Seq<char>, j: int) -> int
    decreases a.len() - i + b.len() - j,
    via nat_cmp_decreases
{
    if i < 0 || j < 0 || (i >= a.len() && j >= b.len()) {
        0
    } else if i >= a.len() {
        -1
    } else if j >= b.len() {
        1
    } else if is_digit(a[i]) && is_digit(b[j]) {
        let ea = run_end(a, i);
        let eb = run_end(b, j);
        let sa = skip_zeros(a, i, ea);
        let sb = skip_zeros(b, j, eb);
        if ea - sa < eb - sb {
            -1
        } else if ea - sa > eb - sb {
            1
        } else {
            let d = digits_cmp(a, sa, b, sb, ea - sa);
            if d != 0 {
                d
            } else {
                nat_cmp(a, ea, b, eb)
            }
        }
    } else if a[i] < b[j] {
        -1
    } else if a[i] > b[j] {
        1
    } else {
        nat_cmp(a, i + 1, b, j + 1)
    }
}

proof fn lemma_run_end(s: Seq<char>, i: int)
    requires
        0 <= i <= s.len(),
    ensures
        i <= run_end(s, i) <= s.len(),
        i < s.len() && is_digit(s[i]) ==> run_end(s, i) > i,
        forall|k: int| i <= k < run_end(s, i) ==> is_digit(#[trigger] s[k]),
        run_end(s, i) < s.len() ==> !is_digit(s[run_end(s, i)]),
    decreases s.len() - i,
{
    if i < s.len() && is_digit(s[i]) {
        lemma_run_end(s, i + 1);
    }
}

proof fn lemma_skip_zeros(s: Seq<char>, i: int, e: int)
    requires
        0 <= i <= e <= s.len(),
    ensures
        i <= skip_zeros(s, i, e) <= e,
    decreases e - i,
{
    if i < e && s[i] == '0' {
        lemma_skip_zeros(s, i + 1, e);
    }
}

#[via_fn]
proof fn nat_cmp_decreases(a: Seq<char>, i: int, b: Seq<char>, j: int) {
    if 0 <= i < a.len() && 0 <= j < b.len() {
        lemma_run_end(a, i);
        lemma_run_end(b, j);
    }
}

proof fn lemma_digits_cmp_antisym(a: Seq<char>, i: int, b: Seq<char>, j: int, n: int)
    ensures
        digits_cmp(a, i, b, j, n) == -digits_cmp(b, j, a, i, n),
        -1 <= digits_cmp(a, i, b, j, n) <= 1,
    decreases n,
{
    if n > 0 {
        lemma_digits_cmp_antisym(a, i + 1, b, j + 1, n - 1);
    }
}

/// Swapping the two sides of the comparison negates it.
pub proof fn lemma_nat_cmp_antisym(a: Seq<char>, i: int, b: Seq<char>, j: int)
    ensures
        nat_cmp(a, i, b, j) == -nat_cmp(b, j, a, i),
        -1 <= nat_cmp(a, i, b, j) <= 1,
    decreases a.len() - i + b.len() - j,
{
    if i < 0 || j < 0 || (i >= a.len() && j >= b.len()) {
    } else if i >= a.len() || j >= b.len() {
    } else if is_digit(a[i]) && is_digit(b[j]) {
        let ea = run_end(a, i);
        let eb = run_end(b, j);
        lemma_run_end(a, i);
        lemma_run_end(b, j);
        let sa = skip_zeros(a, i, ea);
        let sb = skip_zeros(b, j, eb);
        lemma_digits_cmp_antisym(a, sa, b, sb, ea - sa);
        lemma_nat_cmp_antisym(a, ea, b, eb);
    } else {
        lemma_nat_cmp_antisym(a, i + 1, b, j + 1);
    }
}

fn run_end_exec(s: &Vec<char>, i: usize) -> (r: usize)
    requires
        i <= s.len(),
    ensures
        r == run_end(s@, i as int),
{
    let mut k: usize = i;
    while k < s.len() && '0' <= s[k] && s[k] <= '9'
        invariant
            i <= k <= s.len(),
            run_end(s@, k as int) == run_end(s@, i as int),
        decreases s.len() - k,
    {
        k = k + 1;
    }
    k
}

fn skip_zeros_exec(s: &Vec<char>, i: usize, e: usize) -> (r: usize)
    requires
        i <= e <= s.len(),
    ensures
        r == skip_zeros(s@, i as int, e as int),
        i <= r <= e,
{
    let mut k: usize = i;
    while k < e && s[k] == '0'
        invariant
            i <= k <= e <= s.len(),
            skip_zeros(s@, k as int, e as int) == skip_zeros(s@, i as int, e as int),
        decreases e - k,
    {
        k = k + 1;
    }
    k
}

fn digits_cmp_exec(a: &Vec<char>, i: usize, b: &Vec<char>, j: usize, n: usize) -> (r: i8)
    requires
        i + n <= a.len(),
        j + n <= b.len(),
    ensures
        r as int == digits_cmp(a@, i as int, b@, j as int, n as int),
{
    let mut k: usize = 0;
    while k < n
        invariant
            k <= n,
            i + n <= a.len(),
            j + n <= b.len(),
            digits_cmp(a@, i + k, b@, j + k, n - k) == digits_cmp(a@, i as int, b@, j as int, n as int),
        decreases n - k,
    {
        if a[i + k] < b[j + k] {
            return -1;
        } else if a[i + k] > b[j + k] {
            return 1;
        }
        k = k + 1;
    }
    0
}

/// Numeric-aware comparison of `a` with `b`: -1, 0 or 1 (so `ep2` comes before `ep10`).
pub fn natural_cmp(a: &Vec<char>, b: &Vec<char>) -> (r: i8)
    ensures
        r as int == nat_cmp(a@, 0, b@, 0),
{
    let mut i: usize = 0;
    let mut j: usize = 0;
    loop
        invariant
            i <= a.len(),
            j <= b.len(),
            nat_cmp(a@, i as int, b@, j as int) == nat_cmp(a@, 0, b@, 0),
        decreases a.len() - i + b.len() - j,
    {
        if i >= a.len() && j >= b.len() {
            return 0;
        } else if i >= a.len() {
            return -1;
        } else if j >= b.len() {
            return 1;
        }
        let ca = a[i];
        let cb = b[j];
        if '0' <= ca && ca <= '9' && '0' <= cb && cb <= '9' {
            let ea = run_end_exec(a, i);
            let eb = run_end_exec(b, j);
            proof {
                lemma_run_end(a@, i as int);
                lemma_run_end(b@, j as int);
            }
            let sa = skip_zeros_exec(a, i, ea);
            let sb = skip_zeros_exec(b, j, eb);
            if ea - sa < eb - sb {
                return -1;
            } else if ea - sa > eb - sb {
                return 1;
            }
            let d = digits_cmp_exec(a, sa, b, sb, ea - sa);
            if d != 0 {
                return d;
            }
            i = ea;
            j = eb;
        } else if ca < cb {
            return -1;
        } else if ca > cb {
            return 1;
        } else {
            i = i + 1;
            j = j + 1;
        }
    }
}

/// Index just past the last path separator before `k` (0 if there is none).
pub open spec fn name_start(s: Seq<char>, k: int) -> int
    decreases k,
{
    if k <= 0 || k > s.len() {
        0
    } else if s[k - 1] == '/' || s[k - 1] == '\\' {
        k
    } else {
        name_start(s, k - 1)
    }
}

/// Index of the last `.` in `lo+1..k`, or `k0` where there is none.
pub open spec fn ext_dot(s: Seq<char>, lo: int, k: int, k0: int) -> int
    decreases k - lo,
{
    if k <= lo + 1 || k > s.len() {
        k0
    } else if s[k - 1] == '.' {
        k - 1
    } else {
        ext_dot(s, lo, k - 1, k0)
    }
}

/// The file stem of a path: its last component without the extension.
pub open spec fn stem(s: Seq<char>) -> Seq<char> {
    let lo = name_start(s, s.len() as int);
    s.subrange(lo, ext_dot(s, lo, s.len() as int, s.len() as int))
}

proof fn lemma_name_start(s: Seq<char>, k: int)
    requires
        0 <= k <= s.len(),
    ensures
        0 <= name_start(s, k) <= k,
    decreases k,
{
    if k > 0 && !(s[k - 1] == '/' || s[k - 1] == '\\') {
        lemma_name_start(s, k - 1);
    }
}

proof fn lemma_ext_dot(s: Seq<char>, lo: int, k: int, k0: int)
    requires
        0 <= lo <= k <= k0 <= s.len(),
    ensures
        lo <= ext_dot(s, lo, k, k0) <= k0,
    decreases k - lo,
{
    if k > lo + 1 && s[k - 1] != '.' {
        lemma_ext_dot(s, lo, k - 1, k0);
    }
}

/// The file stem of `path`: its last component without the extension.
pub fn stem_chars(path: &str) -> (r: Vec<char>)
    ensures
        r@ == stem(path@),
{
    let s = chars_of(path);
    let n: usize = s.len();
    let mut k: usize = n;
    while k > 0 && s[k - 1] != '/' && s[k - 1] != '\\'
        invariant
            k <= n == s@.len(),
            name_start(s@, k as int) == name_start(s@, n as int),
        decreases k,
    {
        k = k - 1;
    }
    let lo = k;
    let mut e: usize = n;
    while e - lo > 1 && s[e - 1] != '.'
        invariant
            lo <= e <= n == s@.len(),
            lo == name_start(s@, n as int),
            ext_dot(s@, lo as int, e as int, n as int) == ext_dot(s@, lo as int, n as int, n as int),
        decreases e,
    {
        e = e - 1;
    }
    let hi: usize = if e - lo > 1 { e - 1 } else { n };
    let mut out: Vec<char> = Vec::new();
    let mut i: usize = lo;
    while i < hi
        invariant
            lo <= i <= hi <= n == s@.len(),
            out@ == s@.subrange(lo as int, i as int),
        decreases hi - i,
    {
        out.push(s[i]);
        i = i + 1;
    }
    proof {
        assert(out@ =~= s@.subrange(lo as int, hi as int));
    }
    out
}

/// One line of a play-queue: a media file and its category.
pub struct PlayQueueEntry {
    pub path: String,
    pub category: String,
}

/// The sort key of an entry: the stem of its path.
pub open spec fn entry_key(e: PlayQueueEntry) -> Seq<char> {
    stem(e.path@)
}

/// Each entry comes no later, by the numeric-aware order of stems, than the next.
pub open spec fn queue_sorted(s: Seq<PlayQueueEntry>) -> bool {
    forall|a: int| 0 <= a < s.len() - 1 ==> nat_cmp(entry_key(#[trigger] s[a]), 0, entry_key(s[a + 1]), 0) != 1
}

fn entry_cmp(x: &PlayQueueEntry, y: &PlayQueueEntry) -> (r: i8)
    ensures
        r as int == nat_cmp(entry_key(*x), 0, entry_key(*y), 0),
{
    let kx = stem_chars(x.path.as_str());
    let ky = stem_chars(y.path.as_str());
    natural_cmp(&kx, &ky)
}

/// `src` tells, for each position of `out`, the position in `input` that its
/// entry came from: one position each, and entries whose keys compare equal
/// keep their relative order.
pub open spec fn stable_origin(out: Seq<PlayQueueEntry>, input: Seq<PlayQueueEntry>, src: Seq<int>) -> bool {
    &&& src.len() == out.len()
    &&& forall|a: int| 0 <= a < out.len() ==> 0 <= #[trigger] src[a] < input.len() && out[a] == input[src[a]]
    &&& forall|a: int, b: int| 0 <= a < b < out.len() ==> #[trigger] src[a] != #[trigger] src[b]
    &&& forall|a: int, b: int| 0 <= a < b < out.len() && nat_cmp(entry_key(#[trigger] out[a]), 0, entry_key(#[trigger] out[b]), 0) == 0 ==> src[a] < src[b]
}

proof fn lemma_insert_sorted(old_out: Seq<PlayQueueEntry>, x: PlayQueueEntry, k: int)
    requires
        0 <= k <= old_out.len(),
        queue_sorted(old_out),
        k > 0 ==> nat_cmp(entry_key(old_out[k - 1]), 0, entry_key(x), 0) != 1,
        k < old_out.len() ==> nat_cmp(entry_key(old_out[k]), 0, entry_key(x), 0) == 1,
    ensures
        queue_sorted(old_out.insert(k, x)),
{
    let no = old_out.insert(k, x);
    if k < old_out.len() {
        lemma_nat_cmp_antisym(entry_key(x), 0, entry_key(old_out[k]), 0);
    }
    assert forall|a: int| 0 <= a < no.len() - 1 implies nat_cmp(entry_key(#[trigger] no[a]), 0, entry_key(no[a + 1]), 0) != 1 by {
        if a + 1 < k {
            assert(no[a] == old_out[a] && no[a + 1] == old_out[a + 1]);
        } else if a + 1 == k {
            assert(no[a] == old_out[a] && no[a + 1] == x);
        } else if a == k {
            assert(no[a] == x && no[a + 1] == old_out[a]);
        } else {
            assert(no[a] == old_out[a - 1] && no[a + 1] == old_out[a]);
        }
    }
}

proof fn lemma_insert_origin(old_out: Seq<PlayQueueEntry>, old_src: Seq<int>, entries: Seq<PlayQueueEntry>, x: PlayQueueEntry, k: int, i: int)
    requires
        0 <= k <= old_out.len(),
        old_out.len() == i < entries.len(),
        x == entries[i],
        stable_origin(old_out, entries, old_src),
        forall|a: int| 0 <= a < old_out.len() ==> #[trigger] old_src[a] < i,
        forall|b: int| k <= b < old_out.len() ==> nat_cmp(entry_key(x), 0, entry_key(#[trigger] old_out[b]), 0) == -1,
    ensures
        stable_origin(old_out.insert(k, x), entries, old_src.insert(k, i)),
        forall|a: int| 0 <= a < old_out.len() + 1 ==> #[trigger] old_src.insert(k, i)[a] < i + 1,
{
    let no = old_out.insert(k, x);
    let src = old_src.insert(k, i);
    assert forall|a: int| 0 <= a < no.len() implies 0 <= #[trigger] src[a] < entries.len() && no[a] == entries[src[a]] && src[a] < i + 1 by {
        if a > k {
            assert(src[a] == old_src[a - 1] && no[a] == old_out[a - 1]);
        } else if a < k {
            assert(src[a] == old_src[a] && no[a] == old_out[a]);
        }
    }
    assert forall|a: int, b: int| 0 <= a < b < no.len() implies #[trigger] src[a] != #[trigger] src[b] by {
        let a0 = if a < k { a } else { a - 1 };
        let b0 = if b < k { b } else { b - 1 };
        if a != k && b != k {
            assert(src[a] == old_src[a0] && src[b] == old_src[b0]);
        } else if a == k {
            assert(src[b] == old_src[b0]);
        } else {
            assert(src[a] == old_src[a0]);
        }
    }
    assert forall|a: int, b: int| 0 <= a < b < no.len() && nat_cmp(entry_key(#[trigger] no[a]), 0, entry_key(#[trigger] no[b]), 0) == 0 implies src[a] < src[b] by {
        let a0 = if a < k { a } else { a - 1 };
        let b0 = if b < k { b } else { b - 1 };
        if a != k && b != k {
            assert(src[a] == old_src[a0] && src[b] == old_src[b0]);
            assert(no[a] == old_out[a0] && no[b] == old_out[b0]);
        } else if a == k {
            assert(no[b] == old_out[b0]);
            assert(no[a] == x);
        } else {
            assert(src[a] == old_src[a0]);
            assert(no[b] == x);
        }
    }
}

/// The entries in play order: ascending by the numeric-aware order of their
/// file stems, an entry that compares equal to an earlier one staying after it.
pub fn custom_sort_vlc(entries: &Vec<PlayQueueEntry>) -> (r: Vec<PlayQueueEntry>)
    ensures
        r@.to_multiset() == entries@.to_multiset(),
        queue_sorted(r@),
        exists|src: Seq<int>| stable_origin(r@, entries@, src),
{
    broadcast use vstd::seq_lib::group_to_multiset_ensures;
    let mut out: Vec<PlayQueueEntry> = Vec::new();
    let mut i: usize = 0;
    let ghost mut src: Seq<int> = Seq::empty();
    while i < entries.len()
        invariant
            i <= entries.len(),
            out@.to_multiset() == entries@.take(i as int).to_multiset(),
            queue_sorted(out@),
            out.len() == i,
            stable_origin(out@, entries@, src),
            forall|a: int| 0 <= a < out.len() ==> #[trigger] src[a] < i,
        decreases entries.len() - i,
    {
        let x = PlayQueueEntry { path: entries[i].path.clone(), category: entries[i].category.clone() };
        assert(x == entries@[i as int]);
        let mut k: usize = out.len();
        while k > 0 && entry_cmp(&out[k - 1], &x) == 1
            invariant
                k <= out.len(),
                forall|b: int| k <= b < out.len() ==> nat_cmp(entry_key(#[trigger] out@[b]), 0, entry_key(x), 0) == 1,
            decreases k,
        {
            k = k - 1;
        }
        let ghost old_out = out@;
        let ghost old_src = src;
        out.insert(k, x);
        proof {
            src = old_src.insert(k as int, i as int);
            if k < old_out.len() {
                assert(nat_cmp(entry_key(old_out[k as int]), 0, entry_key(x), 0) == 1);
            }
            lemma_insert_sorted(old_out, x, k as int);
            assert forall|b: int| k <= b < old_out.len() implies nat_cmp(entry_key(x), 0, entry_key(#[trigger] old_out[b]), 0) == -1 by {
                lemma_nat_cmp_antisym(entry_key(x), 0, entry_key(old_out[b]), 0);
            }
            lemma_insert_origin(old_out, old_src, entries@, x, k as int, i as int);
            vstd::seq_lib::to_multiset_insert(old_out, k as int, x);
            assert(entries@.take(i + 1) =~= entries@.take(i as int).push(x));
            vstd::seq_lib::to_multiset_build(entries@.take(i as int), x);
        }
        i = i + 1;
    }
    assert(entries@.take(i as int) =~= entries@);
    assert(stable_origin(out@, entries@, src));
    out
}

/// The play-queue of a run, where one is wanted: with at least two episodes
/// found and the feature enabled, the entries in play order; otherwise none.
pub fn build_vlc_playlist(good: u64, enabled: bool, entries: Vec<PlayQueueEntry>) -> (r: Option<Vec<PlayQueueEntry>>)
    ensures
        r is Some <==> (good >= 2 && enabled),
        r matches Some(q) ==> q@.to_multiset() == entries@.to_multiset() && queue_sorted(q@)
            && exists|src: Seq<int>| stable_origin(q@, entries@, src),
{
    if good >= 2 && enabled {
        Some(custom_sort_vlc(&entries))
    } else {
        None
    }
}

/// What `str::to_uppercase` makes of a text.
pub uninterp spec fn upper_of(s: Seq<char>) -> Seq<char>;

/// Relies on `str::to_uppercase`: the upper-case form, which depends on the characters alone.
#[verifier::external_body]
fn uppercase(s: &str) -> (r: String)
    ensures
        r@ == upper_of(s@),
{
    s.to_uppercase()
}

/// Text of the root under which seasons are saved.
pub open spec fn download_root() -> Seq<char> {
    seq!['A', 'n', 'i', 'm', 'e', '_', 'D', 'o', 'w', 'n', 'l', 'o', 'a', 'd', '/']
}

/// The directory of a season: the download root, the language tag in upper
/// case, then the sanitised title.
pub fn season_dir(language: &str, title: &str) -> (r: String)
    ensures
        r@ == download_root() + upper_of(language@) + seq!['/'] + sanitized(title@),
{
    let mut out: Vec<char> = vec!['A', 'n', 'i', 'm', 'e', '_', 'D', 'o', 'w', 'n', 'l', 'o', 'a', 'd', '/'];
    let up = uppercase(language);
    let mut lang = chars_of(up.as_str());
    out.append(&mut lang);
    out.push('/');
    let t = chars_of(title);
    let mut name = sanitize_chars(&t);
    out.append(&mut name);
    string_of(&out)
}

/// The last component of a path.
pub open spec fn file_name(s: Seq<char>) -> Seq<char> {
    s.subrange(name_start(s, s.len() as int), s.len() as int)
}

/// The extension of a staged manifest.
pub open spec fn staged_ext() -> Seq<char> {
    seq!['.', 'm', '3', 'u', '8']
}

/// The name of the media file converted from a staged manifest: the file
/// name of the staged path without its `.m3u8`, sanitised, with `.mp4`.
pub fn media_file_name(staged_path: &str) -> (r: String)
    ensures
        r@ == sanitized(without_suffix(file_name(staged_path@), staged_ext())) + seq!['.', 'm', 'p', '4'],
{
    let s = chars_of(staged_path);
    let n: usize = s.len();
    let mut k: usize = n;
    while k > 0 && s[k - 1] != '/' && s[k - 1] != '\\'
        invariant
            k <= n == s@.len(),
            name_start(s@, k as int) == name_start(s@, n as int),
        decreases k,
    {
        k = k - 1;
    }
    let mut tail: Vec<char> = Vec::new();
    let mut i: usize = k;
    while i < n
        invariant
            k <= i <= n == s@.len(),
            tail@ == s@.subrange(k as int, i as int),
        decreases n - i,
    {
        tail.push(s[i]);
        assert(tail@ =~= s@.subrange(k as int, i + 1));
        i = i + 1;
    }
    let ext: Vec<char> = vec!['.', 'm', '3', 'u', '8'];
    assert(ext@ =~= staged_ext());
    let base = strip_suffix_chars(&tail, &ext);
    let mut name = sanitize_chars(&base);
    let mut mp4: Vec<char> = vec!['.', 'm', 'p', '4'];
    name.append(&mut mp4);
    string_of(&name)
}

} // verus!
