//! Enumeration of the embed pages of a season across a paginated listing.
use vstd::prelude::*;
use crate::text::{chars_of, contains_chars, seq_contains, string_of};

verus! {

/// The path fragment that marks the URL of a single episode.
pub open spec fn episode_marker() -> Seq<char> {
    seq!['/', 'e', 'p', 'i', 's', 'o', 'd', 'e', '/']
}

/// The class fragment that marks a disabled "next page" control.
pub open spec fn disabled_marker() -> Seq<char> {
    seq!['d', 'i', 's', 'a', 'b', 'l', 'e', 'd']
}

/// Whether `url` points at a single episode rather than at a listing.
pub fn is_direct_episode(url: &str) -> (r: bool)
    ensures
        r == seq_contains(url@, episode_marker()),
{
    let u = chars_of(url);
    let m: Vec<char> = vec!['/', 'e', 'p', 'i', 's', 'o', 'd', 'e', '/'];
    assert(m@ =~= episode_marker());
    contains_chars(&u, &m)
}

/// The state of the "next page" control of a listing page.
#[derive(PartialEq, Eq, Structural, Clone, Copy, Debug)]
pub enum NextControl {
    Absent,
    Enabled,
    Disabled,
}

/// The state of the "next page" control, from its class attribute (`None`
/// where the page has no such control).
pub fn next_control(class: Option<&str>) -> (r: NextControl)
    ensures
        r == match class {
            None => NextControl::Absent,
            Some(c) => if seq_contains(c@, disabled_marker()) {
                NextControl::Disabled
            } else {
                NextControl::Enabled
            },
        },
{
    match class {
        None => NextControl::Absent,
        Some(c) => {
            let cc = chars_of(c);
            let m: Vec<char> = vec!['d', 'i', 's', 'a', 'b', 'l', 'e', 'd'];
            assert(m@ =~= disabled_marker());
            if contains_chars(&cc, &m) {
                NextControl::Disabled
            } else {
                NextControl::Enabled
            }
        },
    }
}

/// The links that the elements carry, in order; elements without one are skipped.
pub open spec fn hrefs(elems: Seq<Option<String>>) -> Seq<String>
    decreases elems.len(),
{
    if elems.len() == 0 {
        Seq::empty()
    } else {
        hrefs(elems.drop_last()) + match elems.last() {
            Some(h) => seq![h],
            None => Seq::empty(),
        }
    }
}

/// The links of one listing page: those of the primary episode elements, or,
/// where the page has none, those of the secondary ones.
pub open spec fn page_links_spec(primary: Seq<Option<String>>, secondary: Seq<Option<String>>) -> Seq<String> {
    if primary.len() > 0 {
        hrefs(primary)
    } else {
        hrefs(secondary)
    }
}

fn collect_hrefs(elems: Vec<Option<String>>, out: &mut Vec<String>)
    ensures
        final(out)@ == old(out)@ + hrefs(elems@),
{
    let ghost start = out@;
    let mut i: usize = 0;
    while i < elems.len()
        invariant
            i <= elems.len(),
            out@ == start + hrefs(elems@.take(i as int)),
        decreases elems.len() - i,
    {
        assert(elems@.take(i + 1).drop_last() =~= elems@.take(i as int));
        match &elems[i] {
            Some(h) => {
                out.push(h.clone());
                assert(out@ =~= start + hrefs(elems@.take(i + 1)));
            },
            None => {
                assert(out@ =~= start + hrefs(elems@.take(i + 1)));
            },
        }
        i = i + 1;
    }
    assert(elems@.take(i as int) =~= elems@);
}

/// The links of one listing page (see [`page_links_spec`]).
pub fn page_links(primary: Vec<Option<String>>, secondary: Vec<Option<String>>) -> (r: Vec<String>)
    ensures
        r@ == page_links_spec(primary@, secondary@),
{
    let mut out: Vec<String> = Vec::new();
    if primary.len() > 0 {
        collect_hrefs(primary, &mut out);
    } else {
        collect_hrefs(secondary, &mut out);
    }
    assert(out@ =~= page_links_spec(primary@, secondary@));
    out
}

/// What the crawler asks for after a page.
#[derive(PartialEq, Eq, Structural, Clone, Copy, Debug)]
pub enum CrawlStep {
    /// Trigger the "next page" control and report the page that loads.
    Advance,
    /// The listing is done; the links gathered are final.
    Finished,
}

/// Walks a paginated listing, gathering the links of every page in
/// page-then-position order, and stops at the last page or at a page ceiling.
pub struct Crawler {
    pub links: Vec<String>,
    pub pages: u64,
    pub max_pages: u64,
    pub finished: bool,
}

impl Crawler {
    /// A crawler that has seen no page and will visit at most `max_pages`.
    pub fn new(max_pages: u64) -> (r: Crawler)
        ensures
            r.links@.len() == 0,
            r.pages == 0,
            r.max_pages == max_pages,
            r.finished == (max_pages == 0),
    {
        Crawler { links: Vec::new(), pages: 0, max_pages, finished: max_pages == 0 }
    }

    /// Takes in the page now loaded: its primary and secondary episode
    /// elements (each with its link, if any) and its "next page" control.
    /// Goes on while the control is enabled and the ceiling is not reached.
    pub fn visit_page(&mut self, primary: Vec<Option<String>>, secondary: Vec<Option<String>>, next: NextControl) -> (r: CrawlStep)
        requires
            !old(self).finished,
            old(self).pages < old(self).max_pages,
        ensures
            final(self).links@ == old(self).links@ + page_links_spec(primary@, secondary@),
            final(self).pages == old(self).pages + 1,
            final(self).max_pages == old(self).max_pages,
            r == (if next == NextControl::Enabled && final(self).pages < final(self).max_pages {
                CrawlStep::Advance
            } else {
                CrawlStep::Finished
            }),
            final(self).finished == (r == CrawlStep::Finished),
    {
        let page = page_links(primary, secondary);
        let mut i: usize = 0;
        let ghost start = self.links@;
        while i < page.len()
            invariant
                i <= page.len(),
                self.links@ == start + page@.take(i as int),
                self.pages == old(self).pages,
                self.max_pages == old(self).max_pages,
                !self.finished,
            decreases page.len() - i,
        {
            self.links.push(page[i].clone());
            assert(self.links@ =~= start + page@.take(i + 1));
            i = i + 1;
        }
        assert(page@.take(i as int) =~= page@);
        self.pages = self.pages + 1;
        if next == NextControl::Enabled && self.pages < self.max_pages {
            CrawlStep::Advance
        } else {
            self.finished = true;
            CrawlStep::Finished
        }
    }
}

/// `url` with the prefix `base` cut off, where it starts with it.
pub open spec fn relative_spec(url: Seq<char>, base: Seq<char>) -> Seq<char> {
    if base.len() <= url.len() && url.take(base.len() as int) == base {
        url.skip(base.len() as int)
    } else {
        url
    }
}

/// The embed path of `url` relative to the site root `base`.
pub fn relative_url(url: &str, base: &str) -> (r: String)
    ensures
        r@ == relative_spec(url@, base@),
{
    let u = chars_of(url);
    let b = chars_of(base);
    let mut is_prefix = b.len() <= u.len();
    let mut i: usize = 0;
    while is_prefix && i < b.len()
        invariant
            i <= b.len(),
            is_prefix ==> b.len() <= u.len(),
            is_prefix ==> forall|k: int| 0 <= k < i ==> u@[k] == b@[k],
            !is_prefix ==> !(b.len() <= u.len() && u@.take(b.len() as int) == b@),
        decreases b.len() - i + (if is_prefix { 1int } else { 0int }),
    {
        if u[i] != b[i] {
            assert(u@.take(b.len() as int)[i as int] != b@[i as int]);
            is_prefix = false;
        } else {
            i = i + 1;
        }
    }
    if is_prefix {
        assert(u@.take(b.len() as int) =~= b@);
        let mut out: Vec<char> = Vec::new();
        let mut k: usize = b.len();
        while k < u.len()
            invariant
                b.len() <= k <= u.len(),
                out@ == u@.subrange(b.len() as int, k as int),
            decreases u.len() - k,
        {
            out.push(u[k]);
            assert(out@ =~= u@.subrange(b.len() as int, k + 1));
            k = k + 1;
        }
        assert(out@ =~= u@.skip(b.len() as int));
        string_of(&out)
    } else {
        string_of(&u)
    }
}

/// The address of an embed page: the site root followed by its path.
pub fn absolute_url(base: &str, path: &str) -> (r: String)
    ensures
        r@ == base@ + path@,
{
    let mut b = chars_of(base);
    let mut p = chars_of(path);
    b.append(&mut p);
    string_of(&b)
}

/// The embed paths to resolve where `url` is a single episode: that one, made
/// relative to `base`; `None` where `url` is a listing to crawl.
pub fn direct_targets(url: &str, base: &str) -> (r: Option<Vec<String>>)
    ensures
        match r {
            Some(v) => seq_contains(url@, episode_marker()) && v@.len() == 1 && v@[0]@ == relative_spec(url@, base@),
            None => !seq_contains(url@, episode_marker()),
        },
{
    if is_direct_episode(url) {
        let mut v: Vec<String> = Vec::new();
        v.push(relative_url(url, base));
        Some(v)
    } else {
        None
    }
}

} // verus!
