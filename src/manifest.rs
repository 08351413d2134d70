//! Adaptive-bitrate manifests and the choice of the variant to download.
use vstd::prelude::*;

verus! {

/// One rendition listed by a master manifest.
pub struct Variant {
    pub uri: String,
    /// Vertical resolution, when the manifest gives one.
    pub height: Option<u64>,
}

/// A parsed manifest: a master list of variants, or a media list of segments.
pub enum Manifest {
    Master(Vec<Variant>),
    Media,
}

/// What a manifest holds, as plain values.
pub enum ManifestModel {
    Master(Seq<(Seq<char>, Option<u64>)>),
    Media,
}

/// A variant as plain values: its URI and its height.
pub open spec fn variant_model(v: Variant) -> (Seq<char>, Option<u64>) {
    (v.uri@, v.height)
}

impl View for Manifest {
    type V = ManifestModel;

    open spec fn view(&self) -> ManifestModel {
        match self {
            Manifest::Master(vs) => ManifestModel::Master(vs@.map_values(|v: Variant| variant_model(v))),
            Manifest::Media => ManifestModel::Media,
        }
    }
}

/// What `m3u8_rs` makes of a manifest's bytes; `None` where it cannot parse them.
pub uninterp spec fn manifest_of(bytes: Seq<u8>) -> Option<ManifestModel>;

/// Declares `nom::Err`, the error that `m3u8_rs::parse_playlist_res` returns.
#[verifier::external_type_specification]
#[verifier::external_body]
#[verifier::reject_recursive_types(E)]
pub struct ExNomErr<E>(nom::Err<E>);

/// Declares `nom::error::Error`, the payload of that error.
#[verifier::external_type_specification]
#[verifier::external_body]
#[verifier::reject_recursive_types(I)]
pub struct ExNomError<I>(nom::error::Error<I>);

/// Relies on `m3u8_rs::parse_playlist_res`: parses a master or media playlist;
/// each variant keeps its URI and the height of its resolution.
#[verifier::external_body]
fn parse_playlist(bytes: &[u8]) -> (r: Result<Manifest, nom::Err<nom::error::Error<&[u8]>>>)
    ensures
        match r {
            Ok(m) => manifest_of(bytes@) == Some(m@),
            Err(_) => manifest_of(bytes@) is None,
        },
{
    match m3u8_rs::parse_playlist_res(bytes) {
        Ok(m3u8_rs::Playlist::MasterPlaylist(pl)) => Ok(Manifest::Master(
            pl.variants.into_iter().map(|v| Variant { uri: v.uri, height: v.resolution.map(|x| x.height) }).collect(),
        )),
        Ok(m3u8_rs::Playlist::MediaPlaylist(_)) => Ok(Manifest::Media),
        Err(e) => Err(e),
    }
}

/// Parses a manifest body; `None` where its bytes are no playlist.
pub fn parse_manifest(bytes: &[u8]) -> (r: Option<Manifest>)
    ensures
        match r {
            Some(m) => manifest_of(bytes@) == Some(m@),
            None => manifest_of(bytes@) is None,
        },
{
    match parse_playlist(bytes) {
        Ok(m) => Some(m),
        Err(_) => None,
    }
}

/// Priority of a height: a variant without one ranks below every other.
pub open spec fn rank(h: Option<u64>) -> int {
    match h {
        Some(x) => x as int,
        None => -1,
    }
}

/// Variant `i` is probed before variant `j`: it is taller, or as tall and listed earlier.
pub open spec fn before(vs: Seq<Variant>, i: int, j: int) -> bool {
    rank(vs[i].height) > rank(vs[j].height) || (rank(vs[i].height) == rank(vs[j].height) && i < j)
}

/// Index `j` stands somewhere in `order`.
pub open spec fn lists(order: Seq<usize>, j: int) -> bool {
    exists|a: int| 0 <= a < order.len() && order[a] == j
}

/// `order` lists every index of `vs` once, highest priority first.
pub open spec fn is_probe_order(vs: Seq<Variant>, order: Seq<usize>) -> bool {
    &&& order.len() == vs.len()
    &&& forall|a: int| 0 <= a < order.len() ==> #[trigger] order[a] < vs.len()
    &&& forall|j: int| 0 <= j < vs.len() ==> #[trigger] lists(order, j)
    &&& forall|a: int, b: int| 0 <= a < b < order.len() ==> before(vs, #[trigger] order[a] as int, #[trigger] order[b] as int)
}

fn rank_lt(a: Option<u64>, b: Option<u64>) -> (r: bool)
    ensures
        r == (rank(a) < rank(b)),
{
    match (a, b) {
        (_, None) => false,
        (None, Some(_)) => true,
        (Some(x), Some(y)) => x < y,
    }
}

/// The indices of `variants` in the order in which they are probed: by
/// descending height, variants without a height last, ties in list order.
pub fn probe_order(variants: &Vec<Variant>) -> (order: Vec<usize>)
    ensures
        is_probe_order(variants@, order@),
{
    let ghost vs = variants@;
    let mut order: Vec<usize> = Vec::new();
    let mut i: usize = 0;
    while i < variants.len()
        invariant
            vs == variants@,
            i <= vs.len(),
            order.len() == i,
            forall|a: int| 0 <= a < order.len() ==> #[trigger] order@[a] < i,
            forall|j: int| 0 <= j < i ==> #[trigger] lists(order@, j),
            forall|a: int, b: int| 0 <= a < b < order.len() ==> before(vs, #[trigger] order@[a] as int, #[trigger] order@[b] as int),
        decreases vs.len() - i,
    {
        let h = variants[i].height;
        let mut k: usize = 0;
        while k < order.len() && !rank_lt(variants[order[k]].height, h)
            invariant
                vs == variants@,
                i < vs.len(),
                order.len() == i,
                k <= order.len(),
                forall|a: int| 0 <= a < order.len() ==> #[trigger] order@[a] < i,
                forall|a: int| 0 <= a < k ==> rank(vs[#[trigger] order@[a] as int].height) >= rank(h),
            decreases order.len() - k,
        {
            k = k + 1;
        }
        let ghost old_order = order@;
        proof {
            assert forall|b: int| k <= b < old_order.len() implies rank(vs[#[trigger] old_order[b] as int].height) < rank(h) by {
                if b > k {
                    assert(before(vs, old_order[k as int] as int, old_order[b] as int));
                }
            }
        }
        order.insert(k, i);
        proof {
            let no = order@;
            assert(no == old_order.insert(k as int, i));
            assert forall|a: int| 0 <= a < no.len() implies #[trigger] no[a] < i + 1 by {
                if a > k {
                    assert(no[a] == old_order[a - 1]);
                }
            }
            assert forall|j: int| 0 <= j < i + 1 implies #[trigger] lists(no, j) by {
                if j == i {
                    assert(no[k as int] == j);
                } else {
                    assert(lists(old_order, j));
                    let a0 = choose|a: int| 0 <= a < old_order.len() && old_order[a] == j;
                    if a0 < k {
                        assert(no[a0] == j);
                    } else {
                        assert(no[a0 + 1] == j);
                    }
                }
            }
            assert forall|a: int, b: int| 0 <= a < b < no.len() implies before(vs, #[trigger] no[a] as int, #[trigger] no[b] as int) by {
                if b < k {
                    assert(no[a] == old_order[a] && no[b] == old_order[b]);
                } else if b == k {
                    assert(no[a] == old_order[a]);
                } else if a < k {
                    assert(no[a] == old_order[a] && no[b] == old_order[b - 1]);
                } else if a == k {
                    assert(no[b] == old_order[b - 1]);
                } else {
                    assert(no[a] == old_order[a - 1] && no[b] == old_order[b - 1]);
                }
            }
        }
        i = i + 1;
    }
    order
}

/// What the selector asks for next.
pub enum SelectStep {
    /// Probe the variant at this index of the manifest.
    Probe(usize),
    /// The variant at this index answered; download it.
    Selected(usize),
    /// Every variant was probed and none answered.
    NoWorkingVariant,
}

/// Probes the variants of a master manifest one at a time, best first, and
/// stops at the first that answers.
pub struct Selector {
    /// Indices of the variants, in probing order.
    pub order: Vec<usize>,
    /// How many of them have been probed.
    pub probed: usize,
    /// The variant whose probe succeeded, once one has.
    pub chosen: Option<usize>,
}

impl Selector {
    /// The selector follows the probe order of `vs`, and its choice is the last
    /// variant probed, which answered.
    pub open spec fn wf(&self, vs: Seq<Variant>) -> bool {
        &&& is_probe_order(vs, self.order@)
        &&& self.probed <= self.order.len()
        &&& match self.chosen {
            Some(c) => self.probed > 0 && c == self.order@[self.probed - 1],
            None => true,
        }
    }

    /// The step that [`Selector::next_step`] returns.
    pub open spec fn step_spec(&self) -> SelectStep {
        match self.chosen {
            Some(c) => SelectStep::Selected(c),
            None => if self.probed < self.order.len() {
                SelectStep::Probe(self.order@[self.probed as int])
            } else {
                SelectStep::NoWorkingVariant
            },
        }
    }

    /// A selector over `variants` that has probed nothing yet.
    pub fn new(variants: &Vec<Variant>) -> (r: Selector)
        ensures
            r.wf(variants@),
            r.probed == 0,
            r.chosen is None,
    {
        Selector { order: probe_order(variants), probed: 0, chosen: None }
    }

    /// The next step: a probe of the best variant not yet probed, the chosen
    /// variant, or the report that none answered.
    pub fn next_step(&self) -> (r: SelectStep)
        requires
            self.probed <= self.order.len(),
        ensures
            r == self.step_spec(),
    {
        match self.chosen {
            Some(c) => SelectStep::Selected(c),
            None => if self.probed < self.order.len() {
                SelectStep::Probe(self.order[self.probed])
            } else {
                SelectStep::NoWorkingVariant
            },
        }
    }

    /// Takes in the outcome of the probe that [`Selector::next_step`] asked for.
    pub fn record_probe(&mut self, ok: bool)
        requires
            old(self).chosen is None,
            old(self).probed < old(self).order.len(),
        ensures
            final(self).order == old(self).order,
            final(self).probed == old(self).probed + 1,
            final(self).chosen == (if ok { Some(old(self).order@[old(self).probed as int]) } else { None }),
    {
        if ok {
            self.chosen = Some(self.order[self.probed]);
        }
        self.probed = self.probed + 1;
    }
}

proof fn lemma_probe_order_agree(vs: Seq<Variant>, o1: Seq<usize>, o2: Seq<usize>, a: int)
    requires
        is_probe_order(vs, o1),
        is_probe_order(vs, o2),
        0 <= a < o1.len(),
    ensures
        o1[a] == o2[a],
    decreases a,
{
    assert forall|c: int| 0 <= c < a implies o1[c] == o2[c] by {
        lemma_probe_order_agree(vs, o1, o2, c);
    }
    let x = o1[a] as int;
    let y = o2[a] as int;
    if x != y {
        if before(vs, x, y) {
            assert(lists(o2, x));
            let b = choose|b: int| 0 <= b < o2.len() && o2[b] == x;
            if b > a {
                assert(before(vs, o2[a] as int, o2[b] as int));
            } else {
                assert(o1[b] == o2[b]);
                assert(before(vs, o1[b] as int, o1[a] as int));
            }
        } else {
            assert(lists(o1, y));
            let b = choose|b: int| 0 <= b < o1.len() && o1[b] == y;
            if b > a {
                assert(before(vs, o1[a] as int, o1[b] as int));
            } else {
                assert(o1[b] == o2[b]);
                assert(before(vs, o2[b] as int, o2[a] as int));
            }
        }
    }
}

/// There is one probe order of a list of variants.
pub proof fn lemma_probe_order_unique(vs: Seq<Variant>, o1: Seq<usize>, o2: Seq<usize>)
    requires
        is_probe_order(vs, o1),
        is_probe_order(vs, o2),
    ensures
        o1 == o2,
{
    assert forall|a: int| 0 <= a < o1.len() implies o1[a] == o2[a] by {
        lemma_probe_order_agree(vs, o1, o2, a);
    }
    assert(o1 =~= o2);
}

proof fn lemma_before_asym(vs: Seq<Variant>, i: int, j: int)
    requires
        before(vs, i, j),
    ensures
        !before(vs, j, i),
{
}

/// Runs the selector over `variants` where `outcomes[j]` is what the probe of
/// variant `j` returns. Returns the chosen variant and the variants probed, in
/// the order of probing. They are: the variants that rank above the chosen one,
/// all of which failed, then the chosen one; or, where no probe succeeds, all
/// variants. They are the first entries of the probe order, in that order,
/// and no variant is probed after one succeeds.
pub fn select_with_outcomes(variants: &Vec<Variant>, outcomes: &Vec<bool>) -> (r: (Option<usize>, Vec<usize>))
    requires
        outcomes.len() == variants.len(),
    ensures
        forall|a: int, b: int| 0 <= a < b < r.1.len() ==> before(variants@, #[trigger] r.1@[a] as int, #[trigger] r.1@[b] as int),
        forall|a: int| 0 <= a < r.1.len() ==> #[trigger] r.1@[a] < variants.len(),
        r.0 is None <==> forall|j: int| 0 <= j < variants.len() ==> !outcomes@[j],
        forall|ord: Seq<usize>| is_probe_order(variants@, ord) ==> r.1@ == ord.take(r.1.len() as int),
        match r.0 {
            Some(c) => {
                &&& c < variants.len()
                &&& outcomes@[c as int]
                &&& r.1.len() > 0 && r.1@[r.1.len() - 1] == c
                &&& forall|a: int| 0 <= a < r.1.len() - 1 ==> !outcomes@[#[trigger] r.1@[a] as int]
                &&& forall|j: int| 0 <= j < variants.len() ==> (#[trigger] lists(r.1@, j) <==> (j == c || before(variants@, j, c as int)))
            },
            None => {
                &&& forall|j: int| 0 <= j < variants.len() ==> !outcomes@[j]
                &&& r.1.len() == variants.len()
                &&& forall|j: int| 0 <= j < variants.len() ==> #[trigger] lists(r.1@, j)
            },
        },
{
    let ghost vs = variants@;
    let mut sel = Selector::new(variants);
    let mut probed: Vec<usize> = Vec::new();
    loop
        invariant
            vs == variants@,
            outcomes.len() == vs.len(),
            sel.wf(vs),
            probed@ == sel.order@.take(sel.probed as int),
            forall|a: int| 0 <= a < sel.probed && (sel.chosen is None || a < sel.probed - 1) ==> !outcomes@[#[trigger] sel.order@[a] as int],
            sel.chosen matches Some(c) ==> outcomes@[c as int],
        decreases sel.order.len() - sel.probed + (if sel.chosen is None { 1int } else { 0int }),
    {
        let ghost order = sel.order@;
        assert forall|a: int, b: int| 0 <= a < b < probed.len() implies before(vs, #[trigger] probed@[a] as int, #[trigger] probed@[b] as int) by {
            assert(probed@[a] == order[a] && probed@[b] == order[b]);
        }
        assert forall|a: int| 0 <= a < probed.len() implies #[trigger] probed@[a] < vs.len() by {
            assert(probed@[a] == order[a]);
        }
        match sel.next_step() {
            SelectStep::Probe(v) => {
                probed.push(v);
                sel.record_probe(outcomes[v]);
                assert(probed@ =~= sel.order@.take(sel.probed as int));
            },
            SelectStep::Selected(c) => {
                proof {
                    let k = sel.probed as int;
                    assert forall|a: int| 0 <= a < probed.len() - 1 implies !outcomes@[#[trigger] probed@[a] as int] by {
                        assert(probed@[a] == order[a]);
                    }
                    assert forall|j: int| 0 <= j < vs.len() implies (#[trigger] lists(probed@, j) <==> (j == c || before(vs, j, c as int))) by {
                        assert(lists(order, j));
                        let a = choose|a: int| 0 <= a < order.len() && order[a] == j;
                        if lists(probed@, j) {
                            let b = choose|b: int| 0 <= b < probed.len() && probed@[b] == j;
                            assert(probed@[b] == order[b]);
                            if b < k - 1 {
                                assert(before(vs, order[b] as int, order[k - 1] as int));
                            }
                        }
                        if j == c {
                            assert(probed@[k - 1] == j);
                        } else if before(vs, j, c as int) {
                            if a >= k {
                                if a > k - 1 {
                                    assert(before(vs, order[k - 1] as int, order[a] as int));
                                    lemma_before_asym(vs, j, c as int);
                                }
                            }
                            assert(a < k);
                            assert(probed@[a] == j);
                        }
                    }
                }
                proof {
                    assert forall|ord: Seq<usize>| is_probe_order(vs, ord) implies probed@ == ord.take(probed.len() as int) by {
                        lemma_probe_order_unique(vs, ord, sel.order@);
                    }
                }
                return (Some(c), probed);
            },
            SelectStep::NoWorkingVariant => {
                proof {
                    assert forall|j: int| 0 <= j < vs.len() implies #[trigger] lists(probed@, j) by {
                        assert(lists(order, j));
                        let a = choose|a: int| 0 <= a < order.len() && order[a] == j;
                        assert(probed@[a] == j);
                    }
                    assert forall|j: int| 0 <= j < vs.len() implies !outcomes@[j] by {
                        assert(lists(order, j));
                        let a = choose|a: int| 0 <= a < order.len() && order[a] == j;
                        assert(!outcomes@[order[a] as int]);
                    }
                }
                proof {
                    assert forall|ord: Seq<usize>| is_probe_order(vs, ord) implies probed@ == ord.take(probed.len() as int) by {
                        lemma_probe_order_unique(vs, ord, sel.order@);
                    }
                }
                return (None, probed);
            },
        }
    }
}

} // verus!
