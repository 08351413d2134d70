//! The per-embed resolution state machine: from an embed page to a staged
//! manifest, driven by the outcomes of browser and HTTP work done elsewhere.
use vstd::prelude::*;
use crate::manifest::{
    manifest_of, parse_manifest, variant_model, Manifest, ManifestModel, SelectStep, Selector,
    Variant,
};
use crate::text::{chars_of, contains_chars, seq_contains};

verus! {

/// The class fragment that shows the player library has attached.
pub open spec fn player_marker() -> Seq<char> {
    seq!['j', 'w', 'p', 'l', 'a', 'y', 'e', 'r']
}

/// Whether the class attribute of the player marker shows the player attached.
pub fn player_attached(class: &str) -> (r: bool)
    ensures
        r == seq_contains(class@, player_marker()),
{
    let c = chars_of(class);
    let m: Vec<char> = vec!['j', 'w', 'p', 'l', 'a', 'y', 'e', 'r'];
    assert(m@ =~= player_marker());
    contains_chars(&c, &m)
}

/// Where the resolution of one embed stands.
#[derive(PartialEq, Eq, Structural, Clone, Copy, Debug)]
pub enum Phase {
    NavigatingEmbed,
    AwaitingFrameEntry,
    PollingPlayerReady,
    ExtractingManifest,
    FetchingManifest,
    ProbingVariants,
    Staging,
    Resolved,
    Failed,
}

/// What the outside work reported.
pub enum EmbedEvent {
    /// The browser is on the embed page.
    Navigated,
    /// Whether the nested viewing context could be entered.
    FrameEntered(bool),
    /// The class attribute of the player marker, `None` where it is not there yet.
    PlayerPolled(Option<String>),
    /// The caller's deadline for this embed has passed.
    DeadlineExpired,
    /// The manifest field of the player's current item; `None` where it is
    /// absent or the script failed.
    ManifestField(Option<String>),
    /// The manifest body where the GET succeeded; `None` otherwise.
    ManifestFetched(Option<Vec<u8>>),
    /// Whether the probe of the variant asked for succeeded.
    ProbeAnswered(bool),
    /// Whether the chosen manifest was fetched and written to staging.
    Staged(bool),
}

/// The work to do next.
pub enum EmbedAction {
    /// Direct the browser to this page.
    Navigate(String),
    /// Enter the nested viewing context with this index.
    EnterFrame(usize),
    /// Look up the player marker and report its class.
    PollPlayer,
    /// Query the player for its current item's manifest field.
    ExtractManifest,
    /// GET this manifest.
    FetchManifest(String),
    /// Check that this variant URI answers.
    Probe(String),
    /// GET this manifest and write it to staging.
    Stage(String),
    /// Return to the parent viewing context: this embed is done.
    ReturnToParent,
}

/// The resolution of one embed page.
pub struct EmbedResolver {
    pub phase: Phase,
    /// The embed page.
    pub page_url: String,
    /// The manifest that the player named.
    pub manifest_url: String,
    /// The variants of a master manifest.
    pub variants: Vec<Variant>,
    pub selector: Selector,
    /// The manifest to stage.
    pub chosen: String,
}

/// The embed is done, one way or the other.
pub open spec fn is_terminal(p: Phase) -> bool {
    p == Phase::Resolved || p == Phase::Failed
}

impl EmbedResolver {
    /// While variants are probed, the selector runs over them with a probe pending.
    pub open spec fn wf(&self) -> bool {
        self.phase == Phase::ProbingVariants ==> {
            &&& self.selector.wf(self.variants@)
            &&& self.selector.chosen is None
            &&& self.selector.probed < self.selector.order.len()
        }
    }

    /// The variant whose probe is pending.
    pub open spec fn pending_variant(&self) -> Variant {
        self.variants@[self.selector.order@[self.selector.probed as int] as int]
    }

    /// The work that the current phase asks for.
    pub open spec fn action_spec(&self) -> EmbedAction {
        match self.phase {
            Phase::NavigatingEmbed => EmbedAction::Navigate(self.page_url),
            Phase::AwaitingFrameEntry => EmbedAction::EnterFrame(0),
            Phase::PollingPlayerReady => EmbedAction::PollPlayer,
            Phase::ExtractingManifest => EmbedAction::ExtractManifest,
            Phase::FetchingManifest => EmbedAction::FetchManifest(self.manifest_url),
            Phase::ProbingVariants => EmbedAction::Probe(self.pending_variant().uri),
            Phase::Staging => EmbedAction::Stage(self.chosen),
            _ => EmbedAction::ReturnToParent,
        }
    }

    /// `post` is what `pre` becomes on `ev`. Terminal phases stay; the
    /// deadline fails any other; an event that the phase does not wait for
    /// changes nothing.
    pub open spec fn steps_to(pre: EmbedResolver, ev: EmbedEvent, post: EmbedResolver) -> bool {
        &&& post.page_url == pre.page_url
        &&& if is_terminal(pre.phase) {
            post.phase == pre.phase
        } else {
            match ev {
                EmbedEvent::DeadlineExpired => post.phase == Phase::Failed,
                EmbedEvent::Navigated => if pre.phase == Phase::NavigatingEmbed {
                    post.phase == Phase::AwaitingFrameEntry
                } else {
                    post.phase == pre.phase
                },
                EmbedEvent::FrameEntered(ok) => if pre.phase == Phase::AwaitingFrameEntry {
                    post.phase == if ok { Phase::PollingPlayerReady } else { Phase::Failed }
                } else {
                    post.phase == pre.phase
                },
                EmbedEvent::PlayerPolled(class) => if pre.phase == Phase::PollingPlayerReady {
                    post.phase == if class matches Some(c) && seq_contains(c@, player_marker()) {
                        Phase::ExtractingManifest
                    } else {
                        Phase::PollingPlayerReady
                    }
                } else {
                    post.phase == pre.phase
                },
                EmbedEvent::ManifestField(field) => if pre.phase == Phase::ExtractingManifest {
                    match field {
                        Some(u) => post.phase == Phase::FetchingManifest && post.manifest_url == u,
                        None => post.phase == Phase::Failed,
                    }
                } else {
                    post.phase == pre.phase
                },
                EmbedEvent::ManifestFetched(body) => if pre.phase == Phase::FetchingManifest {
                    match body {
                        None => post.phase == Phase::Failed,
                        Some(b) => match manifest_of(b@) {
                            None => post.phase == Phase::Failed,
                            Some(ManifestModel::Media) => post.phase == Phase::Staging
                                && post.chosen == pre.manifest_url,
                            Some(ManifestModel::Master(vs)) => {
                                &&& post.variants@.map_values(|v: Variant| variant_model(v)) == vs
                                &&& if vs.len() == 0 {
                                    post.phase == Phase::Failed
                                } else {
                                    post.phase == Phase::ProbingVariants && post.selector.probed == 0
                                }
                            },
                        },
                    }
                } else {
                    post.phase == pre.phase
                },
                EmbedEvent::ProbeAnswered(ok) => if pre.phase == Phase::ProbingVariants {
                    if ok {
                        post.phase == Phase::Staging && post.chosen == pre.pending_variant().uri
                    } else if pre.selector.probed + 1 < pre.selector.order.len() {
                        &&& post.phase == Phase::ProbingVariants
                        &&& post.variants == pre.variants
                        &&& post.selector.order == pre.selector.order
                        &&& post.selector.probed == pre.selector.probed + 1
                    } else {
                        post.phase == Phase::Failed
                    }
                } else {
                    post.phase == pre.phase
                },
                EmbedEvent::Staged(ok) => if pre.phase == Phase::Staging {
                    post.phase == if ok { Phase::Resolved } else { Phase::Failed }
                } else {
                    post.phase == pre.phase
                },
            }
        }
    }

    /// A resolver for the embed page `page_url`, about to navigate to it.
    pub fn new(page_url: String) -> (r: EmbedResolver)
        ensures
            r.wf(),
            r.phase == Phase::NavigatingEmbed,
            r.page_url == page_url,
    {
        let empty: Vec<Variant> = Vec::new();
        EmbedResolver {
            phase: Phase::NavigatingEmbed,
            page_url,
            manifest_url: String::new(),
            selector: Selector::new(&empty),
            variants: empty,
            chosen: String::new(),
        }
    }

    /// The work that the current phase asks for.
    pub fn action(&self) -> (r: EmbedAction)
        requires
            self.wf(),
        ensures
            r == self.action_spec(),
    {
        match self.phase {
            Phase::NavigatingEmbed => EmbedAction::Navigate(self.page_url.clone()),
            Phase::AwaitingFrameEntry => EmbedAction::EnterFrame(0),
            Phase::PollingPlayerReady => EmbedAction::PollPlayer,
            Phase::ExtractingManifest => EmbedAction::ExtractManifest,
            Phase::FetchingManifest => EmbedAction::FetchManifest(self.manifest_url.clone()),
            Phase::ProbingVariants => {
                let v = self.selector.order[self.selector.probed];
                EmbedAction::Probe(self.variants[v].uri.clone())
            },
            Phase::Staging => EmbedAction::Stage(self.chosen.clone()),
            _ => EmbedAction::ReturnToParent,
        }
    }

    /// Whether the embed resolved, once it is done.
    pub fn outcome(&self) -> (r: Option<bool>)
        ensures
            r == match self.phase {
                Phase::Resolved => Some(true),
                Phase::Failed => Some(false),
                _ => None::<bool>,
            },
    {
        match self.phase {
            Phase::Resolved => Some(true),
            Phase::Failed => Some(false),
            _ => None,
        }
    }

    fn take_manifest(&mut self, body: Vec<u8>)
        requires
            old(self).phase == Phase::FetchingManifest,
        ensures
            final(self).wf(),
            Self::steps_to(*old(self), EmbedEvent::ManifestFetched(Some(body)), *final(self)),
    {
        match parse_manifest(body.as_slice()) {
            None => {
                self.phase = Phase::Failed;
            },
            Some(Manifest::Media) => {
                self.chosen = self.manifest_url.clone();
                self.phase = Phase::Staging;
            },
            Some(Manifest::Master(vs)) => {
                let sel = Selector::new(&vs);
                let n = vs.len();
                self.variants = vs;
                self.selector = sel;
                if n == 0 {
                    self.phase = Phase::Failed;
                } else {
                    self.phase = Phase::ProbingVariants;
                }
            },
        }
    }

    fn take_probe(&mut self, ok: bool)
        requires
            old(self).wf(),
            old(self).phase == Phase::ProbingVariants,
        ensures
            final(self).wf(),
            Self::steps_to(*old(self), EmbedEvent::ProbeAnswered(ok), *final(self)),
    {
        let ghost vs = self.variants@;
        let v = self.selector.order[self.selector.probed];
        self.selector.record_probe(ok);
        match self.selector.next_step() {
            SelectStep::Selected(c) => {
                self.chosen = self.variants[c].uri.clone();
                self.phase = Phase::Staging;
            },
            SelectStep::Probe(_) => {
                assert(self.selector.wf(vs));
            },
            SelectStep::NoWorkingVariant => {
                self.phase = Phase::Failed;
            },
        }
    }

    /// Takes in what the outside work reported and moves to the next phase;
    /// returns the work that phase asks for.
    pub fn on_event(&mut self, ev: EmbedEvent) -> (r: EmbedAction)
        requires
            old(self).wf(),
        ensures
            final(self).wf(),
            Self::steps_to(*old(self), ev, *final(self)),
            r == final(self).action_spec(),
    {
        if self.phase == Phase::Resolved || self.phase == Phase::Failed {
            return self.action();
        }
        match ev {
            EmbedEvent::DeadlineExpired => {
                self.phase = Phase::Failed;
            },
            EmbedEvent::Navigated => {
                if self.phase == Phase::NavigatingEmbed {
                    self.phase = Phase::AwaitingFrameEntry;
                }
            },
            EmbedEvent::FrameEntered(ok) => {
                if self.phase == Phase::AwaitingFrameEntry {
                    self.phase = if ok { Phase::PollingPlayerReady } else { Phase::Failed };
                }
            },
            EmbedEvent::PlayerPolled(class) => {
                if self.phase == Phase::PollingPlayerReady {
                    if let Some(c) = class {
                        if player_attached(c.as_str()) {
                            self.phase = Phase::ExtractingManifest;
                        }
                    }
                }
            },
            EmbedEvent::ManifestField(field) => {
                if self.phase == Phase::ExtractingManifest {
                    match field {
                        Some(u) => {
                            self.manifest_url = u;
                            self.phase = Phase::FetchingManifest;
                        },
                        None => {
                            self.phase = Phase::Failed;
                        },
                    }
                }
            },
            EmbedEvent::ManifestFetched(body) => {
                if self.phase == Phase::FetchingManifest {
                    match body {
                        Some(b) => self.take_manifest(b),
                        None => {
                            self.phase = Phase::Failed;
                        },
                    }
                }
            },
            EmbedEvent::ProbeAnswered(ok) => {
                if self.phase == Phase::ProbingVariants {
                    self.take_probe(ok);
                }
            },
            EmbedEvent::Staged(ok) => {
                if self.phase == Phase::Staging {
                    self.phase = if ok { Phase::Resolved } else { Phase::Failed };
                }
            },
        }
        self.action()
    }
}

/// When the last variant's probe fails, the embed fails: nothing is staged
/// and no manifest is fetched for it.
pub proof fn lemma_no_staging_without_working_variant(pre: EmbedResolver, post: EmbedResolver)
    requires
        pre.wf(),
        pre.phase == Phase::ProbingVariants,
        pre.selector.probed + 1 == pre.selector.order.len(),
        EmbedResolver::steps_to(pre, EmbedEvent::ProbeAnswered(false), post),
    ensures
        post.phase == Phase::Failed,
        post.action_spec() == EmbedAction::ReturnToParent,
{
}

/// Along a run of failing probes that starts while variants are probed, the
/// embed is never staged: each state is still probing, one variant further,
/// or has failed; and once every variant has been probed it has failed.
pub proof fn lemma_failing_probes_never_stage(states: Seq<EmbedResolver>)
    requires
        states.len() > 0,
        states[0].phase == Phase::ProbingVariants,
        forall|i: int| 0 <= i < states.len() ==> (#[trigger] states[i]).wf(),
        forall|i: int| 0 <= i < states.len() - 1 ==> EmbedResolver::steps_to(#[trigger] states[i], EmbedEvent::ProbeAnswered(false), states[i + 1]),
    ensures
        forall|i: int| 0 <= i < states.len() ==> (#[trigger] states[i]).phase == Phase::ProbingVariants || states[i].phase == Phase::Failed,
        forall|i: int| 0 <= i < states.len() && (#[trigger] states[i]).phase == Phase::ProbingVariants ==>
            states[i].selector.probed == states[0].selector.probed + i && states[i].selector.order == states[0].selector.order,
        states.len() > states[0].selector.order.len() - states[0].selector.probed ==> states[states.len() - 1].phase == Phase::Failed,
    decreases states.len(),
{
    if states.len() > 1 {
        let init = states.drop_last();
        assert forall|i: int| 0 <= i < init.len() implies (#[trigger] init[i]).wf() by {
            assert(init[i] == states[i]);
        }
        assert forall|i: int| 0 <= i < init.len() - 1 implies EmbedResolver::steps_to(#[trigger] init[i], EmbedEvent::ProbeAnswered(false), init[i + 1]) by {
            assert(init[i] == states[i] && init[i + 1] == states[i + 1]);
        }
        lemma_failing_probes_never_stage(init);
        let n = states.len() - 1;
        assert(init[n - 1] == states[n - 1]);
        assert(EmbedResolver::steps_to(states[n - 1], EmbedEvent::ProbeAnswered(false), states[n]));
        assert forall|i: int| 0 <= i < states.len() implies (#[trigger] states[i]).phase == Phase::ProbingVariants || states[i].phase == Phase::Failed by {
            if i < n {
                assert(init[i] == states[i]);
            }
        }
        assert forall|i: int| 0 <= i < states.len() && (#[trigger] states[i]).phase == Phase::ProbingVariants implies
            states[i].selector.probed == states[0].selector.probed + i && states[i].selector.order == states[0].selector.order by {
            if i < n {
                assert(init[i] == states[i]);
            } else {
                assert(states[n - 1].phase == Phase::ProbingVariants);
            }
            assert(init[0] == states[0]);
        }
        if states.len() > states[0].selector.order.len() - states[0].selector.probed {
            if states[n].phase == Phase::ProbingVariants {
                assert(states[n].selector.probed < states[n].selector.order.len());
            }
        }
    }
}

} // verus!
