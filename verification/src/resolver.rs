//! The resolver: maps one structured reference plus a mode flag to a
//! resolved commit pin, against a remote lookup service.
//!
//! The remote service performs the lookups — fetch the latest release
//! tag, fetch a tag's target object, dereference an annotated tag
//! object, fetch the commit for an arbitrary ref.  Those calls block on
//! the network, so they stay outside the library: the resolver is a
//! state machine.  [`Resolver::new`] yields the first lookup to perform;
//! the caller performs it and feeds the outcome to [`Resolver::resume`],
//! which either asks for another lookup, completes with a pin, or fails.
//!
//! The fallback order is fixed: in update mode a failed latest-release
//! lookup falls back to pin-mode behaviour on the original reference; a
//! failed tag lookup retries the name as a branch or direct commit
//! reference; a failed dereference of an annotated tag falls back to the
//! intermediate object's identifier rather than failing outright.

use vstd::prelude::*;
use vstd::string::*;

use crate::reference::ActionReference;
use crate::reference::RefView;

verus! {

/// The kind of object a tag reference points at: a commit directly, or
/// an intermediate annotated-tag object that itself points at a commit.
#[derive(Clone, Copy, PartialEq, Eq, Structural, Debug)]
pub enum ObjectKind {
    Commit,
    AnnotatedTag,
}

/// One lookup the resolver asks the remote service to perform.
pub enum Lookup {
    /// The tag name of the newest published release of `owner/repo`.
    LatestRelease { owner: String, repo: String },
    /// The object a tag reference of `owner/repo` points at, with its kind.
    TagTarget { owner: String, repo: String, tag: String },
    /// The commit an annotated-tag object of `owner/repo` points at.
    Dereference { owner: String, repo: String, object_id: String },
    /// The commit for an arbitrary ref, branch or short commit name.
    CommitForRef { owner: String, repo: String, ref_name: String },
}

/// The value of a [`Lookup`].
pub ghost enum LookupV {
    LatestRelease { owner: Seq<char>, repo: Seq<char> },
    TagTarget { owner: Seq<char>, repo: Seq<char>, tag: Seq<char> },
    Dereference { owner: Seq<char>, repo: Seq<char>, object_id: Seq<char> },
    CommitForRef { owner: Seq<char>, repo: Seq<char>, ref_name: Seq<char> },
}

impl View for Lookup {
    type V = LookupV;

    open spec fn view(&self) -> LookupV {
        match self {
            Lookup::LatestRelease { owner, repo } => LookupV::LatestRelease {
                owner: owner@,
                repo: repo@,
            },
            Lookup::TagTarget { owner, repo, tag } => LookupV::TagTarget {
                owner: owner@,
                repo: repo@,
                tag: tag@,
            },
            Lookup::Dereference { owner, repo, object_id } => LookupV::Dereference {
                owner: owner@,
                repo: repo@,
                object_id: object_id@,
            },
            Lookup::CommitForRef { owner, repo, ref_name } => LookupV::CommitForRef {
                owner: owner@,
                repo: repo@,
                ref_name: ref_name@,
            },
        }
    }
}

/// What one lookup came back with.  `Found` carries the tag name or
/// commit identifier the lookup was after; `FoundObject` is the shape of
/// a tag-target answer, which names an object and its kind.  `NotFound`
/// and `Error` both exhaust the same fallbacks: the service's failure
/// modes differ, the policy on them does not.
pub enum Outcome {
    Found { value: String },
    FoundObject { object_id: String, kind: ObjectKind },
    NotFound,
    Error,
}

/// The value of an [`Outcome`].
pub ghost enum OutcomeV {
    Found { value: Seq<char> },
    FoundObject { object_id: Seq<char>, kind: ObjectKind },
    NotFound,
    Error,
}

impl View for Outcome {
    type V = OutcomeV;

    open spec fn view(&self) -> OutcomeV {
        match self {
            Outcome::Found { value } => OutcomeV::Found { value: value@ },
            Outcome::FoundObject { object_id, kind } => OutcomeV::FoundObject {
                object_id: object_id@,
                kind: *kind,
            },
            Outcome::NotFound => OutcomeV::NotFound,
            Outcome::Error => OutcomeV::Error,
        }
    }
}

/// A successful resolution: the full commit identifier to pin to, and
/// the label recorded beside it — the original reference in pin mode,
/// the newly discovered release tag in update mode.
pub struct ResolvedPin {
    pub commit_sha: String,
    pub label: String,
}

/// The value of a [`ResolvedPin`].
pub ghost struct PinV {
    pub commit_sha: Seq<char>,
    pub label: Seq<char>,
}

impl View for ResolvedPin {
    type V = PinV;

    open spec fn view(&self) -> PinV {
        PinV { commit_sha: self.commit_sha@, label: self.label@ }
    }
}

/// What the resolver wants next: another lookup performed, or it is done
/// with a pin, or the whole reference failed to resolve.
pub enum Step {
    Ask(Lookup),
    Done(ResolvedPin),
    Failed,
}

/// The value of a [`Step`].
pub ghost enum StepV {
    Ask(LookupV),
    Done(PinV),
    Failed,
}

impl View for Step {
    type V = StepV;

    open spec fn view(&self) -> StepV {
        match self {
            Step::Ask(l) => StepV::Ask(l@),
            Step::Done(p) => StepV::Done(p@),
            Step::Failed => StepV::Failed,
        }
    }
}

/// Which lookup the resolver is waiting on.  `label` is the name the
/// eventual pin will carry; in the dereference state `object_id` is the
/// intermediate object to fall back to.
pub enum State {
    AwaitingRelease,
    AwaitingTarget { label: String },
    AwaitingDereference { label: String, object_id: String },
    AwaitingCommit { label: String },
    Complete,
}

/// The value of a [`State`].
pub ghost enum StateV {
    AwaitingRelease,
    AwaitingTarget { label: Seq<char> },
    AwaitingDereference { label: Seq<char>, object_id: Seq<char> },
    AwaitingCommit { label: Seq<char> },
    Complete,
}

impl View for State {
    type V = StateV;

    open spec fn view(&self) -> StateV {
        match self {
            State::AwaitingRelease => StateV::AwaitingRelease,
            State::AwaitingTarget { label } => StateV::AwaitingTarget { label: label@ },
            State::AwaitingDereference { label, object_id } => StateV::AwaitingDereference {
                label: label@,
                object_id: object_id@,
            },
            State::AwaitingCommit { label } => StateV::AwaitingCommit { label: label@ },
            State::Complete => StateV::Complete,
        }
    }
}

/// The resolution of one reference, part-way through its lookups.
pub struct Resolver {
    pub reference: ActionReference,
    pub state: State,
}

/// The value of a [`Resolver`].
pub ghost struct ResolverV {
    pub reference: RefView,
    pub state: StateV,
}

impl View for Resolver {
    type V = ResolverV;

    open spec fn view(&self) -> ResolverV {
        ResolverV { reference: self.reference@, state: self.state@ }
    }
}

/// Where resolution starts: update mode first asks for the latest
/// release; pin mode resolves the reference itself as a tag.
pub open spec fn spec_new(r: RefView, update: bool) -> (ResolverV, LookupV) {
    if update {
        (
            ResolverV { reference: r, state: StateV::AwaitingRelease },
            LookupV::LatestRelease { owner: r.owner, repo: r.repo },
        )
    } else {
        (
            ResolverV { reference: r, state: StateV::AwaitingTarget { label: r.reference } },
            LookupV::TagTarget { owner: r.owner, repo: r.repo, tag: r.reference },
        )
    }
}

/// The transition relation of the resolver: from the lookup awaited and
/// its outcome to the next state and the next step.  It reads only the
/// reference and the state; an outcome of a shape the awaited lookup
/// cannot produce counts as a failed lookup.
pub open spec fn spec_resume(m: ResolverV, o: OutcomeV) -> (ResolverV, StepV) {
    let r = m.reference;
    match m.state {
        StateV::AwaitingRelease => match o {
            OutcomeV::Found { value } => (
                ResolverV { reference: r, state: StateV::AwaitingTarget { label: value } },
                StepV::Ask(LookupV::TagTarget { owner: r.owner, repo: r.repo, tag: value }),
            ),
            _ => (
                ResolverV { reference: r, state: StateV::AwaitingTarget { label: r.reference } },
                StepV::Ask(LookupV::TagTarget { owner: r.owner, repo: r.repo, tag: r.reference }),
            ),
        },
        StateV::AwaitingTarget { label } => match o {
            OutcomeV::FoundObject { object_id, kind } => if kind == ObjectKind::AnnotatedTag {
                (
                    ResolverV {
                        reference: r,
                        state: StateV::AwaitingDereference { label, object_id },
                    },
                    StepV::Ask(LookupV::Dereference { owner: r.owner, repo: r.repo, object_id }),
                )
            } else {
                (
                    ResolverV { reference: r, state: StateV::Complete },
                    StepV::Done(PinV { commit_sha: object_id, label }),
                )
            },
            _ => (
                ResolverV { reference: r, state: StateV::AwaitingCommit { label } },
                StepV::Ask(LookupV::CommitForRef { owner: r.owner, repo: r.repo, ref_name: label }),
            ),
        },
        StateV::AwaitingDereference { label, object_id } => match o {
            OutcomeV::Found { value } => (
                ResolverV { reference: r, state: StateV::Complete },
                StepV::Done(PinV { commit_sha: value, label }),
            ),
            _ => (
                ResolverV { reference: r, state: StateV::Complete },
                StepV::Done(PinV { commit_sha: object_id, label }),
            ),
        },
        StateV::AwaitingCommit { label } => match o {
            OutcomeV::Found { value } => (
                ResolverV { reference: r, state: StateV::Complete },
                StepV::Done(PinV { commit_sha: value, label }),
            ),
            _ => (ResolverV { reference: r, state: StateV::Complete }, StepV::Failed),
        },
        StateV::Complete => (m, StepV::Failed),
    }
}

impl Resolver {
    /// Starts resolving `reference` and names the first lookup to
    /// perform.
    pub fn new(reference: ActionReference, update: bool) -> (r: (Resolver, Lookup))
        ensures
            r.0@ == spec_new(reference@, update).0,
            r.1@ == spec_new(reference@, update).1,
    {
        if update {
            let owner = reference.owner.clone();
            let repo = reference.repo.clone();
            (
                Resolver { reference, state: State::AwaitingRelease },
                Lookup::LatestRelease { owner, repo },
            )
        } else {
            let owner = reference.owner.clone();
            let repo = reference.repo.clone();
            let label = reference.reference.clone();
            let tag = reference.reference.clone();
            (
                Resolver { reference, state: State::AwaitingTarget { label } },
                Lookup::TagTarget { owner, repo, tag },
            )
        }
    }

    /// Feeds back the outcome of the lookup last asked for, and moves the
    /// resolution one step on.
    pub fn resume(&mut self, outcome: Outcome) -> (step: Step)
        ensures
            final(self)@ == spec_resume(old(self)@, outcome@).0,
            step@ == spec_resume(old(self)@, outcome@).1,
    {
        let mut taken = State::Complete;
        core::mem::swap(&mut self.state, &mut taken);
        match taken {
            State::AwaitingRelease => match outcome {
                Outcome::Found { value } => {
                    let owner = self.reference.owner.clone();
                    let repo = self.reference.repo.clone();
                    let label = value.clone();
                    self.state = State::AwaitingTarget { label };
                    Step::Ask(Lookup::TagTarget { owner, repo, tag: value })
                },
                _ => {
                    let owner = self.reference.owner.clone();
                    let repo = self.reference.repo.clone();
                    let label = self.reference.reference.clone();
                    let tag = self.reference.reference.clone();
                    self.state = State::AwaitingTarget { label };
                    Step::Ask(Lookup::TagTarget { owner, repo, tag })
                },
            },
            State::AwaitingTarget { label } => match outcome {
                Outcome::FoundObject { object_id, kind } => {
                    if kind == ObjectKind::AnnotatedTag {
                        let owner = self.reference.owner.clone();
                        let repo = self.reference.repo.clone();
                        let object_for_state = object_id.clone();
                        self.state = State::AwaitingDereference {
                            label,
                            object_id: object_for_state,
                        };
                        Step::Ask(Lookup::Dereference { owner, repo, object_id })
                    } else {
                        self.state = State::Complete;
                        Step::Done(ResolvedPin { commit_sha: object_id, label })
                    }
                },
                _ => {
                    let owner = self.reference.owner.clone();
                    let repo = self.reference.repo.clone();
                    let ref_name = label.clone();
                    self.state = State::AwaitingCommit { label };
                    Step::Ask(Lookup::CommitForRef { owner, repo, ref_name })
                },
            },
            State::AwaitingDereference { label, object_id } => match outcome {
                Outcome::Found { value } => {
                    self.state = State::Complete;
                    Step::Done(ResolvedPin { commit_sha: value, label })
                },
                _ => {
                    self.state = State::Complete;
                    Step::Done(ResolvedPin { commit_sha: object_id, label })
                },
            },
            State::AwaitingCommit { label } => match outcome {
                Outcome::Found { value } => {
                    self.state = State::Complete;
                    Step::Done(ResolvedPin { commit_sha: value, label })
                },
                _ => {
                    self.state = State::Complete;
                    Step::Failed
                },
            },
            State::Complete => {
                self.state = State::Complete;
                Step::Failed
            },
        }
    }
}

/// Law: in update mode, when the latest-release lookup reports not found
/// or fails, the resolver falls back to exactly the pin-mode behaviour —
/// the state and the lookup it asks for next are the ones pin mode
/// starts with, so everything that follows resolves the original
/// reference and labels the pin with it.
pub proof fn lemma_update_fallback_is_pin_mode(m: ResolverV, o: OutcomeV)
    requires
        m == spec_new(m.reference, true).0,
        o is NotFound || o is Error,
    ensures
        spec_resume(m, o).0 == spec_new(m.reference, false).0,
        spec_resume(m, o).1 == StepV::Ask(spec_new(m.reference, false).1),
{
}

} // verus!
