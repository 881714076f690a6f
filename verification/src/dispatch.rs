//! The signing and embedding dispatcher.
//!
//! Signing and embedding are done by outside collaborators. The
//! dispatcher only decides what is done next: it hands out one command
//! at a time and is told how each one ended. The source is staged in
//! full before anything is written, the destination is written last,
//! and a failure ends the dispatch: nothing is tried again.

use vstd::prelude::*;
use crate::engine::{EmbedRequest, EmbedRequestView};
use crate::error::{EngineError, EngineErrorView, SigningError, SigningErrorView};
use crate::manifest::{Manifest, ManifestView};

verus! {

/// How far a dispatch has come.
#[derive(Clone, Copy, Debug, PartialEq, Eq, Structural)]
pub enum Phase {
    /// Nothing was commanded yet.
    Ready,
    /// The source is being read into a buffer of its own.
    Staging,
    /// The manifest is being put into its canonical bytes.
    Serializing,
    /// The signer is at work on those bytes.
    Signing,
    /// The embedder is joining manifest, signature and staged source.
    Embedding,
    /// The destination is being written.
    Writing,
    /// The destination holds the signed manifest.
    Done,
    /// A collaborator failed; the destination was not written.
    Failed,
}

/// What the dispatcher asks its driver to do next.
#[derive(Clone, Copy, Debug, PartialEq, Eq, Structural)]
pub enum Command {
    StageSource,
    Serialize,
    Sign,
    Embed,
    WriteDest,
    /// Report success.
    Finish,
    /// Report the failure and stop.
    Abort,
    /// The event did not fit the phase; nothing is to be done.
    Nothing,
}

/// What the driver tells the dispatcher.
#[derive(Debug, PartialEq, Eq)]
pub enum DispatchEvent {
    /// The dispatch is to begin.
    Start,
    /// The command last given was carried out.
    StepDone,
    /// The command last given failed, as a collaborator reported.
    StepFailed(SigningError),
}

pub enum DispatchEventView {
    Start,
    StepDone,
    StepFailed(SigningErrorView),
}

impl View for DispatchEvent {
    type V = DispatchEventView;

    open spec fn view(&self) -> DispatchEventView {
        match self {
            DispatchEvent::Start => DispatchEventView::Start,
            DispatchEvent::StepDone => DispatchEventView::StepDone,
            DispatchEvent::StepFailed(e) => DispatchEventView::StepFailed(e@),
        }
    }
}

/// Whether a command is under way in a phase.
pub open spec fn in_progress(phase: Phase) -> bool {
    phase != Phase::Ready && phase != Phase::Done && phase != Phase::Failed
}

/// The phase that follows `phase` on `event`.
pub open spec fn next_phase(phase: Phase, event: DispatchEventView) -> Phase {
    match event {
        DispatchEventView::Start => if phase == Phase::Ready {
            Phase::Staging
        } else {
            phase
        },
        DispatchEventView::StepDone => match phase {
            Phase::Staging => Phase::Serializing,
            Phase::Serializing => Phase::Signing,
            Phase::Signing => Phase::Embedding,
            Phase::Embedding => Phase::Writing,
            Phase::Writing => Phase::Done,
            _ => phase,
        },
        DispatchEventView::StepFailed(_) => if in_progress(phase) {
            Phase::Failed
        } else {
            phase
        },
    }
}

/// The command given in `phase` on `event`.
pub open spec fn command_for(phase: Phase, event: DispatchEventView) -> Command {
    match event {
        DispatchEventView::Start => if phase == Phase::Ready {
            Command::StageSource
        } else {
            Command::Nothing
        },
        DispatchEventView::StepDone => match phase {
            Phase::Staging => Command::Serialize,
            Phase::Serializing => Command::Sign,
            Phase::Signing => Command::Embed,
            Phase::Embedding => Command::WriteDest,
            Phase::Writing => Command::Finish,
            _ => Command::Nothing,
        },
        DispatchEventView::StepFailed(_) => if in_progress(phase) {
            Command::Abort
        } else {
            Command::Nothing
        },
    }
}

/// The failure on record after `event` came in `phase`.
pub open spec fn next_failure(
    phase: Phase,
    failure: Option<SigningErrorView>,
    event: DispatchEventView,
) -> Option<SigningErrorView> {
    match event {
        DispatchEventView::StepFailed(e) => if in_progress(phase) {
            Some(e)
        } else {
            failure
        },
        _ => failure,
    }
}

/// The asset that a dispatch leaves behind: the destination and the
/// manifest that is now embedded in it.
#[derive(Debug, PartialEq, Eq)]
pub struct EmbeddedAsset {
    pub path: String,
    pub manifest: Manifest,
}

pub struct EmbeddedAssetView {
    pub path: Seq<char>,
    pub manifest: ManifestView,
}

impl View for EmbeddedAsset {
    type V = EmbeddedAssetView;

    open spec fn view(&self) -> EmbeddedAssetView {
        EmbeddedAssetView { path: self.path@, manifest: self.manifest@ }
    }
}

pub struct DispatcherView {
    pub request: EmbedRequestView,
    pub phase: Phase,
    pub failure: Option<SigningErrorView>,
}

impl DispatcherView {
    /// What every dispatcher satisfies: a failure is on record exactly
    /// while the dispatch has failed.
    pub open spec fn wf(self) -> bool {
        self.phase == Phase::Failed <==> self.failure is Some
    }

    /// How the dispatch ended, once it has.
    pub open spec fn outcome(self) -> Option<Result<EmbeddedAssetView, SigningErrorView>> {
        match self.phase {
            Phase::Done => Some(
                Ok(EmbeddedAssetView { path: self.request.dest, manifest: self.request.manifest }),
            ),
            Phase::Failed => match self.failure {
                Some(e) => Some(Err(e)),
                None => None,
            },
            _ => None,
        }
    }
}

/// Where a dispatch stands: in a phase that is not `Failed`, or failed
/// with what the collaborator reported.
enum Progress {
    Under(Phase),
    Failed(SigningError),
}

/// Sequences the finalizing of one manifest.
pub struct Dispatcher {
    request: EmbedRequest,
    progress: Progress,
}

impl View for Dispatcher {
    type V = DispatcherView;

    closed spec fn view(&self) -> DispatcherView {
        match self.progress {
            Progress::Under(phase) => DispatcherView {
                request: self.request@,
                phase,
                failure: None,
            },
            Progress::Failed(e) => DispatcherView {
                request: self.request@,
                phase: Phase::Failed,
                failure: Some(e@),
            },
        }
    }
}

impl Dispatcher {
    #[verifier::type_invariant]
    spec fn well_formed(&self) -> bool {
        self.progress matches Progress::Under(phase) ==> phase != Phase::Failed
    }

    /// A dispatcher for `request`, ready to start.
    pub fn new(request: EmbedRequest) -> (r: Dispatcher)
        ensures
            r@ == (DispatcherView { request: request@, phase: Phase::Ready, failure: None }),
    {
        Dispatcher { request, progress: Progress::Under(Phase::Ready) }
    }

    /// The phase of the dispatch. A failure is on record exactly while
    /// the dispatch has failed.
    pub fn phase(&self) -> (r: Phase)
        ensures
            r == self@.phase,
            self@.wf(),
    {
        proof {
            use_type_invariant(self);
        }
        match &self.progress {
            Progress::Under(phase) => *phase,
            Progress::Failed(_) => Phase::Failed,
        }
    }

    /// The request that is being finalized.
    pub fn request(&self) -> (r: &EmbedRequest)
        ensures
            r@ == self@.request,
    {
        &self.request
    }

    /// Takes in what the driver reports and gives the next command.
    pub fn handle(&mut self, event: DispatchEvent) -> (r: Command)
        ensures
            final(self)@.wf(),
            r == command_for(old(self)@.phase, event@),
            final(self)@ == (DispatcherView {
                request: old(self)@.request,
                phase: next_phase(old(self)@.phase, event@),
                failure: next_failure(old(self)@.phase, old(self)@.failure, event@),
            }),
    {
        proof {
            use_type_invariant(&*self);
        }
        let phase = self.phase();
        match event {
            DispatchEvent::Start => {
                match phase {
                    Phase::Ready => {
                        self.progress = Progress::Under(Phase::Staging);
                        Command::StageSource
                    },
                    _ => Command::Nothing,
                }
            },
            DispatchEvent::StepDone => {
                match phase {
                    Phase::Staging => {
                        self.progress = Progress::Under(Phase::Serializing);
                        Command::Serialize
                    },
                    Phase::Serializing => {
                        self.progress = Progress::Under(Phase::Signing);
                        Command::Sign
                    },
                    Phase::Signing => {
                        self.progress = Progress::Under(Phase::Embedding);
                        Command::Embed
                    },
                    Phase::Embedding => {
                        self.progress = Progress::Under(Phase::Writing);
                        Command::WriteDest
                    },
                    Phase::Writing => {
                        self.progress = Progress::Under(Phase::Done);
                        Command::Finish
                    },
                    _ => Command::Nothing,
                }
            },
            DispatchEvent::StepFailed(e) => {
                match phase {
                    Phase::Ready => Command::Nothing,
                    Phase::Done => Command::Nothing,
                    Phase::Failed => Command::Nothing,
                    _ => {
                        self.progress = Progress::Failed(e);
                        Command::Abort
                    },
                }
            },
        }
    }

    /// How the dispatch ended: the embedded asset, or the failure as the
    /// collaborator reported it. `None` while it is still under way.
    pub fn outcome(&self) -> (r: Option<Result<EmbeddedAsset, SigningError>>)
        ensures
            match self@.outcome() {
                None => r is None,
                Some(Ok(asset)) => r matches Some(Ok(a)) && a@ == asset,
                Some(Err(e)) => r matches Some(Err(f)) && f@ == e,
            },
    {
        proof {
            use_type_invariant(self);
        }
        match &self.progress {
            Progress::Under(Phase::Done) => Some(
                Ok(
                    EmbeddedAsset {
                        path: self.request.dest.clone(),
                        manifest: self.request.manifest.clone(),
                    },
                ),
            ),
            Progress::Under(_) => None,
            Progress::Failed(e) => Some(Err(e.clone())),
        }
    }
}

impl Dispatcher {
    /// How the dispatch ended, for a caller of the engine: a failure of
    /// a collaborator is passed on as it was reported.
    pub fn conclude(&self) -> (r: Option<Result<EmbeddedAsset, EngineError>>)
        ensures
            match self@.outcome() {
                None => r is None,
                Some(Ok(asset)) => r matches Some(Ok(a)) && a@ == asset,
                Some(Err(e)) => r matches Some(Err(f)) && f@ == EngineErrorView::Collaborator(e),
            },
    {
        match self.outcome() {
            None => None,
            Some(Ok(asset)) => Some(Ok(asset)),
            Some(Err(e)) => Some(Err(EngineError::Collaborator(e))),
        }
    }
}

/// The phase reached from `phase` after a sequence of events.
pub open spec fn phase_after(phase: Phase, events: Seq<DispatchEventView>) -> Phase
    decreases events.len(),
{
    if events.len() == 0 {
        phase
    } else {
        next_phase(phase_after(phase, events.drop_last()), events.last())
    }
}

/// The commands given from `phase` over a sequence of events, leaving
/// out each `Nothing`.
pub open spec fn commands_given(phase: Phase, events: Seq<DispatchEventView>) -> Seq<Command>
    decreases events.len(),
{
    if events.len() == 0 {
        Seq::empty()
    } else {
        let before = commands_given(phase, events.drop_last());
        let command = command_for(phase_after(phase, events.drop_last()), events.last());
        if command == Command::Nothing {
            before
        } else {
            before.push(command)
        }
    }
}

/// The commands of a dispatch that meets no failure, in their order.
pub open spec fn full_course() -> Seq<Command> {
    seq![
        Command::StageSource,
        Command::Serialize,
        Command::Sign,
        Command::Embed,
        Command::WriteDest,
        Command::Finish,
    ]
}

/// How many commands of the full course were given when a dispatch
/// stands in a phase that is not `Failed`.
pub open spec fn progress(phase: Phase) -> int {
    match phase {
        Phase::Ready => 0,
        Phase::Staging => 1,
        Phase::Serializing => 2,
        Phase::Signing => 3,
        Phase::Embedding => 4,
        Phase::Writing => 5,
        Phase::Done => 6,
        Phase::Failed => 0,
    }
}

/// Whatever the driver reports, and in whatever order: the commands of a
/// dispatch are the full course as far as it got, followed by one
/// `Abort` exactly if it failed. So the source is staged before anything
/// else is done, the destination is written only after signing and
/// embedding succeeded, and after a failure nothing is commanded again.
pub proof fn lemma_dispatch_follows_course(events: Seq<DispatchEventView>)
    ensures
        ({
            let phase = phase_after(Phase::Ready, events);
            let given = commands_given(Phase::Ready, events);
            &&& phase != Phase::Failed ==> given == full_course().take(progress(phase))
            &&& phase == Phase::Failed ==> exists|n: int|
                1 <= n <= 5 && given == (#[trigger] full_course().take(n)).push(Command::Abort)
        }),
    decreases events.len(),
{
    if events.len() == 0 {
        assert(commands_given(Phase::Ready, events) =~= full_course().take(0));
    } else {
        let earlier = events.drop_last();
        lemma_dispatch_follows_course(earlier);
        let before = phase_after(Phase::Ready, earlier);
        let given_before = commands_given(Phase::Ready, earlier);
        let phase = phase_after(Phase::Ready, events);
        let given = commands_given(Phase::Ready, events);
        let command = command_for(before, events.last());
        if before == Phase::Failed {
            assert(command == Command::Nothing);
            assert(given == given_before);
        } else if phase == Phase::Failed {
            let n = progress(before);
            assert(given == full_course().take(n).push(Command::Abort));
        } else if command == Command::Nothing {
            assert(phase == before);
        } else {
            let n = progress(before);
            assert(full_course().take(n + 1) =~= full_course().take(n).push(full_course()[n]));
            assert(given =~= full_course().take(n + 1));
        }
    }
}

/// A dispatch that has written the destination has staged the source,
/// serialized, signed and embedded before, in this order.
pub proof fn lemma_write_comes_last(events: Seq<DispatchEventView>, i: int)
    requires
        0 <= i < commands_given(Phase::Ready, events).len(),
        commands_given(Phase::Ready, events)[i] == Command::WriteDest,
    ensures
        i == 4,
        commands_given(Phase::Ready, events).take(4) == seq![
            Command::StageSource,
            Command::Serialize,
            Command::Sign,
            Command::Embed,
        ],
{
    lemma_dispatch_follows_course(events);
    let phase = phase_after(Phase::Ready, events);
    let given = commands_given(Phase::Ready, events);
    if phase == Phase::Failed {
        let n = choose|n: int|
            1 <= n <= 5 && given == (#[trigger] full_course().take(n)).push(Command::Abort);
        if i < n {
            assert(given[i] == full_course()[i]);
        }
        assert(given.take(4) =~= full_course().take(4));
    } else {
        assert(given[i] == full_course()[i]);
        assert(given.take(4) =~= full_course().take(4));
    }
    assert(full_course().take(4) =~= seq![
        Command::StageSource,
        Command::Serialize,
        Command::Sign,
        Command::Embed,
    ]);
}

/// No retry: once a dispatch has failed or is done, no event moves it
/// and no event draws a command from it.
pub proof fn lemma_dispatch_ends(phase: Phase, event: DispatchEventView)
    requires
        phase == Phase::Failed || phase == Phase::Done,
    ensures
        next_phase(phase, event) == phase,
        command_for(phase, event) == Command::Nothing,
{
}

} // verus!
