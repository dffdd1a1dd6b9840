//! The work on one mapping, from its resolved paths to its outcomes.
//!
//! A job first finds out what its source is. A source that is a directory,
//! with a destination that is already there, is merged: each thing in the
//! source gets a link of its own below the destination. Any other source is
//! one target. The targets are then worked through in order.

use vstd::prelude::*;
use crate::mapping::Mapping;
use crate::paths::{destination_of, join, joined, option_view, resolve_destination, resolve_source};
use crate::paths::ResolveError;
use crate::protocol::{
    LinkOutcome, Mode, OutcomeView, Reply, ReplyView, Request, RequestView, SourceKind, Target,
    TargetView,
};
use crate::target::{
    link_request, link_request_of, link_step, link_turn, restore_request, restore_request_of,
    restore_step, restore_turn, LinkStage, RestoreStage, Turn, TurnView,
};

verus! {

/// Where a job stands.
#[derive(Clone, Copy, Debug, PartialEq, Eq, Structural)]
pub enum Phase {
    /// What is the source?
    Inspect,
    /// The source is a directory: is the destination there already?
    Survey,
    /// Both are there: what does the source hold?
    List,
    /// A target is being linked.
    Linking(LinkStage),
    /// A target is being restored.
    Restoring(RestoreStage),
    /// Nothing is left to do.
    Finished,
}

/// Why a job stopped before it had any target.
#[derive(Clone, Debug, PartialEq, Eq)]
pub enum EntryFailure {
    /// Nothing could be learned of the source, which linking needs.
    SourceUnavailable(String),
    /// The source directory could not be listed.
    SourceUnreadable(String),
}

/// An early stop as the contracts see it.
pub enum EntryFailureView {
    SourceUnavailable(Seq<char>),
    SourceUnreadable(Seq<char>),
}

impl View for EntryFailure {
    type V = EntryFailureView;

    open spec fn view(&self) -> EntryFailureView {
        match *self {
            EntryFailure::SourceUnavailable(message) => EntryFailureView::SourceUnavailable(
                message@,
            ),
            EntryFailure::SourceUnreadable(message) => EntryFailureView::SourceUnreadable(
                message@,
            ),
        }
    }
}

/// A job as the contracts see it.
pub struct JobView {
    pub mode: Mode,
    pub source: Seq<char>,
    pub dest: Seq<char>,
    pub phase: Phase,
    /// The targets, once they are known.
    pub targets: Seq<TargetView>,
    /// The outcomes of the targets done so far, in the order of the targets.
    pub outcomes: Seq<OutcomeView>,
    pub failure: Option<EntryFailureView>,
}

/// The targets of a merge: one for each name, below the source and below
/// the destination.
pub open spec fn merged(source: Seq<char>, dest: Seq<char>, names: Seq<Seq<char>>) -> Seq<
    TargetView,
> {
    Seq::new(
        names.len(),
        |i: int| TargetView { source: joined(source, names[i]), dest: joined(dest, names[i]) },
    )
}

impl JobView {
    /// A job that has learned nothing yet.
    pub open spec fn initial(mode: Mode, source: Seq<char>, dest: Seq<char>) -> JobView {
        JobView {
            mode,
            source,
            dest,
            phase: Phase::Inspect,
            targets: Seq::empty(),
            outcomes: Seq::empty(),
            failure: None,
        }
    }

    /// What holds of every job that can come about.
    pub open spec fn wf(self) -> bool {
        match self.phase {
            Phase::Inspect | Phase::Survey | Phase::List => {
                &&& self.targets.len() == 0
                &&& self.outcomes.len() == 0
                &&& self.failure is None
            },
            Phase::Linking(_) => {
                &&& self.mode == Mode::Link
                &&& self.outcomes.len() < self.targets.len()
                &&& self.failure is None
            },
            Phase::Restoring(_) => {
                &&& self.mode == Mode::Restore
                &&& self.outcomes.len() < self.targets.len()
                &&& self.failure is None
            },
            Phase::Finished => {
                &&& self.outcomes.len() == self.targets.len()
                &&& self.failure is Some ==> self.targets.len() == 0
            },
        }
    }

    /// The source and the destination as one target.
    pub open spec fn whole(self) -> TargetView {
        TargetView { source: self.source, dest: self.dest }
    }

    /// The target that is being worked on.
    pub open spec fn current(self) -> TargetView {
        self.targets[self.outcomes.len() as int]
    }

    /// The job at the start of its next target, or finished if none is left.
    pub open spec fn resumed(self) -> JobView {
        JobView {
            phase: if self.outcomes.len() < self.targets.len() {
                match self.mode {
                    Mode::Link => Phase::Linking(LinkStage::Probe),
                    Mode::Restore => Phase::Restoring(RestoreStage::Probe),
                }
            } else {
                Phase::Finished
            },
            ..self
        }
    }

    /// The job with its targets known.
    pub open spec fn planned(self, targets: Seq<TargetView>) -> JobView {
        (JobView { targets, ..self }).resumed()
    }

    /// The job with the current target done.
    pub open spec fn closed(self, outcome: OutcomeView) -> JobView {
        (JobView { outcomes: self.outcomes.push(outcome), ..self }).resumed()
    }

    /// The job stopped early.
    pub open spec fn stopped(self, failure: EntryFailureView) -> JobView {
        JobView { phase: Phase::Finished, failure: Some(failure), ..self }
    }

    /// The request that is pending, if the job is not finished.
    pub open spec fn request(self) -> Option<RequestView> {
        match self.phase {
            Phase::Inspect => Some(RequestView::Inspect { path: self.source }),
            Phase::Survey => Some(RequestView::Exists { path: self.dest }),
            Phase::List => Some(RequestView::List { path: self.source }),
            Phase::Linking(stage) => Some(link_request_of(self.current(), stage)),
            Phase::Restoring(stage) => Some(restore_request_of(self.current(), stage)),
            Phase::Finished => None,
        }
    }

    /// The job after `reply`, or nothing where `reply` does not answer the
    /// pending request.
    ///
    /// Linking needs to know its source: without it the job stops. Restoring
    /// does not, and takes an unknown source for a single target.
    pub open spec fn step(self, reply: ReplyView) -> Option<JobView> {
        match self.phase {
            Phase::Inspect => match reply {
                ReplyView::Kind(SourceKind::Directory) => Some(
                    JobView { phase: Phase::Survey, ..self },
                ),
                ReplyView::Kind(SourceKind::File) => Some(self.planned(seq![self.whole()])),
                ReplyView::Failed(message) => match self.mode {
                    Mode::Link => Some(
                        self.stopped(EntryFailureView::SourceUnavailable(message)),
                    ),
                    Mode::Restore => Some(self.planned(seq![self.whole()])),
                },
                _ => None,
            },
            Phase::Survey => match reply {
                ReplyView::Exists(true) => Some(JobView { phase: Phase::List, ..self }),
                ReplyView::Exists(false) => Some(self.planned(seq![self.whole()])),
                _ => None,
            },
            Phase::List => match reply {
                ReplyView::Names(names) => Some(
                    self.planned(merged(self.source, self.dest, names)),
                ),
                ReplyView::Failed(message) => Some(
                    self.stopped(EntryFailureView::SourceUnreadable(message)),
                ),
                _ => None,
            },
            Phase::Linking(stage) => match link_turn(stage, reply) {
                TurnView::Next(stage) => Some(JobView { phase: Phase::Linking(stage), ..self }),
                TurnView::Closed(outcome) => Some(self.closed(outcome)),
                TurnView::Refused => None,
            },
            Phase::Restoring(stage) => match restore_turn(stage, reply) {
                TurnView::Next(stage) => Some(
                    JobView { phase: Phase::Restoring(stage), ..self },
                ),
                TurnView::Closed(outcome) => Some(self.closed(outcome)),
                TurnView::Refused => None,
            },
            Phase::Finished => None,
        }
    }
}

/// Every job that can come about stays one after a reply.
pub proof fn lemma_step_keeps_wf(job: JobView, reply: ReplyView)
    requires
        job.wf(),
        job.step(reply) is Some,
    ensures
        job.step(reply)->0.wf(),
        job.step(reply)->0.mode == job.mode,
        job.step(reply)->0.source == job.source,
        job.step(reply)->0.dest == job.dest,
{
}

/// What a sequence of targets shows to the contracts.
pub open spec fn targets_view(targets: Seq<Target>) -> Seq<TargetView> {
    Seq::new(targets.len(), |i: int| targets[i]@)
}

/// What a sequence of outcomes shows to the contracts.
pub open spec fn outcomes_view(outcomes: Seq<LinkOutcome>) -> Seq<OutcomeView> {
    Seq::new(outcomes.len(), |i: int| outcomes[i]@)
}

/// What an optional early stop shows to the contracts.
pub open spec fn failure_view(failure: Option<EntryFailure>) -> Option<EntryFailureView> {
    match failure {
        Some(failure) => Some(failure@),
        None => None,
    }
}

/// The targets of a merge of the directory `source` into `dest`: one for
/// each of `names`, in their order.
pub fn merge_targets(source: &str, dest: &str, names: &Vec<String>) -> (targets: Vec<Target>)
    ensures
        targets_view(targets@) == merged(source@, dest@, names.deep_view()),
{
    let mut targets: Vec<Target> = Vec::new();
    let mut i: usize = 0;
    while i < names.len()
        invariant
            i <= names.len(),
            targets.len() == i,
            forall|j: int|
                0 <= j < i ==> (#[trigger] targets[j])@ == merged(
                    source@,
                    dest@,
                    names.deep_view(),
                )[j],
        decreases names.len() - i,
    {
        let name = names[i].as_str();
        let target = Target { source: join(source, name), dest: join(dest, name) };
        targets.push(target);
        i += 1;
    }
    assert(targets_view(targets@) =~= merged(source@, dest@, names.deep_view()));
    targets
}

/// The work on one mapping.
#[derive(Debug, PartialEq, Eq)]
pub struct Job {
    mode: Mode,
    source: String,
    dest: String,
    phase: Phase,
    targets: Vec<Target>,
    outcomes: Vec<LinkOutcome>,
    failure: Option<EntryFailure>,
}

impl View for Job {
    type V = JobView;

    closed spec fn view(&self) -> JobView {
        JobView {
            mode: self.mode,
            source: self.source@,
            dest: self.dest@,
            phase: self.phase,
            targets: targets_view(self.targets@),
            outcomes: outcomes_view(self.outcomes@),
            failure: failure_view(self.failure),
        }
    }
}

impl Job {
    /// A job is always one that can come about from a new job by replies.
    #[verifier::type_invariant]
    spec fn inv(&self) -> bool {
        self@.wf()
    }

    /// A job for the resolved paths `source` and `dest`.
    pub fn new(mode: Mode, source: String, dest: String) -> (job: Job)
        ensures
            job@ == JobView::initial(mode, source@, dest@),
            job@.wf(),
    {
        let job = Job {
            mode,
            source,
            dest,
            phase: Phase::Inspect,
            targets: Vec::new(),
            outcomes: Vec::new(),
            failure: None,
        };
        assert(job@.targets =~= Seq::empty());
        assert(job@.outcomes =~= Seq::empty());
        job
    }

    /// Whether nothing is left to do.
    pub fn is_finished(&self) -> (finished: bool)
        ensures
            finished == (self@.phase == Phase::Finished),
            finished == (self@.request() is None),
    {
        match self.phase {
            Phase::Finished => true,
            _ => false,
        }
    }

    /// What the job is for.
    pub fn mode(&self) -> (mode: Mode)
        ensures
            mode == self@.mode,
    {
        self.mode
    }

    /// The absolute source of the mapping.
    pub fn source(&self) -> (source: &str)
        ensures
            source@ == self@.source,
    {
        self.source.as_str()
    }

    /// The absolute destination of the mapping.
    pub fn dest(&self) -> (dest: &str)
        ensures
            dest@ == self@.dest,
    {
        self.dest.as_str()
    }

    /// Where the job stands.
    pub fn phase(&self) -> (phase: Phase)
        ensures
            phase == self@.phase,
    {
        self.phase
    }

    /// The targets, once they are known.
    pub fn targets(&self) -> (targets: &Vec<Target>)
        ensures
            targets_view(targets@) == self@.targets,
    {
        &self.targets
    }

    /// The outcomes of the targets done so far, in the order of the targets.
    pub fn outcomes(&self) -> (outcomes: &Vec<LinkOutcome>)
        ensures
            outcomes_view(outcomes@) == self@.outcomes,
    {
        &self.outcomes
    }

    /// Why the job stopped early, if it did.
    pub fn failure(&self) -> (failure: &Option<EntryFailure>)
        ensures
            failure_view(*failure) == self@.failure,
    {
        &self.failure
    }

    /// The request to carry out next, if the job is not finished.
    pub fn request(&self) -> (request: Option<Request>)
        ensures
            match request {
                Some(request) => self@.request() == Some(request@),
                None => self@.request() is None,
            },
    {
        proof {
            use_type_invariant(self);
        }
        match self.phase {
            Phase::Inspect => Some(Request::Inspect { path: self.source.clone() }),
            Phase::Survey => Some(Request::Exists { path: self.dest.clone() }),
            Phase::List => Some(Request::List { path: self.source.clone() }),
            Phase::Linking(stage) => {
                let target = &self.targets[self.outcomes.len()];
                Some(link_request(target, stage))
            },
            Phase::Restoring(stage) => {
                let target = &self.targets[self.outcomes.len()];
                Some(restore_request(target, stage))
            },
            Phase::Finished => None,
        }
    }

    /// The job at the start of its next target, or finished if none is left.
    fn resume(
        mode: Mode,
        source: String,
        dest: String,
        targets: Vec<Target>,
        outcomes: Vec<LinkOutcome>,
    ) -> (job: Job)
        requires
            outcomes.len() <= targets.len(),
        ensures
            job@ == (JobView {
                mode,
                source: source@,
                dest: dest@,
                phase: Phase::Finished,
                targets: targets_view(targets@),
                outcomes: outcomes_view(outcomes@),
                failure: None,
            }).resumed(),
    {
        let phase = if outcomes.len() < targets.len() {
            match mode {
                Mode::Link => Phase::Linking(LinkStage::Probe),
                Mode::Restore => Phase::Restoring(RestoreStage::Probe),
            }
        } else {
            Phase::Finished
        };
        Job { mode, source, dest, phase, targets, outcomes, failure: None }
    }

    /// The job with the source and the destination as its one target.
    fn plan_whole(self) -> (job: Job)
        requires
            self@.phase is Inspect || self@.phase is Survey,
        ensures
            job@ == self@.planned(seq![self@.whole()]),
    {
        proof {
            use_type_invariant(&self);
        }
        let mut targets: Vec<Target> = Vec::new();
        targets.push(Target { source: self.source.clone(), dest: self.dest.clone() });
        assert(targets_view(targets@) =~= seq![self@.whole()]);
        assert(outcomes_view(self.outcomes@) =~= Seq::empty());
        Job::resume(self.mode, self.source, self.dest, targets, self.outcomes)
    }

    /// The job stopped early.
    fn stop(self, failure: EntryFailure) -> (job: Job)
        requires
            self@.phase is Inspect || self@.phase is List,
        ensures
            job@ == self@.stopped(failure@),
    {
        proof {
            use_type_invariant(&self);
        }
        Job {
            mode: self.mode,
            source: self.source,
            dest: self.dest,
            phase: Phase::Finished,
            targets: self.targets,
            outcomes: self.outcomes,
            failure: Some(failure),
        }
    }

    /// The job at another phase, with nothing else changed.
    fn at(self, phase: Phase) -> (job: Job)
        requires
            (JobView { phase, ..self@ }).wf(),
        ensures
            job@ == (JobView { phase, ..self@ }),
    {
        Job {
            mode: self.mode,
            source: self.source,
            dest: self.dest,
            phase,
            targets: self.targets,
            outcomes: self.outcomes,
            failure: self.failure,
        }
    }

    /// The job with the current target done.
    fn close(self, outcome: LinkOutcome) -> (job: Job)
        requires
            self@.phase is Linking || self@.phase is Restoring,
        ensures
            job@ == self@.closed(outcome@),
    {
        proof {
            use_type_invariant(&self);
        }
        let ghost before = self.outcomes@;
        let mut outcomes = self.outcomes;
        outcomes.push(outcome);
        assert(outcomes_view(outcomes@) =~= outcomes_view(before).push(outcome@));
        Job::resume(self.mode, self.source, self.dest, self.targets, outcomes)
    }

    /// Takes the reply to the pending request. A reply that answers it gives
    /// the job after it; any other gives the job back as it was.
    pub fn advance(self, reply: &Reply) -> (next: Result<Job, Job>)
        ensures
            self@.wf(),
            match next {
                Ok(job) => self@.step(reply@) == Some(job@) && job@.wf(),
                Err(job) => self@.step(reply@) is None && job@ == self@,
            },
    {
        proof {
            use_type_invariant(&self);
        }
        match self.phase {
            Phase::Inspect => match reply {
                Reply::Kind(SourceKind::Directory) => Ok(self.at(Phase::Survey)),
                Reply::Kind(SourceKind::File) => Ok(self.plan_whole()),
                Reply::Failed(message) => match self.mode {
                    Mode::Link => Ok(self.stop(EntryFailure::SourceUnavailable(message.clone()))),
                    Mode::Restore => Ok(self.plan_whole()),
                },
                _ => Err(self),
            },
            Phase::Survey => match reply {
                Reply::Exists(true) => Ok(self.at(Phase::List)),
                Reply::Exists(false) => Ok(self.plan_whole()),
                _ => Err(self),
            },
            Phase::List => match reply {
                Reply::Names(names) => {
                    let targets = merge_targets(self.source.as_str(), self.dest.as_str(), names);
                    assert(outcomes_view(self.outcomes@) =~= Seq::empty());
                    Ok(Job::resume(self.mode, self.source, self.dest, targets, self.outcomes))
                },
                Reply::Failed(message) => Ok(
                    self.stop(EntryFailure::SourceUnreadable(message.clone())),
                ),
                _ => Err(self),
            },
            Phase::Linking(stage) => match link_step(stage, reply) {
                Turn::Next(stage) => Ok(self.at(Phase::Linking(stage))),
                Turn::Closed(outcome) => Ok(self.close(outcome)),
                Turn::Refused => Err(self),
            },
            Phase::Restoring(stage) => match restore_step(stage, reply) {
                Turn::Next(stage) => Ok(self.at(Phase::Restoring(stage))),
                Turn::Closed(outcome) => Ok(self.close(outcome)),
                Turn::Refused => Err(self),
            },
            Phase::Finished => Err(self),
        }
    }
}

/// The job that `mapping` asks for: to restore if `delete` is set, to link
/// otherwise. The source is taken below `root`, the root of the dotfiles
/// tree, and the destination is resolved against `home`.
pub fn create_mapping(mapping: &Mapping, delete: bool, root: &str, home: Option<&str>) -> (job:
    Result<Job, ResolveError>)
    ensures
        match job {
            Ok(job) => destination_of(mapping@.dest, option_view(home)) is Ok && job@
                == JobView::initial(
                if delete {
                    Mode::Restore
                } else {
                    Mode::Link
                },
                joined(root@, mapping@.source),
                destination_of(mapping@.dest, option_view(home))->Ok_0,
            ),
            Err(error) => destination_of(mapping@.dest, option_view(home)) == Err::<
                Seq<char>,
                ResolveError,
            >(error),
        },
{
    let mode = if delete {
        Mode::Restore
    } else {
        Mode::Link
    };
    let source = resolve_source(root, mapping.source.as_str());
    match resolve_destination(mapping.dest.as_str(), home) {
        Ok(dest) => Ok(Job::new(mode, source, dest)),
        Err(error) => Err(error),
    }
}

} // verus!
