//! The work on one target, step by step.
//!
//! A target is taken through a few stages. At each stage one request is
//! pending, and the reply to it decides the next stage or the outcome.

use vstd::prelude::*;
use crate::paths::{backup_of, backup_path};
use crate::protocol::{
    LinkOutcome, Operation, OutcomeView, Reply, ReplyView, Request, RequestView, Target,
    TargetView,
};

verus! {

/// Where the linking of one target stands.
#[derive(Clone, Copy, Debug, PartialEq, Eq, Structural)]
pub enum LinkStage {
    /// Is the destination taken?
    Probe,
    /// It is taken: may it be set aside?
    Confirm,
    /// It is being set aside.
    Backup,
    /// The link is being made at a destination that was free.
    Create,
    /// The link is being made where a backup was taken.
    Replace,
}

/// Where the restoring of one target stands.
#[derive(Clone, Copy, Debug, PartialEq, Eq, Structural)]
pub enum RestoreStage {
    /// Is there anything at the destination?
    Probe,
    /// What is there is being removed.
    Remove,
    /// Is there a backup?
    Lookup,
    /// The backup is being put back.
    Reinstate,
}

/// What a reply leads to.
pub enum Turn<S> {
    /// The work goes on at another stage.
    Next(S),
    /// The work on the target is over.
    Closed(LinkOutcome),
    /// The reply does not answer the pending request.
    Refused,
}

/// A turn as the contracts see it.
pub enum TurnView<S> {
    Next(S),
    Closed(OutcomeView),
    Refused,
}

impl<S> View for Turn<S> {
    type V = TurnView<S>;

    open spec fn view(&self) -> TurnView<S> {
        match *self {
            Turn::Next(stage) => TurnView::Next(stage),
            Turn::Closed(outcome) => TurnView::Closed(outcome@),
            Turn::Refused => TurnView::Refused,
        }
    }
}

/// The request that is pending at a stage of linking.
pub open spec fn link_request_of(target: TargetView, stage: LinkStage) -> RequestView {
    match stage {
        LinkStage::Probe => RequestView::Exists { path: target.dest },
        LinkStage::Confirm => RequestView::Confirm { path: target.dest },
        LinkStage::Backup => RequestView::Rename { from: target.dest, to: backup_of(target.dest) },
        LinkStage::Create | LinkStage::Replace => RequestView::Symlink {
            source: target.source,
            dest: target.dest,
        },
    }
}

/// Linking: a free destination gets its link at once. A taken one is set
/// aside first, if the user agrees, and left alone otherwise. A failure ends
/// the work on the target.
pub open spec fn link_turn(stage: LinkStage, reply: ReplyView) -> TurnView<LinkStage> {
    match (stage, reply) {
        (LinkStage::Probe, ReplyView::Exists(false)) => TurnView::Next(LinkStage::Create),
        (LinkStage::Probe, ReplyView::Exists(true)) => TurnView::Next(LinkStage::Confirm),
        (LinkStage::Confirm, ReplyView::Answer(true)) => TurnView::Next(LinkStage::Backup),
        (LinkStage::Confirm, ReplyView::Answer(false)) => TurnView::Closed(OutcomeView::Skipped),
        (LinkStage::Backup, ReplyView::Done) => TurnView::Next(LinkStage::Replace),
        (LinkStage::Backup, ReplyView::Failed(message)) => TurnView::Closed(
            OutcomeView::Failed(Operation::Backup, message),
        ),
        (LinkStage::Create, ReplyView::Done) => TurnView::Closed(OutcomeView::Linked),
        (LinkStage::Replace, ReplyView::Done) => TurnView::Closed(
            OutcomeView::BackedUpThenLinked,
        ),
        (LinkStage::Create, ReplyView::Failed(message)) | (
            LinkStage::Replace,
            ReplyView::Failed(message),
        ) => TurnView::Closed(OutcomeView::Failed(Operation::Link, message)),
        _ => TurnView::Refused,
    }
}

/// The request that is pending at a stage of restoring.
pub open spec fn restore_request_of(target: TargetView, stage: RestoreStage) -> RequestView {
    match stage {
        RestoreStage::Probe => RequestView::Exists { path: target.dest },
        RestoreStage::Remove => RequestView::Remove { path: target.dest },
        RestoreStage::Lookup => RequestView::Exists { path: backup_of(target.dest) },
        RestoreStage::Reinstate => RequestView::Rename {
            from: backup_of(target.dest),
            to: target.dest,
        },
    }
}

/// Restoring: what stands at the destination is removed, then the backup, if
/// there is one, is put back. That there is none is no failure.
pub open spec fn restore_turn(stage: RestoreStage, reply: ReplyView) -> TurnView<RestoreStage> {
    match (stage, reply) {
        (RestoreStage::Probe, ReplyView::Exists(true)) => TurnView::Next(RestoreStage::Remove),
        (RestoreStage::Probe, ReplyView::Exists(false)) => TurnView::Next(RestoreStage::Lookup),
        (RestoreStage::Remove, ReplyView::Done) => TurnView::Next(RestoreStage::Lookup),
        (RestoreStage::Remove, ReplyView::Failed(message)) => TurnView::Closed(
            OutcomeView::Failed(Operation::Remove, message),
        ),
        (RestoreStage::Lookup, ReplyView::Exists(true)) => TurnView::Next(
            RestoreStage::Reinstate,
        ),
        (RestoreStage::Lookup, ReplyView::Exists(false)) => TurnView::Closed(
            OutcomeView::NoBackupFound,
        ),
        (RestoreStage::Reinstate, ReplyView::Done) => TurnView::Closed(OutcomeView::Restored),
        (RestoreStage::Reinstate, ReplyView::Failed(message)) => TurnView::Closed(
            OutcomeView::Failed(Operation::Reinstate, message),
        ),
        _ => TurnView::Refused,
    }
}

/// The request to carry out for `target` at `stage` of linking.
pub fn link_request(target: &Target, stage: LinkStage) -> (request: Request)
    ensures
        request@ == link_request_of(target@, stage),
{
    match stage {
        LinkStage::Probe => Request::Exists { path: target.dest.clone() },
        LinkStage::Confirm => Request::Confirm { path: target.dest.clone() },
        LinkStage::Backup => Request::Rename {
            from: target.dest.clone(),
            to: backup_path(target.dest.as_str()),
        },
        LinkStage::Create | LinkStage::Replace => Request::Symlink {
            source: target.source.clone(),
            dest: target.dest.clone(),
        },
    }
}

/// What `reply` leads to at `stage` of linking.
pub fn link_step(stage: LinkStage, reply: &Reply) -> (turn: Turn<LinkStage>)
    ensures
        turn@ == link_turn(stage, reply@),
{
    match stage {
        LinkStage::Probe => match reply {
            Reply::Exists(false) => Turn::Next(LinkStage::Create),
            Reply::Exists(true) => Turn::Next(LinkStage::Confirm),
            _ => Turn::Refused,
        },
        LinkStage::Confirm => match reply {
            Reply::Answer(true) => Turn::Next(LinkStage::Backup),
            Reply::Answer(false) => Turn::Closed(LinkOutcome::Skipped),
            _ => Turn::Refused,
        },
        LinkStage::Backup => match reply {
            Reply::Done => Turn::Next(LinkStage::Replace),
            Reply::Failed(message) => Turn::Closed(
                LinkOutcome::Failed(Operation::Backup, message.clone()),
            ),
            _ => Turn::Refused,
        },
        LinkStage::Create => match reply {
            Reply::Done => Turn::Closed(LinkOutcome::Linked),
            Reply::Failed(message) => Turn::Closed(
                LinkOutcome::Failed(Operation::Link, message.clone()),
            ),
            _ => Turn::Refused,
        },
        LinkStage::Replace => match reply {
            Reply::Done => Turn::Closed(LinkOutcome::BackedUpThenLinked),
            Reply::Failed(message) => Turn::Closed(
                LinkOutcome::Failed(Operation::Link, message.clone()),
            ),
            _ => Turn::Refused,
        },
    }
}

/// The request to carry out for `target` at `stage` of restoring.
pub fn restore_request(target: &Target, stage: RestoreStage) -> (request: Request)
    ensures
        request@ == restore_request_of(target@, stage),
{
    match stage {
        RestoreStage::Probe => Request::Exists { path: target.dest.clone() },
        RestoreStage::Remove => Request::Remove { path: target.dest.clone() },
        RestoreStage::Lookup => Request::Exists { path: backup_path(target.dest.as_str()) },
        RestoreStage::Reinstate => Request::Rename {
            from: backup_path(target.dest.as_str()),
            to: target.dest.clone(),
        },
    }
}

/// What `reply` leads to at `stage` of restoring.
pub fn restore_step(stage: RestoreStage, reply: &Reply) -> (turn: Turn<RestoreStage>)
    ensures
        turn@ == restore_turn(stage, reply@),
{
    match stage {
        RestoreStage::Probe => match reply {
            Reply::Exists(true) => Turn::Next(RestoreStage::Remove),
            Reply::Exists(false) => Turn::Next(RestoreStage::Lookup),
            _ => Turn::Refused,
        },
        RestoreStage::Remove => match reply {
            Reply::Done => Turn::Next(RestoreStage::Lookup),
            Reply::Failed(message) => Turn::Closed(
                LinkOutcome::Failed(Operation::Remove, message.clone()),
            ),
            _ => Turn::Refused,
        },
        RestoreStage::Lookup => match reply {
            Reply::Exists(true) => Turn::Next(RestoreStage::Reinstate),
            Reply::Exists(false) => Turn::Closed(LinkOutcome::NoBackupFound),
            _ => Turn::Refused,
        },
        RestoreStage::Reinstate => match reply {
            Reply::Done => Turn::Closed(LinkOutcome::Restored),
            Reply::Failed(message) => Turn::Closed(
                LinkOutcome::Failed(Operation::Reinstate, message.clone()),
            ),
            _ => Turn::Refused,
        },
    }
}

} // verus!
