//! A model of the file system, to say what a job does to it.
//!
//! The model is a map from paths to what stands there. It knows nothing of
//! directories within directories: each path is a place of its own. That is
//! enough to follow a job, which works on a destination and on its backup
//! path and on nothing else.

use vstd::prelude::*;
use crate::job::{lemma_step_keeps_wf, JobView};
use crate::protocol::{ReplyView, RequestView};

verus! {

/// What stands at a path.
pub enum Node {
    /// A symbolic link to the path it holds.
    Link(Seq<char>),
    /// Anything else, told apart by a number that stands for all it holds.
    Kept(int),
}

/// What stands where.
pub type Disk = Map<Seq<char>, Node>;

/// Whether `reply` is an answer that a file system in the state `disk` can
/// give to `request`.
///
/// What stands at a source, what a directory holds and what the user says is
/// not part of the model: any answer of the right form can come. Whether a
/// path is taken is read from the model. An operation may always fail. It
/// can succeed only where the system lets it: a rename or a removal of what
/// is there, a link at a place that is free.
pub open spec fn possible(disk: Disk, request: RequestView, reply: ReplyView) -> bool {
    match request {
        RequestView::Inspect { .. } => reply is Kind || reply is Failed,
        RequestView::Exists { path } => reply == ReplyView::Exists(disk.dom().contains(path)),
        RequestView::List { .. } => reply is Names || reply is Failed,
        RequestView::Confirm { .. } => reply is Answer,
        RequestView::Rename { from, .. } => reply is Failed || (reply is Done
            && disk.dom().contains(from)),
        RequestView::Symlink { dest, .. } => reply is Failed || (reply is Done
            && !disk.dom().contains(dest)),
        RequestView::Remove { path } => reply is Failed || (reply is Done && disk.dom().contains(
            path,
        )),
    }
}

/// The state of the file system after `request` was answered by `reply`.
/// Only an operation that was carried out changes anything.
pub open spec fn effect(disk: Disk, request: RequestView, reply: ReplyView) -> Disk {
    if reply is Done {
        match request {
            RequestView::Rename { from, to } => disk.remove(from).insert(to, disk[from]),
            RequestView::Symlink { source, dest } => disk.insert(dest, Node::Link(source)),
            RequestView::Remove { path } => disk.remove(path),
            _ => disk,
        }
    } else {
        disk
    }
}

/// The job and the file system after the driver has handed over `replies`,
/// one after the other, each to the request that was pending. Nothing if one
/// of them could not have come, or came when no request was pending.
pub open spec fn run(job: JobView, disk: Disk, replies: Seq<ReplyView>) -> Option<(JobView, Disk)>
    decreases replies.len(),
{
    if replies.len() == 0 {
        Some((job, disk))
    } else {
        match (job.request(), job.step(replies[0])) {
            (Some(request), Some(next)) => if possible(disk, request, replies[0]) {
                run(next, effect(disk, request, replies[0]), replies.drop_first())
            } else {
                None
            },
            _ => None,
        }
    }
}

/// The job after `replies`, where they could come; the job itself otherwise.
pub open spec fn job_after(job: JobView, disk: Disk, replies: Seq<ReplyView>) -> JobView {
    match run(job, disk, replies) {
        Some(reached) => reached.0,
        None => job,
    }
}

/// The file system after `replies`, where they could come; unchanged
/// otherwise.
pub open spec fn disk_after(job: JobView, disk: Disk, replies: Seq<ReplyView>) -> Disk {
    match run(job, disk, replies) {
        Some(reached) => reached.1,
        None => disk,
    }
}

/// Whether the driver has taken `job` from the state `disk` to its end by
/// `replies`, leaving `after`.
pub open spec fn completes(
    job: JobView,
    disk: Disk,
    replies: Seq<ReplyView>,
    end: JobView,
    after: Disk,
) -> bool {
    run(job, disk, replies) == Some((end, after)) && end.request() is None
}

/// Whether any operation failed.
pub open spec fn any_failed(replies: Seq<ReplyView>) -> bool {
    exists|i: int| 0 <= i < replies.len() && replies[i] is Failed
}

/// Every job that can come about is still one after any replies.
pub proof fn lemma_run_keeps_wf(job: JobView, disk: Disk, replies: Seq<ReplyView>)
    requires
        job.wf(),
    ensures
        job_after(job, disk, replies).wf(),
    decreases replies.len(),
{
    if replies.len() > 0 && run(job, disk, replies) is Some {
        let next = job.step(replies[0])->0;
        let request = job.request()->0;
        lemma_step_keeps_wf(job, replies[0]);
        lemma_run_keeps_wf(next, effect(disk, request, replies[0]), replies.drop_first());
    }
}

/// Once the targets of a job are known they stay as they are.
pub proof fn lemma_run_keeps_targets(job: JobView, disk: Disk, replies: Seq<ReplyView>)
    requires
        job.wf(),
        !(job.phase is Inspect || job.phase is Survey || job.phase is List),
        run(job, disk, replies) is Some,
    ensures
        job_after(job, disk, replies).targets == job.targets,
    decreases replies.len(),
{
    if replies.len() > 0 {
        let next = job.step(replies[0])->0;
        let request = job.request()->0;
        lemma_run_keeps_targets(next, effect(disk, request, replies[0]), replies.drop_first());
    }
}

/// The outcomes that a job has reported stay as they are, in their order.
pub proof fn lemma_run_extends_outcomes(job: JobView, disk: Disk, replies: Seq<ReplyView>)
    requires
        job.wf(),
        run(job, disk, replies) is Some,
    ensures
        job.outcomes.len() <= job_after(job, disk, replies).outcomes.len(),
        forall|i: int|
            0 <= i < job.outcomes.len() ==> job_after(job, disk, replies).outcomes[i]
                == job.outcomes[i],
    decreases replies.len(),
{
    if replies.len() > 0 {
        let next = job.step(replies[0])->0;
        let request = job.request()->0;
        let then = effect(disk, request, replies[0]);
        let rest = replies.drop_first();
        lemma_run_extends_outcomes(next, then, rest);
        let end = job_after(job, disk, replies);
        assert(end == job_after(next, then, rest));
        assert forall|i: int| 0 <= i < job.outcomes.len() implies end.outcomes[i]
            == job.outcomes[i] by {
            assert(next.outcomes[i] == job.outcomes[i]);
        }
    }
}

} // verus!
