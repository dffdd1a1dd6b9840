//! What holds of every job, whatever the file system and the user answer.

use vstd::prelude::*;
use crate::job::{merged, JobView, Phase};
use crate::paths::{backup_of, lemma_backup_is_longer, lemma_joined_is_below};
use crate::protocol::{Mode, Operation, OutcomeView, ReplyView, SourceKind, TargetView};
use crate::target::LinkStage;
use crate::world::{
    any_failed, completes, disk_after, effect, job_after, lemma_run_extends_outcomes,
    lemma_run_keeps_targets, lemma_run_keeps_wf, run, Disk, Node,
};

verus! {

/// Linking to a destination that is free makes the link there, pointing at
/// the source, and reports `Linked`. Nothing else changes. If the link
/// cannot be made, or nothing can be learned of the source, nothing changes
/// at all.
pub proof fn law_free_destination_is_linked(
    source: Seq<char>,
    dest: Seq<char>,
    disk: Disk,
    replies: Seq<ReplyView>,
    end: JobView,
    after: Disk,
)
    requires
        !disk.dom().contains(dest),
        completes(JobView::initial(Mode::Link, source, dest), disk, replies, end, after),
    ensures
        end.failure is Some ==> end.outcomes.len() == 0 && after == disk,
        end.failure is None ==> end.outcomes.len() == 1 && match end.outcomes[0] {
            OutcomeView::Linked => after == disk.insert(dest, Node::Link(source)),
            OutcomeView::Failed(operation, _) => operation == Operation::Link && after == disk,
            _ => false,
        },
        !any_failed(replies) ==> end.failure is None && end.outcomes[0] == OutcomeView::Linked,
{
    reveal_with_fuel(run, 6);
    assert(replies.len() > 0);
}

/// Whether the source turned out to be a directory.
pub open spec fn source_is_directory(replies: Seq<ReplyView>) -> bool {
    replies.len() > 0 && replies[0] == ReplyView::Kind(SourceKind::Directory)
}

/// Whether the user said yes, or no, at least once.
pub open spec fn user_said(replies: Seq<ReplyView>, agreed: bool) -> bool {
    exists|i: int| 0 <= i < replies.len() && replies[i] == ReplyView::Answer(agreed)
}

/// Linking to a destination that is taken, with a user who does not agree
/// to a backup, changes nothing and reports `Skipped`.
pub proof fn law_declined_backup_changes_nothing(
    source: Seq<char>,
    dest: Seq<char>,
    disk: Disk,
    replies: Seq<ReplyView>,
    end: JobView,
    after: Disk,
)
    requires
        disk.dom().contains(dest),
        !source_is_directory(replies),
        !user_said(replies, true),
        completes(JobView::initial(Mode::Link, source, dest), disk, replies, end, after),
    ensures
        after == disk,
        end.failure is None ==> end.outcomes == seq![OutcomeView::Skipped],
        end.failure is Some ==> end.outcomes.len() == 0 && replies[0] is Failed,
{
    reveal_with_fuel(run, 6);
    assert(replies.len() > 0);
    if end.failure is None {
        assert(replies[2] == ReplyView::Answer(false));
        assert(end.outcomes =~= seq![OutcomeView::Skipped]);
    }
}

/// Linking to a destination that is taken, with a user who agrees to a
/// backup and a system that refuses nothing: what stood at the destination
/// stands at its backup path, the destination is a link to the source, and
/// the report is `BackedUpThenLinked`.
pub proof fn law_accepted_backup_keeps_what_was_there(
    source: Seq<char>,
    dest: Seq<char>,
    disk: Disk,
    replies: Seq<ReplyView>,
    end: JobView,
    after: Disk,
)
    requires
        disk.dom().contains(dest),
        !source_is_directory(replies),
        !user_said(replies, false),
        !any_failed(replies),
        completes(JobView::initial(Mode::Link, source, dest), disk, replies, end, after),
    ensures
        end.failure is None,
        end.outcomes == seq![OutcomeView::BackedUpThenLinked],
        after == disk.remove(dest).insert(backup_of(dest), disk[dest]).insert(
            dest,
            Node::Link(source),
        ),
        after.dom().contains(backup_of(dest)) && after[backup_of(dest)] == disk[dest],
        after.dom().contains(dest) && after[dest] == Node::Link(source),
{
    reveal_with_fuel(run, 6);
    lemma_backup_is_longer(dest);
    assert(replies.len() > 0);
    assert(!(replies[0] is Failed));
    assert(replies[2] == ReplyView::Answer(true));
    assert(!(replies[3] is Failed));
    assert(!(replies[4] is Failed));
    assert(end.outcomes =~= seq![OutcomeView::BackedUpThenLinked]);
}

/// Restoring what a link with a backup replaced: the file system is again
/// as it was before the link, the backup is gone from its path, and the
/// report is `Restored`. This needs the backup path to have been free
/// before the link: a backup that was there already is overwritten.
pub proof fn law_restore_undoes_link(
    source: Seq<char>,
    dest: Seq<char>,
    disk: Disk,
    linking: Seq<ReplyView>,
    linked: JobView,
    between: Disk,
    restoring: Seq<ReplyView>,
    restored: JobView,
    after: Disk,
)
    requires
        disk.dom().contains(dest),
        !disk.dom().contains(backup_of(dest)),
        !source_is_directory(linking),
        !user_said(linking, false),
        !any_failed(linking),
        completes(JobView::initial(Mode::Link, source, dest), disk, linking, linked, between),
        !source_is_directory(restoring),
        !any_failed(restoring),
        completes(
            JobView::initial(Mode::Restore, source, dest),
            between,
            restoring,
            restored,
            after,
        ),
    ensures
        linked.outcomes == seq![OutcomeView::BackedUpThenLinked],
        restored.failure is None,
        restored.outcomes == seq![OutcomeView::Restored],
        after == disk,
        !after.dom().contains(backup_of(dest)),
{
    law_accepted_backup_keeps_what_was_there(source, dest, disk, linking, linked, between);
    reveal_with_fuel(run, 6);
    lemma_backup_is_longer(dest);
    assert(restoring.len() > 0);
    assert(!(restoring[0] is Failed));
    assert(!(restoring[2] is Failed));
    assert(!(restoring[4] is Failed));
    assert(restored.outcomes =~= seq![OutcomeView::Restored]);
    assert(after =~= disk);
}

/// Restoring where there is no backup removes what stands at the
/// destination and reports `NoBackupFound`. Restoring once more reports the
/// same and changes nothing.
pub proof fn law_restore_without_backup_twice(
    source: Seq<char>,
    dest: Seq<char>,
    disk: Disk,
    first: Seq<ReplyView>,
    once: JobView,
    between: Disk,
    second: Seq<ReplyView>,
    twice: JobView,
    after: Disk,
)
    requires
        !disk.dom().contains(backup_of(dest)),
        !source_is_directory(first),
        !any_failed(first),
        completes(JobView::initial(Mode::Restore, source, dest), disk, first, once, between),
        !source_is_directory(second),
        completes(JobView::initial(Mode::Restore, source, dest), between, second, twice, after),
    ensures
        once.failure is None && once.outcomes == seq![OutcomeView::NoBackupFound],
        between == disk.remove(dest),
        twice.failure is None && twice.outcomes == seq![OutcomeView::NoBackupFound],
        after == between,
{
    reveal_with_fuel(run, 6);
    lemma_backup_is_longer(dest);
    assert(first.len() > 0);
    assert(!(first[0] is Failed));
    if disk.dom().contains(dest) {
        assert(!(first[2] is Failed));
    }
    assert(once.outcomes =~= seq![OutcomeView::NoBackupFound]);
    assert(between =~= disk.remove(dest));
    assert(second.len() > 0);
    assert(twice.outcomes =~= seq![OutcomeView::NoBackupFound]);
}

/// Whether the work on `target` has to do with `path`: the path is the
/// destination of the target or its backup path.
pub open spec fn concerns(target: TargetView, path: Seq<char>) -> bool {
    path == target.dest || path == backup_of(target.dest)
}

/// A job leaves alone every path that none of its targets has to do with:
/// whatever the replies, what stands there afterwards is what stood there
/// before.
pub proof fn law_other_paths_are_left_alone(
    job: JobView,
    disk: Disk,
    replies: Seq<ReplyView>,
    path: Seq<char>,
)
    requires
        job.wf(),
        run(job, disk, replies) is Some,
        forall|i: int|
            0 <= i < job_after(job, disk, replies).targets.len() ==> !concerns(
                #[trigger] job_after(job, disk, replies).targets[i],
                path,
            ),
    ensures
        disk_after(job, disk, replies).dom().contains(path) == disk.dom().contains(path),
        disk_after(job, disk, replies)[path] == disk[path],
    decreases replies.len(),
{
    if replies.len() > 0 {
        let next = job.step(replies[0])->0;
        let request = job.request()->0;
        let then = effect(disk, request, replies[0]);
        if job.phase is Linking || job.phase is Restoring {
            lemma_run_keeps_targets(job, disk, replies);
            let end = job_after(job, disk, replies);
            assert(!concerns(end.targets[job.outcomes.len() as int], path));
        }
        assert(then.dom().contains(path) == disk.dom().contains(path));
        assert(then[path] == disk[path]);
        law_other_paths_are_left_alone(next, then, replies.drop_first(), path);
    }
}

/// A source that is a directory, with a destination that is there already,
/// is merged into it: the targets are the things in the source, each below
/// the destination, and the destination itself is neither replaced nor
/// removed, in either mode and whatever else happens.
pub proof fn law_merge_leaves_destination(
    mode: Mode,
    source: Seq<char>,
    dest: Seq<char>,
    disk: Disk,
    replies: Seq<ReplyView>,
)
    requires
        disk.dom().contains(dest),
        source_is_directory(replies),
        run(JobView::initial(mode, source, dest), disk, replies) is Some,
    ensures
        ({
            let end = job_after(JobView::initial(mode, source, dest), disk, replies);
            let after = disk_after(JobView::initial(mode, source, dest), disk, replies);
            &&& after.dom().contains(dest)
            &&& after[dest] == disk[dest]
            &&& replies.len() >= 3 ==> match replies[2] {
                ReplyView::Names(names) => end.targets == merged(source, dest, names),
                _ => end.targets.len() == 0,
            }
            &&& replies.len() < 3 ==> end.targets.len() == 0
        }),
{
    let job = JobView::initial(mode, source, dest);
    let end = job_after(job, disk, replies);
    reveal_with_fuel(run, 4);
    if replies.len() >= 3 {
        let listing = (JobView { phase: Phase::List, ..job });
        let planned = listing.step(replies[2])->0;
        let rest = replies.drop_first().drop_first().drop_first();
        assert(run(job, disk, replies) == run(planned, disk, rest));
        lemma_run_keeps_targets(planned, disk, rest);
    }
    assert forall|i: int| 0 <= i < end.targets.len() implies !concerns(
        #[trigger] end.targets[i],
        dest,
    ) by {
        let names = replies[2]->Names_0;
        lemma_joined_is_below(dest, names[i]);
    }
    law_other_paths_are_left_alone(job, disk, replies, dest);
}

/// Whether every outcome is `Linked`.
pub open spec fn all_linked(outcomes: Seq<OutcomeView>) -> bool {
    forall|i: int| 0 <= i < outcomes.len() ==> outcomes[i] == OutcomeView::Linked
}

/// Whether the targets done so far have their links in `disk`, with all of
/// `before` still in place.
pub open spec fn links_stand(job: JobView, before: Disk, disk: Disk) -> bool {
    &&& forall|i: int|
        0 <= i < job.outcomes.len() ==> disk.dom().contains(#[trigger] job.targets[i].dest)
            && disk[job.targets[i].dest] == Node::Link(job.targets[i].source)
    &&& forall|path: Seq<char>| #[trigger]
        before.dom().contains(path) ==> disk.dom().contains(path) && disk[path] == before[path]
}

/// Whether the current target can still end as `Linked`, and if its link is
/// about to be made, at a place that is free.
spec fn on_course(job: JobView, disk: Disk) -> bool {
    match job.phase {
        Phase::Linking(LinkStage::Probe) => true,
        Phase::Linking(LinkStage::Create) => !disk.dom().contains(job.current().dest),
        Phase::Linking(_) => false,
        _ => true,
    }
}

proof fn lemma_links_stand(job: JobView, before: Disk, disk: Disk, replies: Seq<ReplyView>)
    requires
        job.wf(),
        job.mode == Mode::Link,
        completes(
            job,
            disk,
            replies,
            job_after(job, disk, replies),
            disk_after(job, disk, replies),
        ),
        all_linked(job_after(job, disk, replies).outcomes),
        on_course(job, disk) ==> links_stand(job, before, disk),
    ensures
        links_stand(job_after(job, disk, replies), before, disk_after(job, disk, replies)),
    decreases replies.len(),
{
    if replies.len() > 0 {
        let next = job.step(replies[0])->0;
        let request = job.request()->0;
        let then = effect(disk, request, replies[0]);
        let rest = replies.drop_first();
        lemma_run_extends_outcomes(next, then, rest);
        if next.outcomes.len() > job.outcomes.len() {
            let closed = job.outcomes.len() as int;
            let target = job.current();
            assert(job_after(job, disk, replies).outcomes[closed] == next.outcomes[closed]);
            assert(next.outcomes[closed] == OutcomeView::Linked);
            assert(job.phase == Phase::Linking(LinkStage::Create));
            assert(then == disk.insert(target.dest, Node::Link(target.source)));
            assert(next.targets == job.targets);
            assert forall|i: int| 0 <= i < next.outcomes.len() implies then.dom().contains(
                #[trigger] next.targets[i].dest,
            ) && then[next.targets[i].dest] == Node::Link(next.targets[i].source) by {
                if i < closed {
                    assert(disk.dom().contains(job.targets[i].dest));
                }
            }
            assert forall|path: Seq<char>| #[trigger] before.dom().contains(path) implies then.dom().contains(
                path,
            ) && then[path] == before[path] by {
                assert(disk.dom().contains(path));
            }
            assert(links_stand(next, before, then));
        } else if on_course(next, then) {
            assert(next.outcomes =~= job.outcomes);
            assert(on_course(job, disk));
            assert(then == disk);
            assert forall|i: int| 0 <= i < next.outcomes.len() implies then.dom().contains(
                #[trigger] next.targets[i].dest,
            ) && then[next.targets[i].dest] == Node::Link(next.targets[i].source) by {
                assert(next.targets == job.targets);
                assert(disk.dom().contains(job.targets[i].dest));
            }
            assert(links_stand(next, before, then));
        }
        lemma_links_stand(next, before, then, rest);
    }
}

/// When linking ends with every target reported as `Linked`, each target's
/// destination holds a link to its source, and everything that was there
/// before is still in place. In a merge these are the things in the source,
/// each with a link of its own below the destination.
pub proof fn law_linked_targets_have_their_links(
    source: Seq<char>,
    dest: Seq<char>,
    disk: Disk,
    replies: Seq<ReplyView>,
    end: JobView,
    after: Disk,
)
    requires
        completes(JobView::initial(Mode::Link, source, dest), disk, replies, end, after),
        all_linked(end.outcomes),
    ensures
        forall|i: int|
            0 <= i < end.targets.len() ==> after.dom().contains(#[trigger] end.targets[i].dest)
                && after[end.targets[i].dest] == Node::Link(end.targets[i].source),
        forall|path: Seq<char>| #[trigger]
            disk.dom().contains(path) ==> after.dom().contains(path) && after[path] == disk[path],
{
    let job = JobView::initial(Mode::Link, source, dest);
    assert(job_after(job, disk, replies) == end);
    assert(disk_after(job, disk, replies) == after);
    lemma_run_keeps_wf(job, disk, replies);
    lemma_links_stand(job, disk, disk, replies);
}

} // verus!
