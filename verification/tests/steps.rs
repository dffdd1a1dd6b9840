use easydot::protocol::{LinkOutcome, Operation, Reply, Request, SourceKind, Target};
use easydot::target::{
    link_request, link_step, restore_request, restore_step, LinkStage, RestoreStage, Turn,
};

fn target() -> Target {
    Target { source: String::from("/d/vimrc"), dest: String::from("/h/.vimrc") }
}

fn failed(words: &str) -> Reply {
    Reply::Failed(String::from(words))
}

fn closed<S>(turn: Turn<S>) -> Option<LinkOutcome> {
    match turn {
        Turn::Closed(outcome) => Some(outcome),
        _ => None,
    }
}

fn next<S>(turn: Turn<S>) -> Option<S> {
    match turn {
        Turn::Next(stage) => Some(stage),
        _ => None,
    }
}

fn refused<S>(turn: Turn<S>) -> bool {
    matches!(turn, Turn::Refused)
}

#[test]
fn link_requests_name_the_right_paths() {
    let t = target();
    assert_eq!(
        link_request(&t, LinkStage::Probe),
        Request::Exists { path: String::from("/h/.vimrc") }
    );
    assert_eq!(
        link_request(&t, LinkStage::Confirm),
        Request::Confirm { path: String::from("/h/.vimrc") }
    );
    assert_eq!(
        link_request(&t, LinkStage::Backup),
        Request::Rename {
            from: String::from("/h/.vimrc"),
            to: String::from("/h/.vimrc.edbackup")
        }
    );
    let link =
        Request::Symlink { source: String::from("/d/vimrc"), dest: String::from("/h/.vimrc") };
    assert_eq!(link_request(&t, LinkStage::Create), link);
    assert_eq!(link_request(&t, LinkStage::Replace), link);
}

#[test]
fn restore_requests_name_the_right_paths() {
    let t = target();
    assert_eq!(
        restore_request(&t, RestoreStage::Probe),
        Request::Exists { path: String::from("/h/.vimrc") }
    );
    assert_eq!(
        restore_request(&t, RestoreStage::Remove),
        Request::Remove { path: String::from("/h/.vimrc") }
    );
    assert_eq!(
        restore_request(&t, RestoreStage::Lookup),
        Request::Exists { path: String::from("/h/.vimrc.edbackup") }
    );
    assert_eq!(
        restore_request(&t, RestoreStage::Reinstate),
        Request::Rename {
            from: String::from("/h/.vimrc.edbackup"),
            to: String::from("/h/.vimrc")
        }
    );
}

#[test]
fn linking_goes_through_its_stages() {
    assert_eq!(next(link_step(LinkStage::Probe, &Reply::Exists(false))), Some(LinkStage::Create));
    assert_eq!(next(link_step(LinkStage::Probe, &Reply::Exists(true))), Some(LinkStage::Confirm));
    assert_eq!(next(link_step(LinkStage::Confirm, &Reply::Answer(true))), Some(LinkStage::Backup));
    assert_eq!(next(link_step(LinkStage::Backup, &Reply::Done)), Some(LinkStage::Replace));
}

#[test]
fn linking_ends_with_its_outcomes() {
    assert_eq!(closed(link_step(LinkStage::Create, &Reply::Done)), Some(LinkOutcome::Linked));
    assert_eq!(
        closed(link_step(LinkStage::Replace, &Reply::Done)),
        Some(LinkOutcome::BackedUpThenLinked)
    );
    assert_eq!(
        closed(link_step(LinkStage::Confirm, &Reply::Answer(false))),
        Some(LinkOutcome::Skipped)
    );
    assert_eq!(
        closed(link_step(LinkStage::Backup, &failed("busy"))),
        Some(LinkOutcome::Failed(Operation::Backup, String::from("busy")))
    );
    assert_eq!(
        closed(link_step(LinkStage::Create, &failed("denied"))),
        Some(LinkOutcome::Failed(Operation::Link, String::from("denied")))
    );
    assert_eq!(
        closed(link_step(LinkStage::Replace, &failed("denied"))),
        Some(LinkOutcome::Failed(Operation::Link, String::from("denied")))
    );
}

#[test]
fn linking_refuses_replies_to_other_requests() {
    assert!(refused(link_step(LinkStage::Probe, &Reply::Done)));
    assert!(refused(link_step(LinkStage::Probe, &failed("x"))));
    assert!(refused(link_step(LinkStage::Probe, &Reply::Answer(true))));
    assert!(refused(link_step(LinkStage::Confirm, &Reply::Exists(true))));
    assert!(refused(link_step(LinkStage::Confirm, &failed("x"))));
    assert!(refused(link_step(LinkStage::Backup, &Reply::Answer(true))));
    assert!(refused(link_step(LinkStage::Create, &Reply::Exists(false))));
    assert!(refused(link_step(LinkStage::Replace, &Reply::Kind(SourceKind::File))));
    assert!(refused(link_step(LinkStage::Create, &Reply::Names(vec![]))));
}

#[test]
fn restoring_goes_through_its_stages() {
    assert_eq!(
        next(restore_step(RestoreStage::Probe, &Reply::Exists(true))),
        Some(RestoreStage::Remove)
    );
    assert_eq!(
        next(restore_step(RestoreStage::Probe, &Reply::Exists(false))),
        Some(RestoreStage::Lookup)
    );
    assert_eq!(next(restore_step(RestoreStage::Remove, &Reply::Done)), Some(RestoreStage::Lookup));
    assert_eq!(
        next(restore_step(RestoreStage::Lookup, &Reply::Exists(true))),
        Some(RestoreStage::Reinstate)
    );
}

#[test]
fn restoring_ends_with_its_outcomes() {
    assert_eq!(
        closed(restore_step(RestoreStage::Lookup, &Reply::Exists(false))),
        Some(LinkOutcome::NoBackupFound)
    );
    assert_eq!(
        closed(restore_step(RestoreStage::Reinstate, &Reply::Done)),
        Some(LinkOutcome::Restored)
    );
    assert_eq!(
        closed(restore_step(RestoreStage::Remove, &failed("denied"))),
        Some(LinkOutcome::Failed(Operation::Remove, String::from("denied")))
    );
    assert_eq!(
        closed(restore_step(RestoreStage::Reinstate, &failed("gone"))),
        Some(LinkOutcome::Failed(Operation::Reinstate, String::from("gone")))
    );
}

#[test]
fn restoring_refuses_replies_to_other_requests() {
    assert!(refused(restore_step(RestoreStage::Probe, &Reply::Done)));
    assert!(refused(restore_step(RestoreStage::Remove, &Reply::Exists(true))));
    assert!(refused(restore_step(RestoreStage::Lookup, &Reply::Done)));
    assert!(refused(restore_step(RestoreStage::Lookup, &failed("x"))));
    assert!(refused(restore_step(RestoreStage::Reinstate, &Reply::Answer(false))));
}
