//! What passes between the engine and whoever drives it.
//!
//! The engine never touches the file system or the console. It hands out a
//! [`Request`], the driver carries it out and hands back a [`Reply`].

use vstd::prelude::*;

verus! {

/// What a run is for.
#[derive(Clone, Copy, Debug, PartialEq, Eq, Structural)]
pub enum Mode {
    /// Put links in place.
    Link,
    /// Take links away and put back what they replaced.
    Restore,
}

/// What stands at a source path.
#[derive(Clone, Copy, Debug, PartialEq, Eq, Structural)]
pub enum SourceKind {
    /// Anything but a directory.
    File,
    /// A directory.
    Directory,
}

/// An operation on the file system that can fail.
#[derive(Clone, Copy, Debug, PartialEq, Eq, Structural)]
pub enum Operation {
    /// Renaming a destination to its backup path.
    Backup,
    /// Creating a symbolic link.
    Link,
    /// Removing a destination.
    Remove,
    /// Renaming a backup to the path it came from.
    Reinstate,
}

/// One thing for the driver to do.
#[derive(Clone, Debug, PartialEq, Eq)]
pub enum Request {
    /// Find out what stands at `path`, following links.
    Inspect { path: String },
    /// Find out whether anything stands at `path`.
    Exists { path: String },
    /// Name what the directory `path` holds.
    List { path: String },
    /// Ask the user whether what stands at `path` may be set aside.
    Confirm { path: String },
    /// Rename `from` to `to`.
    Rename { from: String, to: String },
    /// Create at `dest` a symbolic link to `source`.
    Symlink { source: String, dest: String },
    /// Remove `path`.
    Remove { path: String },
}

/// A request as the contracts see it.
pub enum RequestView {
    Inspect { path: Seq<char> },
    Exists { path: Seq<char> },
    List { path: Seq<char> },
    Confirm { path: Seq<char> },
    Rename { from: Seq<char>, to: Seq<char> },
    Symlink { source: Seq<char>, dest: Seq<char> },
    Remove { path: Seq<char> },
}

impl View for Request {
    type V = RequestView;

    open spec fn view(&self) -> RequestView {
        match *self {
            Request::Inspect { path } => RequestView::Inspect { path: path@ },
            Request::Exists { path } => RequestView::Exists { path: path@ },
            Request::List { path } => RequestView::List { path: path@ },
            Request::Confirm { path } => RequestView::Confirm { path: path@ },
            Request::Rename { from, to } => RequestView::Rename { from: from@, to: to@ },
            Request::Symlink { source, dest } => RequestView::Symlink {
                source: source@,
                dest: dest@,
            },
            Request::Remove { path } => RequestView::Remove { path: path@ },
        }
    }
}

/// What the driver found or did.
#[derive(Clone, Debug, PartialEq, Eq)]
pub enum Reply {
    /// Answers `Inspect`: what stands there.
    Kind(SourceKind),
    /// Answers `Exists`.
    Exists(bool),
    /// Answers `List`: the names in the directory.
    Names(Vec<String>),
    /// Answers `Confirm`: whether the user agreed.
    Answer(bool),
    /// The operation was carried out.
    Done,
    /// The system refused, with its own words.
    Failed(String),
}

/// A reply as the contracts see it.
pub enum ReplyView {
    Kind(SourceKind),
    Exists(bool),
    Names(Seq<Seq<char>>),
    Answer(bool),
    Done,
    Failed(Seq<char>),
}

impl View for Reply {
    type V = ReplyView;

    open spec fn view(&self) -> ReplyView {
        match *self {
            Reply::Kind(kind) => ReplyView::Kind(kind),
            Reply::Exists(found) => ReplyView::Exists(found),
            Reply::Names(names) => ReplyView::Names(names.deep_view()),
            Reply::Answer(agreed) => ReplyView::Answer(agreed),
            Reply::Done => ReplyView::Done,
            Reply::Failed(message) => ReplyView::Failed(message@),
        }
    }
}

/// How the work on one target ended.
#[derive(Clone, Debug, PartialEq, Eq)]
pub enum LinkOutcome {
    /// The destination was free and the link was made.
    Linked,
    /// Something stood at the destination and the user kept it.
    Skipped,
    /// What stood at the destination was set aside and the link was made.
    BackedUpThenLinked,
    /// The backup is back at the destination.
    Restored,
    /// There was no backup to put back.
    NoBackupFound,
    /// An operation failed, with the system's words.
    Failed(Operation, String),
}

/// An outcome as the contracts see it.
pub enum OutcomeView {
    Linked,
    Skipped,
    BackedUpThenLinked,
    Restored,
    NoBackupFound,
    Failed(Operation, Seq<char>),
}

impl View for LinkOutcome {
    type V = OutcomeView;

    open spec fn view(&self) -> OutcomeView {
        match *self {
            LinkOutcome::Linked => OutcomeView::Linked,
            LinkOutcome::Skipped => OutcomeView::Skipped,
            LinkOutcome::BackedUpThenLinked => OutcomeView::BackedUpThenLinked,
            LinkOutcome::Restored => OutcomeView::Restored,
            LinkOutcome::NoBackupFound => OutcomeView::NoBackupFound,
            LinkOutcome::Failed(operation, message) => OutcomeView::Failed(operation, message@),
        }
    }
}

/// A source and the destination at which a link to it belongs.
#[derive(Clone, Debug, PartialEq, Eq)]
pub struct Target {
    pub source: String,
    pub dest: String,
}

/// A target as the contracts see it.
pub struct TargetView {
    pub source: Seq<char>,
    pub dest: Seq<char>,
}

impl View for Target {
    type V = TargetView;

    open spec fn view(&self) -> TargetView {
        TargetView { source: self.source@, dest: self.dest@ }
    }
}

} // verus!
