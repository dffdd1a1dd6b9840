//! Path resolution: from the strings of a mapping to absolute paths.
//!
//! Nothing here touches the file system. A path is a sequence of characters,
//! and every function says which sequence it returns.

use vstd::prelude::*;
use vstd::string::*;

verus! {

/// The marker that stands for the home directory in a destination.
pub open spec fn home_marker() -> char {
    '~'
}

/// `path` with every home marker replaced by `home`, and every other
/// character kept.
pub open spec fn expand_home(path: Seq<char>, home: Seq<char>) -> Seq<char>
    decreases path.len(),
{
    if path.len() == 0 {
        Seq::empty()
    } else if path.last() == home_marker() {
        expand_home(path.drop_last(), home) + home
    } else {
        expand_home(path.drop_last(), home).push(path.last())
    }
}

/// The absolute destination that `dest` stands for. The home directory is
/// needed only where `dest` holds a marker.
pub open spec fn destination_of(dest: Seq<char>, home: Option<Seq<char>>) -> Result<
    Seq<char>,
    ResolveError,
> {
    if !dest.contains(home_marker()) {
        Ok(dest)
    } else {
        match home {
            Some(home) => Ok(expand_home(dest, home)),
            None => Err(ResolveError::HomeDirectoryUnavailable),
        }
    }
}

/// `name` below the directory `parent`.
pub open spec fn joined(parent: Seq<char>, name: Seq<char>) -> Seq<char> {
    parent.push('/') + name
}

/// The root of the dotfiles tree below the working directory `cwd`.
pub open spec fn tree_root(cwd: Seq<char>) -> Seq<char> {
    joined(cwd, "dotfiles"@)
}

/// Where whatever stood at `path` is kept while a link takes its place: the
/// whole of `path` with the suffix behind it.
pub open spec fn backup_of(path: Seq<char>) -> Seq<char> {
    path + ".edbackup"@
}

/// Why a destination could not be resolved.
#[derive(Clone, Copy, Debug, PartialEq, Eq, Structural)]
pub enum ResolveError {
    /// The destination holds a home marker and no home directory is known.
    HomeDirectoryUnavailable,
}

/// `String::push` appends one character and changes nothing else.
pub assume_specification[ String::push ](s: &mut String, ch: char)
    ensures
        final(s)@ == old(s)@.push(ch),
;

/// Whether `path` holds a home marker.
pub fn has_home_marker(path: &str) -> (found: bool)
    ensures
        found == path@.contains(home_marker()),
{
    let mut found = false;
    for c in it: path.chars()
        invariant
            it.seq() == path@,
            found <==> exists|j: int| 0 <= j < it.index() && path@[j] == home_marker(),
    {
        if c == '~' {
            found = true;
        }
    }
    found
}

/// `path` with `home` in place of every home marker.
pub fn expand(path: &str, home: &str) -> (expanded: String)
    ensures
        expanded@ == expand_home(path@, home@),
{
    let mut expanded = String::new();
    for c in it: path.chars()
        invariant
            it.seq() == path@,
            expanded@ == expand_home(path@.take(it.index() as int), home@),
    {
        proof {
            let next = path@.take(it.index() + 1);
            assert(next.drop_last() == path@.take(it.index() as int));
            assert(next.last() == c);
        }
        if c == '~' {
            expanded.append(home);
        } else {
            expanded.push(c);
        }
    }
    proof {
        assert(path@.take(path@.len() as int) == path@);
    }
    expanded
}

/// The absolute destination for `dest`, given the home directory if one is
/// known. A destination without a marker comes back as it is.
pub fn resolve_destination(dest: &str, home: Option<&str>) -> (resolved: Result<
    String,
    ResolveError,
>)
    ensures
        match resolved {
            Ok(path) => destination_of(dest@, option_view(home)) == Ok::<Seq<char>, ResolveError>(
                path@,
            ),
            Err(error) => destination_of(dest@, option_view(home)) == Err::<
                Seq<char>,
                ResolveError,
            >(error),
        },
{
    if !has_home_marker(dest) {
        return Ok(dest.to_owned());
    }
    match home {
        Some(home) => Ok(expand(dest, home)),
        None => Err(ResolveError::HomeDirectoryUnavailable),
    }
}

/// What an optional string holds.
pub open spec fn option_view(text: Option<&str>) -> Option<Seq<char>> {
    match text {
        Some(text) => Some(text@),
        None => None,
    }
}

/// The path of `name` below `parent`.
pub fn join(parent: &str, name: &str) -> (path: String)
    ensures
        path@ == joined(parent@, name@),
{
    let mut path = parent.to_owned();
    path.push('/');
    path.append(name);
    path
}

/// The root of the dotfiles tree: the folder `dotfiles` below `cwd`.
pub fn source_root(cwd: &str) -> (root: String)
    ensures
        root@ == tree_root(cwd@),
{
    join(cwd, "dotfiles")
}

/// The absolute path of `source` below the root of the dotfiles tree.
/// Whether anything is there is not looked at.
pub fn resolve_source(root: &str, source: &str) -> (path: String)
    ensures
        path@ == joined(root@, source@),
{
    join(root, source)
}

/// The path at which a backup of `path` is kept.
pub fn backup_path(path: &str) -> (backup: String)
    ensures
        backup@ == backup_of(path@),
{
    let mut backup = path.to_owned();
    backup.append(".edbackup");
    backup
}

/// Expansion goes through a path piece by piece.
pub proof fn lemma_expand_home_concat(front: Seq<char>, back: Seq<char>, home: Seq<char>)
    ensures
        expand_home(front + back, home) == expand_home(front, home) + expand_home(back, home),
    decreases back.len(),
{
    if back.len() == 0 {
        assert(front + back == front);
    } else {
        let whole = front + back;
        assert(whole.drop_last() == front + back.drop_last());
        assert(whole.last() == back.last());
        lemma_expand_home_concat(front, back.drop_last(), home);
    }
}

/// A path without a home marker is its own expansion.
pub proof fn lemma_expand_home_plain(path: Seq<char>, home: Seq<char>)
    requires
        !path.contains(home_marker()),
    ensures
        expand_home(path, home) == path,
    decreases path.len(),
{
    if path.len() > 0 {
        let front = path.drop_last();
        assert forall|i: int| 0 <= i < front.len() implies front[i] != home_marker() by {
            assert(path[i] == front[i]);
            assert(path.contains(path[i]));
        }
        assert(path.contains(path.last()));
        lemma_expand_home_plain(front, home);
        assert(front.push(path.last()) == path);
    }
}

/// A lone marker expands to the home directory.
pub proof fn lemma_expand_home_marker(home: Seq<char>)
    ensures
        expand_home(seq![home_marker()], home) == home,
{
    let lone = seq![home_marker()];
    assert(lone.drop_last() == Seq::<char>::empty());
    assert(expand_home(lone.drop_last(), home) == Seq::<char>::empty());
    assert(Seq::<char>::empty() + home == home);
}

/// A destination that begins with the marker and holds no other resolves to
/// the rest of it below the home directory.
pub proof fn lemma_expand_leading_marker(rest: Seq<char>, home: Seq<char>)
    requires
        !rest.contains(home_marker()),
    ensures
        expand_home(seq![home_marker()] + rest, home) == home + rest,
{
    lemma_expand_home_concat(seq![home_marker()], rest, home);
    lemma_expand_home_marker(home);
    lemma_expand_home_plain(rest, home);
}

/// After expansion no marker is left, unless the home directory holds one.
pub proof fn lemma_expand_home_clears(path: Seq<char>, home: Seq<char>)
    requires
        !home.contains(home_marker()),
    ensures
        !expand_home(path, home).contains(home_marker()),
    decreases path.len(),
{
    if path.len() > 0 {
        lemma_expand_home_clears(path.drop_last(), home);
        let before = expand_home(path.drop_last(), home);
        let after = expand_home(path, home);
        assert forall|i: int| 0 <= i < after.len() implies after[i] != home_marker() by {
            if i < before.len() {
                assert(before.contains(before[i]));
            } else if path.last() == home_marker() {
                assert(home.contains(home[i - before.len()]));
            }
        }
    }
}

/// A backup path is longer than the path it belongs to, so the two differ.
pub proof fn lemma_backup_is_longer(path: Seq<char>)
    ensures
        backup_of(path).len() == path.len() + 9,
        backup_of(path) != path,
{
    reveal_strlit(".edbackup");
}

/// Two paths with the same backup path are the same path.
pub proof fn lemma_backup_is_injective(left: Seq<char>, right: Seq<char>)
    requires
        backup_of(left) == backup_of(right),
    ensures
        left == right,
{
    reveal_strlit(".edbackup");
    let suffix = ".edbackup"@;
    assert((left + suffix).len() == left.len() + suffix.len());
    assert((right + suffix).len() == right.len() + suffix.len());
    assert forall|i: int| 0 <= i < left.len() implies left[i] == right[i] by {
        assert((left + suffix)[i] == left[i]);
        assert((right + suffix)[i] == right[i]);
    }
    assert(left =~= right);
}

/// A path below a directory is longer than the directory's path, and so is
/// its backup path: neither is the directory itself.
pub proof fn lemma_joined_is_below(parent: Seq<char>, name: Seq<char>)
    ensures
        joined(parent, name).len() == parent.len() + 1 + name.len(),
        joined(parent, name) != parent,
        backup_of(joined(parent, name)) != parent,
{
    lemma_backup_is_longer(joined(parent, name));
}

} // verus!
