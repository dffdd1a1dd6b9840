//! The declared linking rules.

use vstd::prelude::*;

verus! {

/// One linking rule: the file or directory `source`, named relative to the
/// root of the dotfiles tree, is to appear at `dest`.
#[derive(Clone, Debug, PartialEq, Eq)]
pub struct Mapping {
    pub name: String,
    pub source: String,
    pub dest: String,
}

/// A mapping as the contracts see it.
pub struct MappingView {
    pub name: Seq<char>,
    pub source: Seq<char>,
    pub dest: Seq<char>,
}

impl MappingView {
    /// Whether the rule names a source and a destination at all.
    pub open spec fn wf(self) -> bool {
        self.source.len() > 0 && self.dest.len() > 0
    }
}

impl View for Mapping {
    type V = MappingView;

    open spec fn view(&self) -> MappingView {
        MappingView { name: self.name@, source: self.source@, dest: self.dest@ }
    }
}

impl Mapping {
    /// A rule made of copies of the three strings.
    pub fn new(name: &str, source: &str, dest: &str) -> (mapping: Mapping)
        ensures
            mapping@ == (MappingView { name: name@, source: source@, dest: dest@ }),
    {
        Mapping {
            name: name.to_owned(),
            source: source.to_owned(),
            dest: dest.to_owned(),
        }
    }
}

} // verus!
