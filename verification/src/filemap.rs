//! The file map: the mappings that a TOML document declares.
//!
//! Each table at the top of the document is one mapping, named by the
//! table's key, with the strings `source` and `dest` in it. The document is
//! read by the `toml` crate; what is made of it is decided here.

use vstd::prelude::*;
use crate::mapping::{Mapping, MappingView};

verus! {

/// `toml::Value`: any value of a TOML document, the whole document too.
#[verifier::external_type_specification]
#[verifier::external_body]
pub struct ExValue(toml::Value);

/// `toml::map::Map`: a TOML table, from keys to values.
#[verifier::external_type_specification]
#[verifier::external_body]
#[verifier::reject_recursive_types(K)]
#[verifier::reject_recursive_types(V)]
pub struct ExMap<K, V>(toml::map::Map<K, V>);

/// `toml::de::Error`: why a text is no TOML document.
#[verifier::external_type_specification]
#[verifier::external_body]
pub struct ExError(toml::de::Error);

/// What `toml` makes of a text read as a document.
pub uninterp spec fn parsed(text: Seq<char>) -> Result<toml::Value, toml::de::Error>;

/// The string that a value is, if it is one.
pub uninterp spec fn text_in(value: toml::Value) -> Option<Seq<char>>;

/// The table that a value is, if it is one.
pub uninterp spec fn table_in(value: toml::Value) -> Option<toml::map::Map<String, toml::Value>>;

/// The keys of a table with their values, in the order in which the table
/// is walked.
pub uninterp spec fn entries_of(table: toml::map::Map<String, toml::Value>) -> Seq<
    (Seq<char>, toml::Value),
>;

/// The value that a table holds under a key, if it holds one.
pub uninterp spec fn entry_at(table: toml::map::Map<String, toml::Value>, key: Seq<char>) -> Option<
    toml::Value,
>;

/// The words in which a parse error describes itself.
pub uninterp spec fn words_of(error: toml::de::Error) -> Seq<char>;

/// `str::parse::<toml::Value>`, which is `toml::from_str`: reads `text` as a
/// TOML document. The result depends on the text alone.
#[verifier::external_body]
fn parse_document(text: &str) -> (document: Result<toml::Value, toml::de::Error>)
    ensures
        document == parsed(text@),
{
    text.parse::<toml::Value>()
}

/// `toml::Value::as_str`: the string of a value of the variant `String`,
/// nothing for any other.
#[verifier::external_body]
fn as_text(value: &toml::Value) -> (text: Option<&str>)
    ensures
        match text {
            Some(text) => text_in(*value) == Some(text@),
            None => text_in(*value) is None,
        },
{
    value.as_str()
}

/// `toml::Value::as_table`: the table of a value of the variant `Table`,
/// nothing for any other.
#[verifier::external_body]
fn as_table(value: &toml::Value) -> (table: Option<&toml::map::Map<String, toml::Value>>)
    ensures
        match table {
            Some(table) => table_in(*value) == Some(*table),
            None => table_in(*value) is None,
        },
{
    value.as_table()
}

/// Whether no two of `sections` have the same key.
pub open spec fn keys_differ(sections: Seq<(Seq<char>, toml::Value)>) -> bool {
    forall|i: int, j: int|
        0 <= i < j < sections.len() ==> (#[trigger] sections[i]).0 != (#[trigger] sections[j]).0
}

/// Whether no two of `mappings` have the same name.
pub open spec fn names_differ(mappings: Seq<MappingView>) -> bool {
    forall|i: int, j: int|
        0 <= i < j < mappings.len() ==> (#[trigger] mappings[i]).name != (
        #[trigger] mappings[j]).name
}

/// Whether each of `mappings` names a source and a destination.
pub open spec fn all_wf(mappings: Seq<MappingView>) -> bool {
    forall|i: int| 0 <= i < mappings.len() ==> (#[trigger] mappings[i]).wf()
}

/// `toml::map::Map::iter`: every key with its value, in the table's order.
/// A table holds a key once, whichever map stands behind it.
#[verifier::external_body]
fn entries(table: &toml::map::Map<String, toml::Value>) -> (entries: Vec<
    (&String, &toml::Value),
>)
    ensures
        entries@.len() == entries_of(*table).len(),
        forall|i: int|
            0 <= i < entries@.len() ==> (#[trigger] entries@[i]).0@ == entries_of(*table)[i].0
                && *entries@[i].1 == entries_of(*table)[i].1,
        forall|i: int, j: int|
            0 <= i < j < entries@.len() ==> (#[trigger] entries@[i]).0@ != (
            #[trigger] entries@[j]).0@,
{
    table.iter().collect()
}

/// `toml::map::Map::get`: the value under `key`, if there is one.
#[verifier::external_body]
fn entry<'a>(table: &'a toml::map::Map<String, toml::Value>, key: &str) -> (value: Option<
    &'a toml::Value,
>)
    ensures
        match value {
            Some(value) => entry_at(*table, key@) == Some(*value),
            None => entry_at(*table, key@) is None,
        },
{
    table.get(key)
}

/// `toml::de::Error`'s `Display`, through `to_string`: the error in the
/// parser's words.
#[verifier::external_body]
fn words(error: &toml::de::Error) -> (message: String)
    ensures
        message@ == words_of(*error),
{
    error.to_string()
}

/// Why a text is no file map.
#[derive(Clone, Debug, PartialEq, Eq)]
pub enum FilemapError {
    /// The text is no TOML document; the parser's words say why.
    Syntax(String),
    /// The table of this name lacks `source` or `dest`, or one of them is no
    /// string.
    Incomplete(String),
    /// In the table of this name `source` or `dest` is the empty string.
    Empty(String),
}

/// A file map error as the contracts see it.
pub enum FilemapErrorView {
    Syntax(Seq<char>),
    Incomplete(Seq<char>),
    Empty(Seq<char>),
}

impl View for FilemapError {
    type V = FilemapErrorView;

    open spec fn view(&self) -> FilemapErrorView {
        match *self {
            FilemapError::Syntax(message) => FilemapErrorView::Syntax(message@),
            FilemapError::Incomplete(name) => FilemapErrorView::Incomplete(name@),
            FilemapError::Empty(name) => FilemapErrorView::Empty(name@),
        }
    }
}

/// The string that `table` holds under `key`, if it holds one.
pub open spec fn string_at(table: toml::map::Map<String, toml::Value>, key: Seq<char>) -> Option<
    Seq<char>,
> {
    match entry_at(table, key) {
        Some(value) => text_in(value),
        None => None,
    }
}

/// What the entry `name` of a document declares: nothing if its value is no
/// table, a mapping if the table holds both strings and neither is empty,
/// an error otherwise.
pub open spec fn declared(name: Seq<char>, value: toml::Value) -> Option<
    Result<MappingView, FilemapErrorView>,
> {
    match table_in(value) {
        None => None,
        Some(table) => Some(
            match (string_at(table, "source"@), string_at(table, "dest"@)) {
                (Some(source), Some(dest)) => if source.len() > 0 && dest.len() > 0 {
                    Ok(MappingView { name, source, dest })
                } else {
                    Err(FilemapErrorView::Empty(name))
                },
                _ => Err(FilemapErrorView::Incomplete(name)),
            },
        ),
    }
}

/// The mappings that `sections` declare, in their order, or the error of
/// the first section that is a table and declares none.
pub open spec fn gathered(sections: Seq<(Seq<char>, toml::Value)>) -> Result<
    Seq<MappingView>,
    FilemapErrorView,
>
    decreases sections.len(),
{
    if sections.len() == 0 {
        Ok(Seq::empty())
    } else {
        match gathered(sections.drop_last()) {
            Err(error) => Err(error),
            Ok(found) => match declared(sections.last().0, sections.last().1) {
                None => Ok(found),
                Some(Ok(mapping)) => Ok(found.push(mapping)),
                Some(Err(error)) => Err(error),
            },
        }
    }
}

/// The mappings that a document declares. A document that is no table
/// declares none.
pub open spec fn mappings_in(document: toml::Value) -> Result<Seq<MappingView>, FilemapErrorView> {
    match table_in(document) {
        Some(table) => gathered(entries_of(table)),
        None => Ok(Seq::empty()),
    }
}

/// The file map that a text holds.
pub open spec fn filemap_of(text: Seq<char>) -> Result<Seq<MappingView>, FilemapErrorView> {
    match parsed(text) {
        Ok(document) => mappings_in(document),
        Err(error) => Err(FilemapErrorView::Syntax(words_of(error))),
    }
}

/// What a sequence of mappings shows to the contracts.
pub open spec fn mappings_view(mappings: Seq<Mapping>) -> Seq<MappingView> {
    Seq::new(mappings.len(), |i: int| mappings[i]@)
}

/// What a file map, or the error in its place, shows to the contracts.
pub open spec fn filemap_view(filemap: Result<Vec<Mapping>, FilemapError>) -> Result<
    Seq<MappingView>,
    FilemapErrorView,
> {
    match filemap {
        Ok(mappings) => Ok(mappings_view(mappings@)),
        Err(error) => Err(error@),
    }
}

/// The string under `key` in `table`, if there is one.
fn string_in<'a>(table: &'a toml::map::Map<String, toml::Value>, key: &str) -> (text: Option<
    &'a str,
>)
    ensures
        match text {
            Some(text) => string_at(*table, key@) == Some(text@),
            None => string_at(*table, key@) is None,
        },
{
    match entry(table, key) {
        Some(value) => as_text(value),
        None => None,
    }
}

/// The mappings that a parsed document declares. No two of them have the
/// same name, and none lacks a source or a destination.
pub fn mappings_from(document: &toml::Value) -> (filemap: Result<Vec<Mapping>, FilemapError>)
    ensures
        filemap_view(filemap) == mappings_in(*document),
        filemap matches Ok(mappings) ==> names_differ(mappings_view(mappings@)) && all_wf(
            mappings_view(mappings@),
        ),
{
    let mut mappings: Vec<Mapping> = Vec::new();
    let table = match as_table(document) {
        Some(table) => table,
        None => {
            assert(mappings_view(mappings@) =~= Seq::empty());
            return Ok(mappings);
        },
    };
    let sections = entries(table);
    let ghost all = entries_of(*table);
    assert forall|i: int, j: int| 0 <= i < j < all.len() implies (#[trigger] all[i]).0 != (
    #[trigger] all[j]).0 by {
        assert(sections@[i].0@ == all[i].0);
        assert(sections@[j].0@ == all[j].0);
    }
    let mut i: usize = 0;
    assert(all.take(0) =~= Seq::empty());
    assert(mappings_view(mappings@) =~= Seq::empty());
    while i < sections.len()
        invariant
            i <= sections.len(),
            table_in(*document) == Some(*table),
            all == entries_of(*table),
            keys_differ(all),
            sections@.len() == all.len(),
            forall|j: int|
                0 <= j < sections@.len() ==> (#[trigger] sections@[j]).0@ == all[j].0
                    && *sections@[j].1 == all[j].1,
            gathered(all.take(i as int)) == Ok::<Seq<MappingView>, FilemapErrorView>(
                mappings_view(mappings@),
            ),
        decreases sections.len() - i,
    {
        let name = sections[i].0;
        let value = sections[i].1;
        proof {
            let upto = all.take(i + 1);
            assert(upto.drop_last() =~= all.take(i as int));
            assert(upto.last() == all[i as int]);
            assert(sections@[i as int].0@ == all[i as int].0);
        }
        let ghost before = mappings@;
        match as_table(value) {
            None => {},
            Some(inner) => {
                match (string_in(inner, "source"), string_in(inner, "dest")) {
                    (Some(source), Some(dest)) => {
                        if source.is_empty() || dest.is_empty() {
                            proof {
                                let upto = all.take(i + 1);
                                assert(table_in(upto.last().1) == Some(*inner));
                                assert(gathered(upto) == Err::<Seq<MappingView>, FilemapErrorView>(
                                    FilemapErrorView::Empty(name@),
                                ));
                                lemma_gathered_error_stays(all, i + 1);
                            }
                            return Err(FilemapError::Empty(name.clone()));
                        }
                        let mapping = Mapping::new(name.as_str(), source, dest);
                        mappings.push(mapping);
                        assert(mappings_view(mappings@) =~= mappings_view(before).push(
                            mapping@,
                        ));
                    },
                    _ => {
                        proof {
                            let upto = all.take(i + 1);
                            assert(table_in(upto.last().1) == Some(*inner));
                            assert(gathered(upto) == Err::<Seq<MappingView>, FilemapErrorView>(
                                FilemapErrorView::Incomplete(name@),
                            ));
                            lemma_gathered_error_stays(all, i + 1);
                        }
                        return Err(FilemapError::Incomplete(name.clone()));
                    },
                }
            },
        }
        i += 1;
    }
    proof {
        assert(all.take(i as int) =~= all);
        lemma_gathered_names_differ(all);
    }
    Ok(mappings)
}

/// Every mapping gathered from sections names a source and a destination
/// and has the key of one of the sections for its name, and where the keys
/// differ the names do.
proof fn lemma_gathered_names_differ(sections: Seq<(Seq<char>, toml::Value)>)
    requires
        keys_differ(sections),
    ensures
        gathered(sections) matches Ok(mappings) ==> names_differ(mappings) && all_wf(mappings)
            && forall|k: int|
            0 <= k < mappings.len() ==> exists|i: int|
                0 <= i < sections.len() && (#[trigger] sections[i]).0 == (
                #[trigger] mappings[k]).name,
    decreases sections.len(),
{
    if sections.len() > 0 {
        let front = sections.drop_last();
        assert forall|i: int, j: int| 0 <= i < j < front.len() implies (#[trigger] front[i]).0 != (
        #[trigger] front[j]).0 by {
            assert(front[i] == sections[i] && front[j] == sections[j]);
        }
        lemma_gathered_names_differ(front);
        if let Ok(mappings) = gathered(sections) {
            let found = gathered(front)->Ok_0;
            assert forall|k: int| 0 <= k < mappings.len() implies exists|i: int|
                0 <= i < sections.len() && (#[trigger] sections[i]).0 == (
                #[trigger] mappings[k]).name by {
                if k < found.len() {
                    assert(mappings[k] == found[k]);
                    let i = choose|i: int|
                        0 <= i < front.len() && (#[trigger] front[i]).0 == found[k].name;
                    assert(sections[i] == front[i]);
                } else {
                    assert(sections[sections.len() - 1].0 == mappings[k].name);
                }
            }
            assert forall|k: int| 0 <= k < mappings.len() implies (#[trigger] mappings[k]).wf() by {
                if k < found.len() {
                    assert(mappings[k] == found[k]);
                }
            }
            assert forall|a: int, b: int| 0 <= a < b < mappings.len() implies (
            #[trigger] mappings[a]).name != (#[trigger] mappings[b]).name by {
                assert(mappings[a] == found[a]);
                if b < found.len() {
                    assert(mappings[b] == found[b]);
                } else {
                    let i = choose|i: int|
                        0 <= i < front.len() && (#[trigger] front[i]).0 == found[a].name;
                    assert(sections[i] == front[i]);
                    assert(sections[i].0 != sections[sections.len() - 1].0);
                }
            }
        }
    }
}

/// An error among the first sections is the error of the whole.
proof fn lemma_gathered_error_stays(sections: Seq<(Seq<char>, toml::Value)>, count: int)
    requires
        0 <= count <= sections.len(),
        gathered(sections.take(count)) is Err,
    ensures
        gathered(sections) == gathered(sections.take(count)),
    decreases sections.len() - count,
{
    if count < sections.len() {
        let more = sections.take(count + 1);
        assert(more.drop_last() =~= sections.take(count));
        lemma_gathered_error_stays(sections, count + 1);
    } else {
        assert(sections.take(count) =~= sections);
    }
}

/// The mappings that the text of a file map declares, in the order in which
/// the document's table is walked. No two of them have the same name, and
/// none lacks a source or a destination.
pub fn read_filemap(text: &str) -> (filemap: Result<Vec<Mapping>, FilemapError>)
    ensures
        filemap_view(filemap) == filemap_of(text@),
        filemap matches Ok(mappings) ==> names_differ(mappings_view(mappings@)) && all_wf(
            mappings_view(mappings@),
        ),
{
    match parse_document(text) {
        Ok(document) => mappings_from(&document),
        Err(error) => Err(FilemapError::Syntax(words(&error))),
    }
}

} // verus!
