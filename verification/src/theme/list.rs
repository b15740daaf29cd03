//! Listing the themes of a storage root.

use vstd::prelude::*;
use crate::sequences::{lemma_filter_ends, lemma_filter_step};
use crate::utils::texts;

verus! {

/// One entry of the storage root: its name, and whether it is a directory.
#[derive(Debug, Clone, PartialEq, Eq)]
pub struct RootEntry {
    pub name: String,
    pub is_dir: bool,
}

impl View for RootEntry {
    type V = (Seq<char>, bool);

    open spec fn view(&self) -> (Seq<char>, bool) {
        (self.name@, self.is_dir)
    }
}

/// The views of a list of entries, in order.
pub open spec fn entry_views(entries: Seq<RootEntry>) -> Seq<(Seq<char>, bool)> {
    Seq::new(entries.len(), |i: int| entries[i]@)
}

/// The test that an entry is a directory.
pub open spec fn is_directory() -> spec_fn((Seq<char>, bool)) -> bool {
    |e: (Seq<char>, bool)| e.1
}

/// The test that an entry is a directory with another name than `name`.
pub open spec fn is_other_directory(name: Seq<char>) -> spec_fn((Seq<char>, bool)) -> bool {
    |e: (Seq<char>, bool)| e.1 && e.0 != name
}

/// The names of a list of entries, in order.
pub open spec fn entry_names(entries: Seq<(Seq<char>, bool)>) -> Seq<Seq<char>> {
    Seq::new(entries.len(), |i: int| entries[i].0)
}

/// The themes among the entries of a storage root: the names of the
/// directories, in order.
pub open spec fn theme_names(entries: Seq<(Seq<char>, bool)>) -> Seq<Seq<char>> {
    entry_names(entries.filter(is_directory()))
}

/// The themes among the entries of a storage root, but for `name`.
pub open spec fn other_theme_names(entries: Seq<(Seq<char>, bool)>, name: Seq<char>) -> Seq<
    Seq<char>,
> {
    entry_names(entries.filter(is_other_directory(name)))
}

/// Lists the themes, given the entries of the storage root: every entry
/// that is a directory is a theme, and the listing names them in the order
/// of the entries.
pub fn list_themes(entries: Vec<RootEntry>) -> (themes: Vec<String>)
    ensures
        texts(themes@) == theme_names(entry_views(entries@)),
{
    let ghost all = entry_views(entries@);
    let ghost test = is_directory();
    let mut themes: Vec<String> = Vec::new();
    proof {
        lemma_filter_ends(all, test);
        assert(texts(themes@) =~= entry_names(all.take(0).filter(test)));
    }
    for entry in it: entries
        invariant
            it.seq() == entries@,
            all == entry_views(entries@),
            test == is_directory(),
            texts(themes@) == entry_names(all.take(it.index() as int).filter(test)),
    {
        let ghost n = it.index() as int;
        proof {
            lemma_filter_step(all, test, n);
            assert(all[n] == entry@);
        }
        let ghost before = texts(themes@);
        if entry.is_dir {
            themes.push(entry.name);
            assert(texts(themes@) =~= before.push(entry.name@));
            assert(texts(themes@) =~= entry_names(all.take(n + 1).filter(test)));
        }
    }
    proof {
        lemma_filter_ends(all, test);
    }
    themes
}

/// Lists the themes other than `name`, given the entries of the storage
/// root: the themes whose ledgers the removal of `name` has to read.
pub fn other_themes(entries: Vec<RootEntry>, name: &String) -> (themes: Vec<String>)
    ensures
        texts(themes@) == other_theme_names(entry_views(entries@), name@),
{
    let ghost all = entry_views(entries@);
    let ghost test = is_other_directory(name@);
    let mut themes: Vec<String> = Vec::new();
    proof {
        lemma_filter_ends(all, test);
        assert(texts(themes@) =~= entry_names(all.take(0).filter(test)));
    }
    for entry in it: entries
        invariant
            it.seq() == entries@,
            all == entry_views(entries@),
            test == is_other_directory(name@),
            texts(themes@) == entry_names(all.take(it.index() as int).filter(test)),
    {
        let ghost n = it.index() as int;
        proof {
            lemma_filter_step(all, test, n);
            assert(all[n] == entry@);
        }
        let ghost before = texts(themes@);
        if entry.is_dir && entry.name != *name {
            themes.push(entry.name);
            assert(texts(themes@) =~= before.push(entry.name@));
            assert(texts(themes@) =~= entry_names(all.take(n + 1).filter(test)));
        }
    }
    proof {
        lemma_filter_ends(all, test);
    }
    themes
}

} // verus!
