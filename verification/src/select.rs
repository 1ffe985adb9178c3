//! The configuration of a run, and which files of a directory a run takes.

use vstd::prelude::*;
use crate::text::{
    after_first, chars_of, contains, contains_text, is_listed, same_chars, split_after_first,
    views_of,
};

verus! {

/// What a run is started with.
#[derive(Clone, Debug, PartialEq, Eq)]
pub struct Settings {
    /// The directory to scan.
    pub directory: String,
    /// The file names to pass over.
    pub ignore: Vec<String>,
    /// Whether the rendered units are reported and nothing is written.
    pub preview: bool,
    /// How much is logged: the higher, the more.
    pub verbosity: u8,
}

/// What [`Settings`] stands for in contracts.
pub struct SettingsView {
    pub directory: Seq<char>,
    pub ignore: Seq<Seq<char>>,
    pub preview: bool,
    pub verbosity: u8,
}

impl View for Settings {
    type V = SettingsView;

    open spec fn view(&self) -> SettingsView {
        SettingsView {
            directory: self.directory@,
            ignore: views_of(self.ignore@),
            preview: self.preview,
            verbosity: self.verbosity,
        }
    }
}

impl Default for Settings {
    /// The directory `src/`, the file `foo.rs` passed over, files written,
    /// messages up to debug level.
    fn default() -> (settings: Settings)
        ensures
            settings@ == (SettingsView {
                directory: "src/"@,
                ignore: seq!["foo.rs"@],
                preview: false,
                verbosity: 2,
            }),
    {
        let mut ignore: Vec<String> = Vec::new();
        ignore.push(String::from_str("foo.rs"));
        assert(views_of(ignore@) =~= seq!["foo.rs"@]);
        Settings { directory: String::from_str("src/"), ignore, preview: false, verbosity: 2 }
    }
}

/// The most detailed kind of message that is logged.
#[derive(Clone, Copy, Debug, PartialEq, Eq)]
pub enum Level {
    Error,
    Info,
    Debug,
    Trace,
}

/// The level that a verbosity stands for: errors only at 0, then
/// information, then debugging, and everything from 3 on.
pub open spec fn level_for(verbosity: u8) -> Level {
    if verbosity == 0 {
        Level::Error
    } else if verbosity == 1 {
        Level::Info
    } else if verbosity == 2 {
        Level::Debug
    } else {
        Level::Trace
    }
}

/// The level that a verbosity stands for.
pub fn level_of(verbosity: u8) -> (level: Level)
    ensures
        level == level_for(verbosity),
{
    if verbosity == 0 {
        Level::Error
    } else if verbosity == 1 {
        Level::Info
    } else if verbosity == 2 {
        Level::Debug
    } else {
        Level::Trace
    }
}

/// A file is taken if what follows the first dot of its name is `rs`, its
/// name is not passed over, and its name does not hold `ffi`, the mark of
/// what an earlier run has written. A name without a dot is not taken.
pub open spec fn selected(name: Seq<char>, ignore: Seq<Seq<char>>) -> bool {
    &&& after_first(name, '.') == Some("rs"@)
    &&& !ignore.contains(name)
    &&& !contains_text(name, "ffi"@)
}

/// Whether a run takes the file of this name.
pub fn is_selected(name: &str, ignore: &Vec<String>) -> (taken: bool)
    ensures
        taken == selected(name@, views_of(ignore@)),
{
    match split_after_first(name, '.') {
        None => false,
        Some(extension) => {
            let wanted = chars_of("rs");
            same_chars(&extension, &wanted) && !is_listed(ignore, name) && !contains(name, "ffi")
        },
    }
}

/// The names that a run takes, in order.
pub open spec fn selection(names: Seq<Seq<char>>, ignore: Seq<Seq<char>>) -> Seq<Seq<char>>
    decreases names.len(),
{
    if names.len() == 0 {
        Seq::empty()
    } else if selected(names.last(), ignore) {
        selection(names.drop_last(), ignore).push(names.last())
    } else {
        selection(names.drop_last(), ignore)
    }
}

/// The file names of a directory that a run takes, in order.
pub fn select(names: &Vec<String>, ignore: &Vec<String>) -> (taken: Vec<String>)
    ensures
        views_of(taken@) == selection(views_of(names@), views_of(ignore@)),
{
    let ghost all = views_of(names@);
    let mut taken: Vec<String> = Vec::new();
    let mut i: usize = 0;
    assert(all.take(0) =~= Seq::empty());
    while i < names.len()
        invariant
            i <= names@.len(),
            all == views_of(names@),
            views_of(taken@) == selection(all.take(i as int), views_of(ignore@)),
        decreases names@.len() - i,
    {
        proof {
            assert(all.take(i + 1).drop_last() =~= all.take(i as int));
            assert(all.take(i + 1).last() == all[i as int]);
        }
        if is_selected(names[i].as_str(), ignore) {
            let ghost before = views_of(taken@);
            taken.push(names[i].clone());
            assert(views_of(taken@) =~= before.push(all[i as int]));
        }
        i += 1;
    }
    assert(all.take(names@.len() as int) =~= all);
    taken
}

/// Only names that are taken stand in the selection: a name that is
/// passed over, or holds the mark of an earlier run, does not.
pub proof fn lemma_selection_members(names: Seq<Seq<char>>, ignore: Seq<Seq<char>>, name: Seq<char>)
    ensures
        selection(names, ignore).contains(name) <==> names.contains(name) && selected(name, ignore),
        selection(names, ignore).contains(name) ==> !ignore.contains(name) && !contains_text(
            name,
            "ffi"@,
        ),
    decreases names.len(),
{
    if names.len() > 0 {
        let rest = names.drop_last();
        let before = selection(rest, ignore);
        let now = selection(names, ignore);
        lemma_selection_members(rest, ignore, name);
        if now.contains(name) {
            let j = choose|j: int| 0 <= j < now.len() && now[j] == name;
            if j < before.len() {
                assert(before[j] == name);
                let m = choose|m: int| 0 <= m < rest.len() && rest[m] == name;
                assert(names[m] == name);
            } else {
                assert(names[names.len() - 1] == name);
            }
        }
        if names.contains(name) && selected(name, ignore) {
            let m = choose|m: int| 0 <= m < names.len() && names[m] == name;
            if m < rest.len() {
                assert(rest[m] == name);
                let j = choose|j: int| 0 <= j < before.len() && before[j] == name;
                assert(now[j] == name);
            } else {
                assert(now[before.len() as int] == name);
            }
        }
    }
}

} // verus!
