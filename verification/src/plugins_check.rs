//! The check that the game's document folder holds an empty `Plugins`
//! folder.
//!
//! Reading folders is the browser's work, done a step at a time; this
//! module decides, from where the check stands and what the browser last
//! reported, where it goes next and what to ask for.

use vstd::prelude::*;
use crate::text::{chars_of, string_from_chars};

verus! {

/// How the folder check ended.
#[derive(Clone, Copy, Debug, PartialEq, Eq)]
pub enum PluginsVerdict {
    /// The folder holds a `Plugins` folder with no entries.
    Empty,
    /// The folder holds a `Plugins` folder that has entries.
    NotEmpty,
    /// The folder holds no entry named `Plugins`.
    Missing,
    /// The chosen folder is not named `SimCity 4`.
    WrongFolder,
    /// A browser call failed.
    Failed,
}

/// What the browser is asked to do next.
#[derive(Clone, Copy, Debug, PartialEq, Eq)]
pub enum FolderAction {
    /// Read the next entry of the chosen folder.
    ReadFolderEntry,
    /// Open the chosen folder's `Plugins` folder and read its first entry.
    OpenPlugins,
    /// Read the next entry of the `Plugins` folder.
    ReadPluginsEntry,
    /// The check is over: report the verdict.
    Report(PluginsVerdict),
}

/// What the browser reported.
pub enum FolderEvent {
    /// The user picked a folder with this name.
    Picked(String),
    /// The folder being read has another entry; its name, where the
    /// browser gave it as a string.
    Entry(Option<String>),
    /// The folder being read has no more entries.
    EntriesEnd,
    /// A browser call failed.
    Failed,
}

/// Where the check stands.
pub enum FolderCheck {
    /// Waiting for the user to pick a folder.
    Picking,
    /// Reading the chosen folder's entries; the names read so far.
    ReadingFolder(Vec<String>),
    /// Reading the `Plugins` folder's entries; the names read so far.
    ReadingPlugins(Vec<String>),
    /// Over, with this verdict.
    Done(PluginsVerdict),
}

/// [`FolderEvent`] with its texts as character sequences.
pub enum FolderEventView {
    Picked(Seq<char>),
    Entry(Option<Seq<char>>),
    EntriesEnd,
    Failed,
}

/// [`FolderCheck`] with its names as character sequences.
pub enum FolderCheckView {
    Picking,
    ReadingFolder(Seq<Seq<char>>),
    ReadingPlugins(Seq<Seq<char>>),
    Done(PluginsVerdict),
}

/// The names held in a vector of strings.
pub open spec fn names_view(v: Seq<String>) -> Seq<Seq<char>> {
    v.map_values(|s: String| s@)
}

impl View for FolderEvent {
    type V = FolderEventView;

    open spec fn view(&self) -> FolderEventView {
        match self {
            FolderEvent::Picked(n) => FolderEventView::Picked(n@),
            FolderEvent::Entry(n) => FolderEventView::Entry(
                match n {
                    Some(s) => Some(s@),
                    None => None,
                },
            ),
            FolderEvent::EntriesEnd => FolderEventView::EntriesEnd,
            FolderEvent::Failed => FolderEventView::Failed,
        }
    }
}

impl View for FolderCheck {
    type V = FolderCheckView;

    open spec fn view(&self) -> FolderCheckView {
        match self {
            FolderCheck::Picking => FolderCheckView::Picking,
            FolderCheck::ReadingFolder(v) => FolderCheckView::ReadingFolder(names_view(v@)),
            FolderCheck::ReadingPlugins(v) => FolderCheckView::ReadingPlugins(names_view(v@)),
            FolderCheck::Done(r) => FolderCheckView::Done(*r),
        }
    }
}

/// The name an entry is recorded under: its name, or the empty name when
/// the browser gave none.
pub open spec fn entry_name(n: Option<Seq<char>>) -> Seq<char> {
    match n {
        Some(s) => s,
        None => seq![],
    }
}

/// The verdict on a `Plugins` folder with these entries.
pub open spec fn plugins_verdict(names: Seq<Seq<char>>) -> PluginsVerdict {
    if names.len() == 0 {
        PluginsVerdict::Empty
    } else {
        PluginsVerdict::NotEmpty
    }
}

/// The next state and the browser's next task, if any. Events that do not
/// fit where the check stands leave it unchanged and ask for nothing.
pub open spec fn next_check(s: FolderCheckView, e: FolderEventView) -> (FolderCheckView, Option<FolderAction>) {
    match (s, e) {
        (FolderCheckView::Done(v), _) => (s, None),
        (_, FolderEventView::Failed) => (
            FolderCheckView::Done(PluginsVerdict::Failed),
            Some(FolderAction::Report(PluginsVerdict::Failed)),
        ),
        (FolderCheckView::Picking, FolderEventView::Picked(name)) => if name == "SimCity 4"@ {
            (FolderCheckView::ReadingFolder(seq![]), Some(FolderAction::ReadFolderEntry))
        } else {
            (
                FolderCheckView::Done(PluginsVerdict::WrongFolder),
                Some(FolderAction::Report(PluginsVerdict::WrongFolder)),
            )
        },
        (FolderCheckView::ReadingFolder(names), FolderEventView::Entry(n)) => (
            FolderCheckView::ReadingFolder(names.push(entry_name(n))),
            Some(FolderAction::ReadFolderEntry),
        ),
        (FolderCheckView::ReadingFolder(names), FolderEventView::EntriesEnd) => if names.contains(
            "Plugins"@,
        ) {
            (FolderCheckView::ReadingPlugins(seq![]), Some(FolderAction::OpenPlugins))
        } else {
            (
                FolderCheckView::Done(PluginsVerdict::Missing),
                Some(FolderAction::Report(PluginsVerdict::Missing)),
            )
        },
        (FolderCheckView::ReadingPlugins(names), FolderEventView::Entry(n)) => (
            FolderCheckView::ReadingPlugins(names.push(entry_name(n))),
            Some(FolderAction::ReadPluginsEntry),
        ),
        (FolderCheckView::ReadingPlugins(names), FolderEventView::EntriesEnd) => (
            FolderCheckView::Done(plugins_verdict(names)),
            Some(FolderAction::Report(plugins_verdict(names))),
        ),
        _ => (s, None),
    }
}

fn contains_name(names: &Vec<String>, name: &String) -> (r: bool)
    ensures
        r == names_view(names@).contains(name@),
{
    let n = names.len();
    for i in 0..n
        invariant
            n == names@.len(),
            forall|j: int| 0 <= j < i ==> names@[j]@ != name@,
    {
        if names[i] == *name {
            assert(names_view(names@)[i as int] == name@);
            return true;
        }
    }
    assert(forall|j: int| 0 <= j < names_view(names@).len() ==> names_view(names@)[j] != name@);
    false
}

fn push_name(names: &mut Vec<String>, n: Option<String>)
    ensures
        names_view(final(names)@) == names_view(old(names)@).push(
            entry_name(
                match n {
                    Some(s) => Some(s@),
                    None => None,
                },
            ),
        ),
{
    match n {
        Some(s) => names.push(s),
        None => names.push(String::new()),
    }
    assert(names_view(names@) =~= names_view(old(names)@).push(
        entry_name(
            match n {
                Some(s) => Some(s@),
                None => None,
            },
        ),
    ));
}

impl FolderCheck {
    /// Where the check goes on the browser's report `event`, and what the
    /// browser is to do next.
    pub fn step(self, event: FolderEvent) -> (r: (FolderCheck, Option<FolderAction>))
        ensures
            (r.0@, r.1) == next_check(self@, event@),
    {
        let ghost s = self@;
        let ghost e = event@;
        match self {
            FolderCheck::Done(v) => (FolderCheck::Done(v), None),
            FolderCheck::Picking => match event {
                FolderEvent::Failed => (
                    FolderCheck::Done(PluginsVerdict::Failed),
                    Some(FolderAction::Report(PluginsVerdict::Failed)),
                ),
                FolderEvent::Picked(name) => {
                    let expected = string_from_chars(chars_of("SimCity 4").as_slice());
                    if name == expected {
                        let names: Vec<String> = Vec::new();
                        assert(names_view(names@) =~= Seq::<Seq<char>>::empty());
                        (FolderCheck::ReadingFolder(names), Some(FolderAction::ReadFolderEntry))
                    } else {
                        (
                            FolderCheck::Done(PluginsVerdict::WrongFolder),
                            Some(FolderAction::Report(PluginsVerdict::WrongFolder)),
                        )
                    }
                },
                _ => (FolderCheck::Picking, None),
            },
            FolderCheck::ReadingFolder(mut names) => match event {
                FolderEvent::Failed => (
                    FolderCheck::Done(PluginsVerdict::Failed),
                    Some(FolderAction::Report(PluginsVerdict::Failed)),
                ),
                FolderEvent::Entry(n) => {
                    push_name(&mut names, n);
                    (FolderCheck::ReadingFolder(names), Some(FolderAction::ReadFolderEntry))
                },
                FolderEvent::EntriesEnd => {
                    let plugins = string_from_chars(chars_of("Plugins").as_slice());
                    if contains_name(&names, &plugins) {
                        let fresh: Vec<String> = Vec::new();
                        assert(names_view(fresh@) =~= Seq::<Seq<char>>::empty());
                        (FolderCheck::ReadingPlugins(fresh), Some(FolderAction::OpenPlugins))
                    } else {
                        (
                            FolderCheck::Done(PluginsVerdict::Missing),
                            Some(FolderAction::Report(PluginsVerdict::Missing)),
                        )
                    }
                },
                FolderEvent::Picked(_) => (FolderCheck::ReadingFolder(names), None),
            },
            FolderCheck::ReadingPlugins(mut names) => match event {
                FolderEvent::Failed => (
                    FolderCheck::Done(PluginsVerdict::Failed),
                    Some(FolderAction::Report(PluginsVerdict::Failed)),
                ),
                FolderEvent::Entry(n) => {
                    push_name(&mut names, n);
                    (FolderCheck::ReadingPlugins(names), Some(FolderAction::ReadPluginsEntry))
                },
                FolderEvent::EntriesEnd => {
                    let v = if names.len() == 0 {
                        PluginsVerdict::Empty
                    } else {
                        PluginsVerdict::NotEmpty
                    };
                    (FolderCheck::Done(v), Some(FolderAction::Report(v)))
                },
                FolderEvent::Picked(_) => (FolderCheck::ReadingPlugins(names), None),
            },
        }
    }
}

/// The state after the events, one after another, from `s`.
pub open spec fn run_checks(s: FolderCheckView, events: Seq<FolderEventView>) -> FolderCheckView
    decreases events.len(),
{
    if events.len() == 0 {
        s
    } else {
        run_checks(next_check(s, events[0]).0, events.drop_first())
    }
}

/// One `Entry` report per directory entry.
pub open spec fn entry_events(entries: Seq<Option<Seq<char>>>) -> Seq<FolderEventView> {
    entries.map_values(|n: Option<Seq<char>>| FolderEventView::Entry(n))
}

/// The names the entries are recorded under.
pub open spec fn entry_names(entries: Seq<Option<Seq<char>>>) -> Seq<Seq<char>> {
    entries.map_values(|n: Option<Seq<char>>| entry_name(n))
}

/// The browser's reports on picking a folder named `name` whose entries are
/// `top`, and whose `Plugins` folder has the entries `plugins`.
pub open spec fn folder_reports(
    name: Seq<char>,
    top: Seq<Option<Seq<char>>>,
    plugins: Seq<Option<Seq<char>>>,
) -> Seq<FolderEventView> {
    seq![FolderEventView::Picked(name)] + entry_events(top) + seq![FolderEventView::EntriesEnd]
        + entry_events(plugins) + seq![FolderEventView::EntriesEnd]
}

proof fn lemma_run_one(s: FolderCheckView, e: FolderEventView)
    ensures
        run_checks(s, seq![e]) == next_check(s, e).0,
{
    reveal_with_fuel(run_checks, 2);
    assert(seq![e].drop_first() =~= Seq::<FolderEventView>::empty());
}

proof fn lemma_run_append(s: FolderCheckView, a: Seq<FolderEventView>, b: Seq<FolderEventView>)
    ensures
        run_checks(s, a + b) == run_checks(run_checks(s, a), b),
    decreases a.len(),
{
    if a.len() == 0 {
        assert(a + b =~= b);
    } else {
        assert((a + b)[0] == a[0]);
        assert((a + b).drop_first() =~= a.drop_first() + b);
        lemma_run_append(next_check(s, a[0]).0, a.drop_first(), b);
    }
}

/// Once over, the check stays over with the same verdict, whatever the
/// browser reports after.
pub proof fn lemma_done_is_final(v: PluginsVerdict, events: Seq<FolderEventView>)
    ensures
        run_checks(FolderCheckView::Done(v), events) == FolderCheckView::Done(v),
    decreases events.len(),
{
    if events.len() > 0 {
        lemma_done_is_final(v, events.drop_first());
    }
}

proof fn lemma_read_folder_entries(names: Seq<Seq<char>>, entries: Seq<Option<Seq<char>>>)
    ensures
        run_checks(FolderCheckView::ReadingFolder(names), entry_events(entries))
            == FolderCheckView::ReadingFolder(names + entry_names(entries)),
    decreases entries.len(),
{
    if entries.len() == 0 {
        assert(names + entry_names(entries) =~= names);
    } else {
        assert(entry_events(entries).drop_first() =~= entry_events(entries.drop_first()));
        lemma_read_folder_entries(names.push(entry_name(entries[0])), entries.drop_first());
        assert(names.push(entry_name(entries[0])) + entry_names(entries.drop_first()) =~= names
            + entry_names(entries));
    }
}

proof fn lemma_read_plugins_entries(names: Seq<Seq<char>>, entries: Seq<Option<Seq<char>>>)
    ensures
        run_checks(FolderCheckView::ReadingPlugins(names), entry_events(entries))
            == FolderCheckView::ReadingPlugins(names + entry_names(entries)),
    decreases entries.len(),
{
    if entries.len() == 0 {
        assert(names + entry_names(entries) =~= names);
    } else {
        assert(entry_events(entries).drop_first() =~= entry_events(entries.drop_first()));
        lemma_read_plugins_entries(names.push(entry_name(entries[0])), entries.drop_first());
        assert(names.push(entry_name(entries[0])) + entry_names(entries.drop_first()) =~= names
            + entry_names(entries));
    }
}

/// The verdict on a whole folder: a folder not named `SimCity 4` is the
/// wrong one; one without a `Plugins` entry misses it; otherwise the
/// `Plugins` folder passes exactly when it has no entries.
pub proof fn lemma_folder_verdict(
    name: Seq<char>,
    top: Seq<Option<Seq<char>>>,
    plugins: Seq<Option<Seq<char>>>,
)
    ensures
        run_checks(FolderCheckView::Picking, folder_reports(name, top, plugins))
            == FolderCheckView::Done(
            if name != "SimCity 4"@ {
                PluginsVerdict::WrongFolder
            } else if !entry_names(top).contains("Plugins"@) {
                PluginsVerdict::Missing
            } else if plugins.len() == 0 {
                PluginsVerdict::Empty
            } else {
                PluginsVerdict::NotEmpty
            },
        ),
{
    assert(entry_names(plugins).len() == plugins.len());
    let picked = seq![FolderEventView::Picked(name)];
    let end = seq![FolderEventView::EntriesEnd];
    let rest = entry_events(top) + end + entry_events(plugins) + end;
    assert(folder_reports(name, top, plugins) =~= picked + rest);
    lemma_run_append(FolderCheckView::Picking, picked, rest);
    lemma_run_one(FolderCheckView::Picking, FolderEventView::Picked(name));
    let after_pick = next_check(FolderCheckView::Picking, FolderEventView::Picked(name)).0;
    if name != "SimCity 4"@ {
        lemma_done_is_final(PluginsVerdict::WrongFolder, rest);
    } else {
        let tail = end + entry_events(plugins) + end;
        assert(rest =~= entry_events(top) + tail);
        lemma_run_append(after_pick, entry_events(top), tail);
        lemma_read_folder_entries(seq![], top);
        assert(Seq::<Seq<char>>::empty() + entry_names(top) =~= entry_names(top));
        let listed = FolderCheckView::ReadingFolder(entry_names(top));
        let tail2 = entry_events(plugins) + end;
        assert(tail =~= end + tail2);
        lemma_run_append(listed, end, tail2);
        lemma_run_one(listed, FolderEventView::EntriesEnd);
        if !entry_names(top).contains("Plugins"@) {
            lemma_done_is_final(PluginsVerdict::Missing, tail2);
        } else {
            let opened = FolderCheckView::ReadingPlugins(seq![]);
            lemma_run_append(opened, entry_events(plugins), end);
            lemma_read_plugins_entries(seq![], plugins);
            assert(Seq::<Seq<char>>::empty() + entry_names(plugins) =~= entry_names(plugins));
            let read = FolderCheckView::ReadingPlugins(entry_names(plugins));
            lemma_run_one(read, FolderEventView::EntriesEnd);
        }
    }
}

/// A failed browser call ends an unfinished check, in whatever step, with
/// the verdict `Failed`.
pub proof fn lemma_failure_ends_check(s: FolderCheckView)
    requires
        !(s is Done),
    ensures
        next_check(s, FolderEventView::Failed) == (
            FolderCheckView::Done(PluginsVerdict::Failed),
            Some(FolderAction::Report(PluginsVerdict::Failed)),
        ),
{
}

/// The check asks to report a verdict exactly when that step ends it, and
/// the verdict reported is the one it ends with: from an unfinished state,
/// an event leads to `Done(v)` exactly when the action is `Report(v)`; a
/// finished check asks for nothing.
pub proof fn lemma_report_is_final_verdict(s: FolderCheckView, e: FolderEventView, v: PluginsVerdict)
    ensures
        next_check(s, e).1 == Some(FolderAction::Report(v)) <==> (next_check(s, e).0
            == FolderCheckView::Done(v) && !(s is Done)),
        s is Done ==> next_check(s, e).1 is None,
{
}

} // verus!
