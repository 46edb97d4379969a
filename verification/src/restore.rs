use vstd::prelude::*;

use crate::assoc::str_eq;
use crate::layout::WorkspaceLayout;
use crate::text::{opt_chars, strings_view};

verus! {

/// What the client does to fill an empty window at start.
pub enum RestorePlan {
    /// Tabs are open already: nothing to restore.
    Keep,
    /// Open the directory named on the command line.
    Open(String),
    /// No saved layout: open the directory of the first root session.
    OpenBootstrap,
    /// The saved layout has no directory: let the user pick one.
    PickDirectory,
    /// Check which saved directories still exist, then open them.
    Validate(WorkspaceLayout),
}

/// Decides how to fill the window: a directory given at start wins over the
/// saved layout, which wins over the first session's directory.
pub fn restore_plan(
    has_tabs: bool,
    initial_directory: Option<String>,
    layout: Option<WorkspaceLayout>,
) -> (r: RestorePlan)
    ensures
        has_tabs ==> r is Keep,
        !has_tabs && initial_directory is Some ==> (r matches RestorePlan::Open(d) && d@
            == initial_directory->0@),
        !has_tabs && initial_directory is None && layout is None ==> r is OpenBootstrap,
        !has_tabs && initial_directory is None && layout is Some ==> (if layout->0.directories@.len()
            == 0 {
            r is PickDirectory
        } else {
            r matches RestorePlan::Validate(l) && l@ == layout->0@
        }),
{
    if has_tabs {
        return RestorePlan::Keep;
    }
    if let Some(directory) = initial_directory {
        return RestorePlan::Open(directory);
    }
    match layout {
        None => RestorePlan::OpenBootstrap,
        Some(l) => {
            if l.directories.len() == 0 {
                RestorePlan::PickDirectory
            } else {
                RestorePlan::Validate(l)
            }
        },
    }
}

/// The saved directories that still exist, by their canonical paths
/// (`canonical[i]` is that of the `i`th saved directory, `None` when it is
/// gone), each once, in saved order.
pub open spec fn surviving(canonical: Seq<Option<Seq<char>>>) -> Seq<Seq<char>>
    decreases canonical.len(),
{
    if canonical.len() == 0 {
        Seq::empty()
    } else {
        let before = surviving(canonical.drop_last());
        match canonical.last() {
            Some(c) => if before.contains(c) {
                before
            } else {
                before.push(c)
            },
            None => before,
        }
    }
}

/// The canonical path of the saved active directory, if it still exists.
pub open spec fn surviving_active(
    directories: Seq<Seq<char>>,
    canonical: Seq<Option<Seq<char>>>,
    active: Option<Seq<char>>,
) -> Option<Seq<char>>
    decreases canonical.len(),
{
    if canonical.len() == 0 {
        None
    } else {
        let n = canonical.len() - 1;
        let before = surviving_active(directories, canonical.drop_last(), active);
        match canonical.last() {
            Some(c) => if active == Some(directories[n]) {
                Some(c)
            } else {
                before
            },
            None => before,
        }
    }
}

pub open spec fn canonical_view(canonical: Seq<Option<String>>) -> Seq<Option<Seq<char>>> {
    canonical.map_values(|c: Option<String>| opt_chars(c))
}

fn contains_string(list: &Vec<String>, s: &str) -> (r: bool)
    ensures
        r == strings_view(list@).contains(s@),
{
    let mut i: usize = 0;
    while i < list.len()
        invariant
            i <= list@.len(),
            forall|j: int| 0 <= j < i ==> strings_view(list@)[j] != s@,
        decreases list@.len() - i,
    {
        if str_eq(list[i].as_str(), s) {
            assert(strings_view(list@)[i as int] == s@);
            return true;
        }
        i += 1;
    }
    false
}

/// The directories of a saved layout that still exist, each once, and the
/// one to activate; `canonical` holds what resolving each saved directory on
/// disk gave.
pub fn surviving_directories(layout: &WorkspaceLayout, canonical: &Vec<Option<String>>) -> (r: (
    Vec<String>,
    Option<String>,
))
    requires
        canonical@.len() == layout.directories@.len(),
    ensures
        strings_view(r.0@) == surviving(canonical_view(canonical@)),
        opt_chars(r.1) == surviving_active(
            layout@.directories,
            canonical_view(canonical@),
            layout@.active_directory,
        ),
{
    let ghost all = canonical_view(canonical@);
    let mut kept: Vec<String> = Vec::new();
    let mut active: Option<String> = None;
    let mut i: usize = 0;
    while i < canonical.len()
        invariant
            i <= canonical@.len(),
            canonical@.len() == layout.directories@.len(),
            all == canonical_view(canonical@),
            strings_view(kept@) == surviving(all.take(i as int)),
            opt_chars(active) == surviving_active(
                layout@.directories,
                all.take(i as int),
                layout@.active_directory,
            ),
        decreases canonical@.len() - i,
    {
        proof {
            assert(all.take(i + 1).drop_last() =~= all.take(i as int));
        }
        if let Some(path) = &canonical[i] {
            let is_active = match &layout.active_directory {
                Some(a) => str_eq(a.as_str(), layout.directories[i].as_str()),
                None => false,
            };
            if is_active {
                active = Some(path.clone());
            }
            if !contains_string(&kept, path.as_str()) {
                let ghost before = strings_view(kept@);
                kept.push(path.clone());
                assert(strings_view(kept@) =~= before.push(path@));
            }
        }
        i += 1;
    }
    assert(all.take(canonical@.len() as int) =~= all);
    (kept, active)
}

/// Every saved directory that still exists is opened, once: each one is
/// listed, everything listed is one of them, and no directory is listed
/// twice.
pub proof fn law_surviving_lists_each_once(canonical: Seq<Option<Seq<char>>>)
    ensures
        forall|i: int|
            0 <= i < canonical.len() && canonical[i] is Some ==> surviving(canonical).contains(
                canonical[i]->0,
            ),
        forall|k: int|
            0 <= k < surviving(canonical).len() ==> canonical.contains(
                Some(#[trigger] surviving(canonical)[k]),
            ),
        forall|a: int, b: int|
            0 <= a < b < surviving(canonical).len() ==> surviving(canonical)[a] != surviving(
                canonical,
            )[b],
    decreases canonical.len(),
{
    if canonical.len() > 0 {
        let init = canonical.drop_last();
        law_surviving_lists_each_once(init);
        let before = surviving(init);
        let r = surviving(canonical);
        assert forall|i: int| 0 <= i < canonical.len() && canonical[i] is Some implies r.contains(
            canonical[i]->0,
        ) by {
            if i < canonical.len() - 1 {
                assert(init[i] == canonical[i]);
                let k = choose|k: int| 0 <= k < before.len() && before[k] == canonical[i]->0;
                if r != before {
                    assert(r[k] == before[k]);
                }
            } else {
                if !before.contains(canonical[i]->0) {
                    assert(r[before.len() as int] == canonical[i]->0);
                }
            }
        }
        assert forall|k: int| 0 <= k < r.len() implies canonical.contains(Some(#[trigger] r[k])) by {
            if k < before.len() {
                assert(r[k] == before[k]);
                assert(init.contains(Some(before[k])));
                let j = choose|j: int| 0 <= j < init.len() && init[j] == Some(before[k]);
                assert(canonical[j] == init[j]);
            } else {
                assert(canonical[canonical.len() - 1] == canonical.last());
            }
        }
        assert forall|a: int, b: int| 0 <= a < b < r.len() implies r[a] != r[b] by {
            if b >= before.len() {
                assert(r[a] == before[a]);
                assert(before.contains(before[a]));
            } else {
                assert(r[a] == before[a] && r[b] == before[b]);
            }
        }
    }
}

} // verus!
