use vstd::prelude::*;

use crate::text::{opt_chars, strings_view};
use crate::workspace::{tabs_view, DirectoryTimeline};

verus! {

/// The open workspace directories, in tab order, and the active one.
#[derive(Debug, PartialEq)]
pub struct WorkspaceLayout {
    pub directories: Vec<String>,
    pub active_directory: Option<String>,
}

pub struct LayoutView {
    pub directories: Seq<Seq<char>>,
    pub active_directory: Option<Seq<char>>,
}

impl View for WorkspaceLayout {
    type V = LayoutView;

    open spec fn view(&self) -> LayoutView {
        LayoutView {
            directories: strings_view(self.directories@),
            active_directory: opt_chars(self.active_directory),
        }
    }
}

/// The layout as it is stored, with the version of the format.
#[derive(Debug, PartialEq)]
pub struct LayoutFile {
    pub version: u8,
    pub layout: WorkspaceLayout,
}

/// The version of the stored format that this client reads and writes.
pub const LAYOUT_VERSION: u8 = 1;

/// The layout a stored file restores: its layout when it is of the current
/// version; none when the file is missing, unreadable (`None`) or of another
/// version.
pub open spec fn restored(file: Option<(u8, LayoutView)>) -> Option<LayoutView> {
    match file {
        Some((version, layout)) => if version == LAYOUT_VERSION {
            Some(layout)
        } else {
            None
        },
        None => None,
    }
}

pub fn layout_from(file: Option<LayoutFile>) -> (r: Option<WorkspaceLayout>)
    ensures
        match r {
            Some(l) => restored(match file {
                Some(f) => Some((f.version, f.layout@)),
                None => None,
            }) == Some(l@),
            None => restored(match file {
                Some(f) => Some((f.version, f.layout@)),
                None => None,
            }) is None,
        },
{
    match file {
        Some(f) => if f.version == LAYOUT_VERSION {
            Some(f.layout)
        } else {
            None
        },
        None => None,
    }
}

/// The layout of the open tabs, with the active one.
pub fn current_layout(tabs: &Vec<DirectoryTimeline>, active: Option<&str>) -> (r: WorkspaceLayout)
    ensures
        r@.directories == tabs_view(tabs@).map_values(|t: crate::workspace::TabView| t.directory),
        r@.active_directory == crate::workspace::opt_view(active),
{
    let mut directories: Vec<String> = Vec::new();
    let mut i: usize = 0;
    while i < tabs.len()
        invariant
            i <= tabs@.len(),
            strings_view(directories@) == tabs_view(tabs@).take(i as int).map_values(
                |t: crate::workspace::TabView| t.directory,
            ),
        decreases tabs@.len() - i,
    {
        let ghost before = strings_view(directories@);
        directories.push(tabs[i].directory.clone());
        assert(strings_view(directories@) =~= before.push(tabs@[i as int].directory@));
        assert(tabs_view(tabs@).take(i + 1).map_values(|t: crate::workspace::TabView| t.directory)
            =~= tabs_view(tabs@).take(i as int).map_values(|t: crate::workspace::TabView| t.directory).push(
            tabs@[i as int].directory@,
        ));
        i += 1;
    }
    assert(tabs_view(tabs@).take(tabs@.len() as int) =~= tabs_view(tabs@));
    WorkspaceLayout {
        directories,
        active_directory: match active {
            Some(a) => Some(a.to_owned()),
            None => None,
        },
    }
}

/// The file that saving a layout writes.
pub fn stored_layout(layout: WorkspaceLayout) -> (r: LayoutFile)
    ensures
        r.version == LAYOUT_VERSION,
        r.layout@ == layout@,
{
    LayoutFile { version: LAYOUT_VERSION, layout }
}

/// A saved layout is restored unchanged.
pub proof fn law_saved_layout_restores(layout: LayoutView)
    ensures
        restored(Some((LAYOUT_VERSION, layout))) == Some(layout),
{
}

} // verus!
