use vstd::prelude::*;

use crate::status_dialog::next_generation;
use crate::text::{opt_chars, push_str};

verus! {

/// What the context sidebar of a tab shows; `S` is the snapshot of a
/// session's context that the server sends.
pub enum SidebarState<S> {
    Empty,
    Loading,
    Ready(S),
    Failed(String),
}

/// The sidebar of a tab and its requests: each request carries a
/// generation, and only the answer to the latest one is taken.
pub struct SidebarPane<S> {
    pub state: SidebarState<S>,
    /// Why the last refresh of a shown snapshot failed, if it did.
    pub error: Option<String>,
    pub generation: u64,
}

impl<S> SidebarPane<S> {
    pub fn new() -> (r: Self)
        ensures
            r.state is Empty,
            r.error is None,
            r.generation == 0,
    {
        SidebarPane { state: SidebarState::Empty, error: None, generation: 0 }
    }

    /// Starts a request and returns its generation and whether what the
    /// sidebar shows changed: a refresh (`preserve_ready`) keeps a shown
    /// snapshot, anything else shows the sidebar loading.
    pub fn begin(&mut self, preserve_ready: bool) -> (r: (u64, bool))
        ensures
            r.0 == next_generation(old(self).generation),
            final(self).generation == r.0,
            r.1 == !(preserve_ready && old(self).state is Ready),
            r.1 ==> final(self).state is Loading && final(self).error is None,
            !r.1 ==> final(self).state == old(self).state && final(self).error == old(self).error,
    {
        self.generation = self.generation.wrapping_add(1);
        let shown = match &self.state {
            SidebarState::Ready(_) => true,
            _ => false,
        };
        let changed = !preserve_ready || !shown;
        if changed {
            self.state = SidebarState::Loading;
            self.error = None;
        }
        (self.generation, changed)
    }

    /// Takes the answer to request `generation`, made for a session the tab
    /// still shows when `still_shown`; `same_snapshot` tells whether a
    /// snapshot received equals the one shown. Returns whether to redraw.
    /// Answers to older requests, or for a session no longer shown, change
    /// nothing; a failed refresh keeps the snapshot and notes the error.
    pub fn finish(
        &mut self,
        generation: u64,
        still_shown: bool,
        result: Result<S, String>,
        preserve_ready: bool,
        same_snapshot: bool,
    ) -> (redraw: bool)
        ensures
            !still_shown || generation != old(self).generation ==> !redraw && *final(self) == *old(self),
            still_shown && generation == old(self).generation ==> final(self).generation
                == old(self).generation && match result {
                Ok(snapshot) => final(self).state == SidebarState::Ready(snapshot) && final(self).error
                    is None && redraw == !(old(self).state is Ready && same_snapshot
                    && old(self).error is None),
                Err(e) => redraw && if preserve_ready {
                    final(self).state == old(self).state && opt_chars(final(self).error) == Some(
                        "context refresh failed: "@ + e@,
                    )
                } else {
                    final(self).state == SidebarState::<S>::Failed(e) && final(self).error == old(
                        self,
                    ).error
                },
            },
    {
        if !still_shown || generation != self.generation {
            return false;
        }
        match result {
            Ok(snapshot) => {
                let shown = match &self.state {
                    SidebarState::Ready(_) => true,
                    _ => false,
                };
                let changed = !(shown && same_snapshot) || self.error.is_some();
                self.state = SidebarState::Ready(snapshot);
                self.error = None;
                changed
            },
            Err(e) => {
                if preserve_ready {
                    proof {
                        reveal_strlit("context refresh failed: ");
                    }
                    let mut message = "context refresh failed: ".to_owned();
                    push_str(&mut message, e.as_str());
                    self.error = Some(message);
                } else {
                    self.state = SidebarState::Failed(e);
                }
                true
            },
        }
    }
}

} // verus!
