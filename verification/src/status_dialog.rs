use vstd::prelude::*;

use crate::assoc::{entries_map, lemma_entries_map_domain, lemma_entries_map_value, StrMap};
use crate::json::{json_eq, JsonModel, JsonValue};
use crate::text::{concat, lemma_seq_less_total, seq_less, str_less};

verus! {

/// The state of an MCP server as the server reports it.
#[derive(Debug, PartialEq)]
pub enum McpStatus {
    Connected,
    Disabled,
    Failed { error: String },
    NeedsAuth,
    NeedsClientRegistration { error: String },
    Unknown { status: String, detail: Option<String> },
}

pub enum McpStatusView {
    Connected,
    Disabled,
    Failed { error: Seq<char> },
    NeedsAuth,
    NeedsClientRegistration { error: Seq<char> },
    Unknown { status: Seq<char>, detail: Option<Seq<char>> },
}

impl View for McpStatus {
    type V = McpStatusView;

    open spec fn view(&self) -> McpStatusView {
        match self {
            McpStatus::Connected => McpStatusView::Connected,
            McpStatus::Disabled => McpStatusView::Disabled,
            McpStatus::Failed { error } => McpStatusView::Failed { error: error@ },
            McpStatus::NeedsAuth => McpStatusView::NeedsAuth,
            McpStatus::NeedsClientRegistration { error } => McpStatusView::NeedsClientRegistration {
                error: error@,
            },
            McpStatus::Unknown { status, detail } => McpStatusView::Unknown {
                status: status@,
                detail: match detail {
                    Some(d) => Some(d@),
                    None => None,
                },
            },
        }
    }
}

fn opt_str_eq(a: &Option<String>, b: &Option<String>) -> (r: bool)
    ensures
        r == (match (a, b) {
            (Some(x), Some(y)) => x@ == y@,
            (None, None) => true,
            _ => false,
        }),
{
    match (a, b) {
        (Some(x), Some(y)) => crate::assoc::str_eq(x.as_str(), y.as_str()),
        (None, None) => true,
        _ => false,
    }
}

/// Whether two statuses are the same.
pub fn mcp_status_eq(a: &McpStatus, b: &McpStatus) -> (r: bool)
    ensures
        r == (a@ == b@),
{
    match (a, b) {
        (McpStatus::Connected, McpStatus::Connected) => true,
        (McpStatus::Disabled, McpStatus::Disabled) => true,
        (McpStatus::NeedsAuth, McpStatus::NeedsAuth) => true,
        (McpStatus::Failed { error: x }, McpStatus::Failed { error: y }) => crate::assoc::str_eq(x.as_str(), y.as_str()),
        (McpStatus::NeedsClientRegistration { error: x }, McpStatus::NeedsClientRegistration { error: y }) =>
            crate::assoc::str_eq(x.as_str(), y.as_str()),
        (McpStatus::Unknown { status: s1, detail: d1 }, McpStatus::Unknown { status: s2, detail: d2 }) =>
            crate::assoc::str_eq(s1.as_str(), s2.as_str()) && opt_str_eq(d1, d2),
        _ => false,
    }
}

/// Which way a toggle of an MCP server goes.
#[derive(PartialEq, Eq, Structural, Clone, Copy, Debug)]
pub enum McpOperation {
    Connect,
    Disconnect,
}

impl McpOperation {
    pub open spec fn spec_verb(self) -> Seq<char> {
        match self {
            McpOperation::Connect => "connect"@,
            McpOperation::Disconnect => "disconnect"@,
        }
    }

    /// The verb that error messages use for the operation.
    pub fn verb(self) -> (r: &'static str)
        ensures
            r@ == self.spec_verb(),
    {
        match self {
            McpOperation::Connect => "connect",
            McpOperation::Disconnect => "disconnect",
        }
    }
}

/// Only a connected server is toggled toward disconnecting; every other state
/// toggles toward connecting.
pub open spec fn spec_mcp_operation(status: McpStatusView) -> McpOperation {
    match status {
        McpStatusView::Connected => McpOperation::Disconnect,
        _ => McpOperation::Connect,
    }
}

pub fn mcp_operation(status: &McpStatus) -> (r: McpOperation)
    ensures
        r == spec_mcp_operation(status@),
{
    match status {
        McpStatus::Connected => McpOperation::Disconnect,
        _ => McpOperation::Connect,
    }
}

/// The line the status dialog shows for an MCP server.
pub open spec fn spec_mcp_status_label(server: Seq<char>, status: McpStatusView) -> Seq<char> {
    match status {
        McpStatusView::Connected => "Connected"@,
        McpStatusView::Disabled => "Disabled in configuration"@,
        McpStatusView::Failed { error } => if error.len() == 0 {
            "Failed (check server logs)"@
        } else {
            error
        },
        McpStatusView::NeedsAuth => "Needs authentication (run: opencode mcp auth "@ + server + ")"@,
        McpStatusView::NeedsClientRegistration { error } => if error.len() == 0 {
            "Needs client registration (check MCP configuration)"@
        } else {
            error
        },
        McpStatusView::Unknown { status, detail } => match detail {
            Some(d) => status + ": "@ + d,
            None => status,
        },
    }
}

pub fn mcp_status_label(server: &str, status: &McpStatus) -> (r: String)
    ensures
        r@ == spec_mcp_status_label(server@, status@),
{
    match status {
        McpStatus::Connected => String::from_str("Connected"),
        McpStatus::Disabled => String::from_str("Disabled in configuration"),
        McpStatus::Failed { error } => if error.as_str().is_empty() {
            String::from_str("Failed (check server logs)")
        } else {
            error.clone()
        },
        McpStatus::NeedsAuth => {
            let head = concat("Needs authentication (run: opencode mcp auth ", server);
            concat(head.as_str(), ")")
        },
        McpStatus::NeedsClientRegistration { error } => if error.as_str().is_empty() {
            String::from_str("Needs client registration (check MCP configuration)")
        } else {
            error.clone()
        },
        McpStatus::Unknown { status, detail } => match detail {
            Some(d) => {
                let head = concat(status.as_str(), ": ");
                concat(head.as_str(), d.as_str())
            },
            None => status.clone(),
        },
    }
}

/// A language server as the status snapshot lists it.
#[derive(Debug, PartialEq)]
pub struct LspStatus {
    pub id: String,
    pub name: String,
    pub root: String,
    pub status: String,
}

/// A formatter as the status snapshot lists it.
#[derive(Debug, PartialEq)]
pub struct FormatterStatus {
    pub name: String,
    pub enabled: bool,
}

/// What the server reports for the status dialog.
pub struct StatusSnapshot {
    pub mcp: StrMap<McpStatus>,
    pub lsp: Vec<LspStatus>,
    pub formatters: Vec<FormatterStatus>,
    pub plugins: Vec<JsonValue>,
}

pub struct SnapshotView {
    pub mcp: Map<Seq<char>, McpStatusView>,
    pub lsp: Seq<(Seq<char>, Seq<char>, Seq<char>, Seq<char>)>,
    pub formatters: Seq<(Seq<char>, bool)>,
    pub plugins: Seq<JsonModel>,
}

impl View for StatusSnapshot {
    type V = SnapshotView;

    open spec fn view(&self) -> SnapshotView {
        SnapshotView {
            mcp: self.mcp@.map_values(|s: McpStatus| s@),
            lsp: self.lsp@.map_values(|l: LspStatus| (l.id@, l.name@, l.root@, l.status@)),
            formatters: self.formatters@.map_values(|f: FormatterStatus| (f.name@, f.enabled)),
            plugins: self.plugins@.map_values(|p: JsonValue| p@),
        }
    }
}

/// Whether every server of `a` is in `b` with the same status.
fn mcp_included(a: &StrMap<McpStatus>, b: &StrMap<McpStatus>) -> (r: bool)
    ensures
        r == (forall|k: Seq<char>| #[trigger] a@.contains_key(k) ==> b@.contains_key(k) && b@[k]@ == a@[k]@),
{
    let n = a.len();
    let mut i: usize = 0;
    while i < n
        invariant
            n == a.entry_seq().len(),
            crate::assoc::distinct_keys(a.entry_seq()),
            a@ == entries_map(a.entry_seq()),
            i <= n,
            forall|j: int| 0 <= j < i ==> {
                let k = (#[trigger] a.entry_seq()[j]).0@;
                b@.contains_key(k) && b@[k]@ == a@[k]@
            },
        decreases n - i,
    {
        let entry = a.entry_at(i);
        proof {
            lemma_entries_map_value(a.entry_seq(), i as int);
        }
        let ok = match b.get(entry.0.as_str()) {
            Some(other) => mcp_status_eq(other, &entry.1),
            None => false,
        };
        if !ok {
            return false;
        }
        i += 1;
    }
    assert forall|k: Seq<char>| #[trigger] a@.contains_key(k) implies b@.contains_key(k) && b@[k]@ == a@[k]@ by {
        lemma_entries_map_domain(a.entry_seq(), k);
        let j = choose|j: int| 0 <= j < a.entry_seq().len() && a.entry_seq()[j].0@ == k;
        assert(a.entry_seq()[j].0@ == k);
    }
    true
}

/// Whether two snapshots report the same.
pub fn snapshot_eq(a: &StatusSnapshot, b: &StatusSnapshot) -> (r: bool)
    ensures
        r == (a@ == b@),
{
    let forward = mcp_included(&a.mcp, &b.mcp);
    let backward = mcp_included(&b.mcp, &a.mcp);
    let same_mcp = forward && backward;
    if same_mcp {
        assert(a@.mcp =~= b@.mcp);
    } else {
        proof {
            if a@.mcp == b@.mcp {
                assert forall|k: Seq<char>| #[trigger] a.mcp@.contains_key(k) implies b.mcp@.contains_key(k) && b.mcp@[k]@ == a.mcp@[k]@ by {
                assert(a@.mcp.contains_key(k));
                assert(b@.mcp.contains_key(k));
                assert(a@.mcp[k] == a.mcp@[k]@);
                assert(b@.mcp[k] == b.mcp@[k]@);
            }
            assert forall|k: Seq<char>| #[trigger] b.mcp@.contains_key(k) implies a.mcp@.contains_key(k) && a.mcp@[k]@ == b.mcp@[k]@ by {
                assert(b@.mcp.contains_key(k));
                assert(a@.mcp.contains_key(k));
                assert(a@.mcp[k] == a.mcp@[k]@);
                assert(b@.mcp[k] == b.mcp@[k]@);
            }
            }
        }
        return false;
    }
    if a.lsp.len() != b.lsp.len() || a.formatters.len() != b.formatters.len() || a.plugins.len() != b.plugins.len() {
        assert(a@.lsp.len() == a.lsp@.len() && b@.lsp.len() == b.lsp@.len());
        assert(a@.formatters.len() == a.formatters@.len() && b@.formatters.len() == b.formatters@.len());
        assert(a@.plugins.len() == a.plugins@.len() && b@.plugins.len() == b.plugins@.len());
        return false;
    }
    let mut i: usize = 0;
    while i < a.lsp.len()
        invariant
            a.lsp@.len() == b.lsp@.len(),
            i <= a.lsp@.len(),
            forall|j: int| 0 <= j < i ==> a@.lsp[j] == b@.lsp[j],
        decreases a.lsp@.len() - i,
    {
        let x = &a.lsp[i];
        let y = &b.lsp[i];
        if !(crate::assoc::str_eq(x.id.as_str(), y.id.as_str()) && crate::assoc::str_eq(x.name.as_str(), y.name.as_str())
            && crate::assoc::str_eq(x.root.as_str(), y.root.as_str()) && crate::assoc::str_eq(x.status.as_str(), y.status.as_str())) {
            assert(a@.lsp[i as int] != b@.lsp[i as int]);
            return false;
        }
        i += 1;
    }
    assert(a@.lsp =~= b@.lsp);
    let mut i: usize = 0;
    while i < a.formatters.len()
        invariant
            a.formatters@.len() == b.formatters@.len(),
            i <= a.formatters@.len(),
            forall|j: int| 0 <= j < i ==> a@.formatters[j] == b@.formatters[j],
        decreases a.formatters@.len() - i,
    {
        if !(crate::assoc::str_eq(a.formatters[i].name.as_str(), b.formatters[i].name.as_str())
            && a.formatters[i].enabled == b.formatters[i].enabled) {
            assert(a@.formatters[i as int] != b@.formatters[i as int]);
            return false;
        }
        i += 1;
    }
    assert(a@.formatters =~= b@.formatters);
    let mut i: usize = 0;
    while i < a.plugins.len()
        invariant
            a.plugins@.len() == b.plugins@.len(),
            i <= a.plugins@.len(),
            forall|j: int| 0 <= j < i ==> a@.plugins[j] == b@.plugins[j],
        decreases a.plugins@.len() - i,
    {
        if !json_eq(&a.plugins[i], &b.plugins[i]) {
            assert(a@.plugins[i as int] != b@.plugins[i as int]);
            return false;
        }
        i += 1;
    }
    assert(a@.plugins =~= b@.plugins);
    true
}

} // verus!

verus! {

pub open spec fn names_view(names: Seq<String>) -> Seq<Seq<char>> {
    names.map_values(|s: String| s@)
}

/// Strictly increasing: sorted, no name twice.
pub open spec fn strictly_sorted(names: Seq<Seq<char>>) -> bool {
    forall|i: int, j: int| 0 <= i < j < names.len() ==> seq_less(names[i], names[j])
}

/// Sorts after `name`.
pub open spec fn after_name(name: Seq<char>) -> spec_fn(Seq<char>) -> bool {
    |x: Seq<char>| seq_less(name, x)
}

/// Selects `name`.
pub open spec fn is_name(name: Seq<char>) -> spec_fn(Seq<char>) -> bool {
    |x: Seq<char>| x == name
}

/// Puts a new name in its place in a sorted list.
fn insert_sorted(names: &mut Vec<String>, name: String)
    requires
        strictly_sorted(names_view(old(names)@)),
        !names_view(old(names)@).contains(name@),
    ensures
        strictly_sorted(names_view(final(names)@)),
        names_view(final(names)@) == names_view(old(names)@).insert(
            crate::seqs::first_index(names_view(old(names)@), after_name(name@)),
            name@,
        ),
{
    let ghost before = names_view(names@);
    let mut p: usize = 0;
    while p < names.len() && !str_less(name.as_str(), names[p].as_str())
        invariant
            p <= names@.len(),
            before == names_view(names@),
            forall|j: int| 0 <= j < p ==> !seq_less(name@, #[trigger] before[j]),
        decreases names@.len() - p,
    {
        p += 1;
    }
    proof {
        crate::seqs::lemma_first_index_at(before, after_name(name@), p as int);
    }
    names.insert(p, name);
    let ghost after = names_view(names@);
    assert(after =~= before.insert(p as int, name@));
    assert forall|i: int, j: int| 0 <= i < j < after.len() implies seq_less(after[i], after[j]) by {
        if p > 0 {
            lemma_seq_less_total(before[p - 1], name@);
            assert(before[p - 1] != name@);
        }
        if i < p && j == p {
            lemma_seq_less_total(before[i], name@);
            assert(before[i] != name@);
            if i < p - 1 {
                crate::text::lemma_seq_less_transitive(before[i], before[p - 1], name@);
            }
        } else if i == p && j > p {
            assert(seq_less(name@, before[p as int]));
            if j - 1 > p {
                crate::text::lemma_seq_less_transitive(name@, before[p as int], before[j - 1]);
            }
        } else if i < p && j > p {
            assert(after[i] == before[i]);
            assert(after[j] == before[j - 1]);
        } else if i > p {
            assert(after[i] == before[i - 1]);
            assert(after[j] == before[j - 1]);
        }
    }
}

/// The names of the servers of a snapshot, sorted.
pub fn sorted_names(mcp: &StrMap<McpStatus>) -> (r: Vec<String>)
    ensures
        strictly_sorted(names_view(r@)),
        forall|k: Seq<char>| names_view(r@).contains(k) <==> mcp@.contains_key(k),
{
    let n = mcp.len();
    let mut names: Vec<String> = Vec::new();
    let mut i: usize = 0;
    while i < n
        invariant
            n == mcp.entry_seq().len(),
            crate::assoc::distinct_keys(mcp.entry_seq()),
            mcp@ == entries_map(mcp.entry_seq()),
            i <= n,
            strictly_sorted(names_view(names@)),
            forall|k: Seq<char>|
                names_view(names@).contains(k) <==> exists|j: int| 0 <= j < i && (#[trigger] mcp.entry_seq()[j]).0@ == k,
        decreases n - i,
    {
        let key = mcp.entry_at(i).0.clone();
        let ghost before = names_view(names@);
        proof {
            if before.contains(key@) {
                let j = choose|j: int| 0 <= j < i && (#[trigger] mcp.entry_seq()[j]).0@ == key@;
                assert(mcp.entry_seq()[j].0@ != mcp.entry_seq()[i as int].0@);
            }
            crate::seqs::lemma_first_index(before, after_name(key@));
        }
        insert_sorted(&mut names, key);
        proof {
            let p = crate::seqs::first_index(before, after_name(key@));
            assert forall|k: Seq<char>|
                names_view(names@).contains(k) <==> exists|j: int| 0 <= j < i + 1 && (#[trigger] mcp.entry_seq()[j]).0@ == k by {
                if names_view(names@).contains(k) {
                    let m = choose|m: int| 0 <= m < names_view(names@).len() && names_view(names@)[m] == k;
                    if m < p {
                        assert(before[m] == k);
                        assert(before.contains(k));
                    } else if m > p {
                        assert(before[m - 1] == k);
                        assert(before.contains(k));
                    } else {
                        assert(mcp.entry_seq()[i as int].0@ == k);
                    }
                }
                if exists|j: int| 0 <= j < i + 1 && (#[trigger] mcp.entry_seq()[j]).0@ == k {
                    let j = choose|j: int| 0 <= j < i + 1 && (#[trigger] mcp.entry_seq()[j]).0@ == k;
                    if j < i {
                        assert(before.contains(k));
                        let m = choose|m: int| 0 <= m < before.len() && before[m] == k;
                        if m < p {
                            assert(names_view(names@)[m] == k);
                        } else {
                            assert(names_view(names@)[m + 1] == k);
                        }
                    } else {
                        assert(names_view(names@)[p] == k);
                    }
                }
            }
        }
        i += 1;
    }
    proof {
        assert forall|k: Seq<char>| names_view(names@).contains(k) <==> mcp@.contains_key(k) by {
            lemma_entries_map_domain(mcp.entry_seq(), k);
        }
    }
    names
}

} // verus!

verus! {

/// Where a status request was sent: a directory and its selected session.
#[derive(Debug, PartialEq)]
pub struct StatusTarget {
    pub directory: String,
    pub session_id: Option<String>,
}

impl View for StatusTarget {
    type V = (Seq<char>, Option<Seq<char>>);

    open spec fn view(&self) -> (Seq<char>, Option<Seq<char>>) {
        (
            self.directory@,
            match self.session_id {
                Some(s) => Some(s@),
                None => None,
            },
        )
    }
}

impl Clone for StatusTarget {
    fn clone(&self) -> (r: Self)
        ensures
            r@ == self@,
    {
        StatusTarget {
            directory: self.directory.clone(),
            session_id: match &self.session_id {
                Some(s) => Some(s.clone()),
                None => None,
            },
        }
    }
}

pub fn target_eq(a: &StatusTarget, b: &StatusTarget) -> (r: bool)
    ensures
        r == (a@ == b@),
{
    crate::assoc::str_eq(a.directory.as_str(), b.directory.as_str()) && opt_str_eq(&a.session_id, &b.session_id)
}

/// A connect or disconnect that was sent and not yet answered.
pub struct PendingMcp {
    pub name: String,
    pub operation: McpOperation,
    pub generation: u64,
    pub refresh_generation: Option<u64>,
}

pub struct PendingMcpView {
    pub name: Seq<char>,
    pub operation: McpOperation,
    pub generation: u64,
    pub refresh_generation: Option<u64>,
}

impl View for PendingMcp {
    type V = PendingMcpView;

    open spec fn view(&self) -> PendingMcpView {
        PendingMcpView {
            name: self.name@,
            operation: self.operation,
            generation: self.generation,
            refresh_generation: self.refresh_generation,
        }
    }
}

/// The status dialog: the snapshot it shows, the MCP server selected in it,
/// and the toggle in flight. Requests and toggles carry generations so that
/// late answers to superseded ones are ignored.
pub struct StatusDialogState {
    pub target: Option<StatusTarget>,
    pub generation: u64,
    pub loading: bool,
    pub snapshot: Option<StatusSnapshot>,
    pub error: Option<String>,
    pub mcp_names: Vec<String>,
    pub selected: usize,
    pub pending: Option<PendingMcp>,
    pub action_error: Option<String>,
    pub operation_generation: u64,
}

pub struct DialogView {
    pub target: Option<(Seq<char>, Option<Seq<char>>)>,
    pub generation: u64,
    pub loading: bool,
    pub snapshot: Option<SnapshotView>,
    pub error: Option<Seq<char>>,
    pub mcp_names: Seq<Seq<char>>,
    pub selected: usize,
    pub pending: Option<PendingMcpView>,
    pub action_error: Option<Seq<char>>,
    pub operation_generation: u64,
}

pub open spec fn opt_string_view(o: Option<String>) -> Option<Seq<char>> {
    match o {
        Some(s) => Some(s@),
        None => None,
    }
}

impl View for StatusDialogState {
    type V = DialogView;

    open spec fn view(&self) -> DialogView {
        DialogView {
            target: match self.target {
                Some(t) => Some(t@),
                None => None,
            },
            generation: self.generation,
            loading: self.loading,
            snapshot: match self.snapshot {
                Some(s) => Some(s@),
                None => None,
            },
            error: opt_string_view(self.error),
            mcp_names: names_view(self.mcp_names@),
            selected: self.selected,
            pending: match self.pending {
                Some(p) => Some(p@),
                None => None,
            },
            action_error: opt_string_view(self.action_error),
            operation_generation: self.operation_generation,
        }
    }
}

/// The next generation: counters wrap around.
pub open spec fn next_generation(g: u64) -> u64 {
    if g == u64::MAX {
        0
    } else {
        (g + 1) as u64
    }
}

/// The selection after the list of names changed: the same server when it is
/// still listed, else the same row as far as the list reaches.
pub open spec fn reconciled_selection(old_names: Seq<Seq<char>>, old_selected: usize, names: Seq<Seq<char>>) -> usize {
    if old_selected < old_names.len() && names.contains(old_names[old_selected as int]) {
        crate::seqs::first_index(names, is_name(old_names[old_selected as int])) as usize
    } else if old_selected < names.len() {
        old_selected
    } else if names.len() > 0 {
        (names.len() - 1) as usize
    } else {
        0
    }
}

/// Whether an operation in flight waits for the status request `generation`.
pub open spec fn refresh_pending(d: DialogView, generation: u64) -> bool {
    d.pending is Some && d.pending->0.refresh_generation == Some(generation)
}

/// Whether an answer to status request `generation` for `target` is current.
pub open spec fn answer_current(d: DialogView, target: (Seq<char>, Option<Seq<char>>), generation: u64) -> bool {
    d.generation == generation && d.target == Some(target)
}

/// The dialog once reopened: any toggle in flight is forgotten.
pub open spec fn reopened(d: DialogView) -> DialogView {
    DialogView {
        operation_generation: next_generation(d.operation_generation),
        pending: None,
        action_error: None,
        ..d
    }
}

/// The dialog once a status request for `target` began: a new generation, and
/// what was shown for another target dropped.
pub open spec fn begun(d: DialogView, target: (Seq<char>, Option<Seq<char>>)) -> DialogView {
    if d.target == Some(target) {
        DialogView {
            generation: next_generation(d.generation),
            error: None,
            target: Some(target),
            loading: true,
            ..d
        }
    } else {
        DialogView {
            generation: next_generation(d.generation),
            error: None,
            target: Some(target),
            loading: true,
            snapshot: None,
            mcp_names: Seq::empty(),
            selected: 0,
            ..d
        }
    }
}

/// The dialog once a toggle of server `name` started (with none in flight).
pub open spec fn operation_started(d: DialogView, name: Seq<char>, operation: McpOperation) -> DialogView {
    DialogView {
        operation_generation: next_generation(d.operation_generation),
        pending: Some(
            PendingMcpView {
                name,
                operation,
                generation: next_generation(d.operation_generation),
                refresh_generation: None,
            },
        ),
        action_error: None,
        ..d
    }
}

/// Whether toggle `generation` of server `name` is the one in flight.
pub open spec fn operation_current(d: DialogView, generation: u64, name: Seq<char>) -> bool {
    d.pending is Some && d.pending->0.generation == generation && d.pending->0.name == name
}

/// The dialog once the selection moved by `delta` rows, wrapping around;
/// the selected row is counted as a signed number.
pub open spec fn selection_moved(d: DialogView, delta: int) -> DialogView {
    if d.mcp_names.len() == 0 {
        d
    } else {
        DialogView {
            selected: (((d.selected as isize) + delta) % (d.mcp_names.len() as int)) as usize,
            ..d
        }
    }
}

impl StatusDialogState {
    pub fn new() -> (r: Self)
        ensures
            r@.target.is_none(),
            r@.generation == 0,
            !r@.loading,
            r@.snapshot.is_none(),
            r@.error.is_none(),
            r@.mcp_names.len() == 0,
            r@.selected == 0,
            r@.pending.is_none(),
            r@.action_error.is_none(),
            r@.operation_generation == 0,
    {
        let r = StatusDialogState {
            target: None,
            generation: 0,
            loading: false,
            snapshot: None,
            error: None,
            mcp_names: Vec::new(),
            selected: 0,
            pending: None,
            action_error: None,
            operation_generation: 0,
        };
        assert(r@.mcp_names.len() == 0);
        r
    }

    /// Opening the dialog forgets any toggle in flight.
    pub fn reset_for_open(&mut self)
        ensures
            final(self)@ == reopened(old(self)@),
    {
        self.operation_generation = self.operation_generation.wrapping_add(1);
        self.pending = None;
        self.action_error = None;
    }

    /// Starts a status request for `target` and returns its generation. A new
    /// target drops what was shown for the old one.
    pub fn begin(&mut self, target: StatusTarget) -> (r: u64)
        ensures
            r == next_generation(old(self)@.generation),
            final(self)@ == begun(old(self)@, target@),
    {
        self.generation = self.generation.wrapping_add(1);
        let same = match &self.target {
            Some(current) => target_eq(current, &target),
            None => false,
        };
        if !same {
            self.snapshot = None;
            self.mcp_names = Vec::new();
            self.selected = 0;
        }
        self.error = None;
        self.target = Some(target);
        self.loading = true;
        assert(names_view(Seq::<String>::empty()) =~= Seq::<Seq<char>>::empty());
        self.generation
    }

    fn reconcile_mcp_names(&mut self, snapshot: &StatusSnapshot)
        ensures
            strictly_sorted(final(self)@.mcp_names),
            forall|k: Seq<char>| final(self)@.mcp_names.contains(k) <==> snapshot@.mcp.contains_key(k),
            final(self)@.selected == reconciled_selection(old(self)@.mcp_names, old(self)@.selected, final(self)@.mcp_names),
            final(self)@ == (DialogView { mcp_names: final(self)@.mcp_names, selected: final(self)@.selected, ..old(self)@ }),
    {
        let ghost old_names = names_view(self.mcp_names@);
        let names = sorted_names(&snapshot.mcp);
        proof {
            assert forall|k: Seq<char>| names_view(names@).contains(k) <==> snapshot@.mcp.contains_key(k) by {
                assert(snapshot@.mcp.contains_key(k) == snapshot.mcp@.contains_key(k));
            }
        }
        let mut chosen: Option<usize> = None;
        if self.selected < self.mcp_names.len() {
            let previous = self.mcp_names[self.selected].as_str();
            let mut j: usize = 0;
            while j < names.len()
                invariant
                    j <= names@.len(),
                    forall|m: int| 0 <= m < j ==> names@[m]@ != previous@,
                ensures
                    j <= names@.len(),
                    forall|m: int| 0 <= m < j ==> names@[m]@ != previous@,
                    j < names@.len() ==> names@[j as int]@ == previous@,
                decreases names@.len() - j,
            {
                if crate::assoc::str_eq(names[j].as_str(), previous) {
                    break;
                }
                j += 1;
            }
            proof {
                crate::seqs::lemma_first_index(names_view(names@), is_name(previous@));
            }
            if j < names.len() {
                proof {
                    crate::seqs::lemma_first_index_at(names_view(names@), is_name(previous@), j as int);
                    assert(names_view(names@)[j as int] == previous@);
                }
                chosen = Some(j);
            } else {
                assert(!names_view(names@).contains(previous@)) by {
                    if names_view(names@).contains(previous@) {
                        let m = choose|m: int| 0 <= m < names_view(names@).len() && names_view(names@)[m] == previous@;
                        assert(names@[m]@ == previous@);
                    }
                }
            }
        }
        let selected = match chosen {
            Some(j) => j,
            None => if self.selected < names.len() {
                self.selected
            } else if names.len() > 0 {
                names.len() - 1
            } else {
                0
            },
        };
        self.mcp_names = names;
        self.selected = selected;
    }

    /// Takes the answer to status request `generation` for `target`; an answer
    /// to a superseded request, or for another target, is ignored. Returns
    /// whether what the dialog shows changed.
    pub fn apply(&mut self, target: &StatusTarget, generation: u64, result: Result<StatusSnapshot, String>) -> (changed: bool)
        ensures
            !answer_current(old(self)@, target@, generation) ==> !changed && final(self)@ == old(self)@,
            answer_current(old(self)@, target@, generation) ==> match result {
                Ok(snapshot) => {
                    &&& changed == (old(self)@.snapshot != Some(snapshot@) || old(self)@.error is Some || refresh_pending(old(self)@, generation))
                    &&& strictly_sorted(final(self)@.mcp_names)
                    &&& forall|k: Seq<char>| final(self)@.mcp_names.contains(k) <==> snapshot@.mcp.contains_key(k)
                    &&& final(self)@.selected == reconciled_selection(old(self)@.mcp_names, old(self)@.selected, final(self)@.mcp_names)
                    &&& final(self)@ == (DialogView {
                        loading: false,
                        snapshot: Some(snapshot@),
                        error: None,
                        mcp_names: final(self)@.mcp_names,
                        selected: final(self)@.selected,
                        pending: if refresh_pending(old(self)@, generation) { None } else { old(self)@.pending },
                        action_error: if refresh_pending(old(self)@, generation) { None } else { old(self)@.action_error },
                        ..old(self)@
                    })
                },
                Err(error) => {
                    &&& changed == (old(self)@.error != Some(error@) || refresh_pending(old(self)@, generation))
                    &&& final(self)@ == (DialogView {
                        loading: false,
                        error: Some(error@),
                        pending: if refresh_pending(old(self)@, generation) { None } else { old(self)@.pending },
                        ..old(self)@
                    })
                },
            },
    {
        let current = match &self.target {
            Some(t) => self.generation == generation && target_eq(t, target),
            None => false,
        };
        if !current {
            return false;
        }
        self.loading = false;
        let operation_refresh = match &self.pending {
            Some(p) => match p.refresh_generation {
                Some(g) => g == generation,
                None => false,
            },
            None => false,
        };
        match result {
            Ok(snapshot) => {
                let same = match &self.snapshot {
                    Some(s) => snapshot_eq(s, &snapshot),
                    None => false,
                };
                let changed = !same || self.error.is_some() || operation_refresh;
                self.reconcile_mcp_names(&snapshot);
                self.snapshot = Some(snapshot);
                self.error = None;
                if operation_refresh {
                    self.pending = None;
                    self.action_error = None;
                }
                changed
            },
            Err(error) => {
                let same = match &self.error {
                    Some(e) => crate::assoc::str_eq(e.as_str(), error.as_str()),
                    None => false,
                };
                let changed = !same || operation_refresh;
                self.error = Some(error);
                if operation_refresh {
                    self.pending = None;
                }
                changed
            },
        }
    }

    /// Moves the selection by `delta` rows, wrapping around; false when there
    /// is nothing to select.
    pub fn move_selection(&mut self, delta: isize) -> (moved: bool)
        requires
            old(self).mcp_names.len() > 0 ==> isize::MIN <= (old(self).selected as isize) + delta
                <= isize::MAX,
        ensures
            moved == (old(self)@.mcp_names.len() > 0),
            final(self)@ == selection_moved(old(self)@, delta as int),
    {
        let count = self.mcp_names.len();
        if count == 0 {
            return false;
        }
        let current: isize = self.selected as isize;
        self.selected = crate::seqs::wrap_sum(current as i128 + delta as i128, count);
        true
    }

    /// Selects row `index` when there is one.
    pub fn select(&mut self, index: usize)
        ensures
            final(self)@ == (if index < old(self)@.mcp_names.len() {
                DialogView { selected: index, ..old(self)@ }
            } else {
                old(self)@
            }),
    {
        if index < self.mcp_names.len() {
            self.selected = index;
        }
    }

    /// Starts a toggle of server `name` unless one is in flight; returns the
    /// toggle's generation.
    pub fn start_operation(&mut self, name: String, operation: McpOperation) -> (r: Option<u64>)
        ensures
            old(self)@.pending is Some ==> r.is_none() && final(self)@ == old(self)@,
            old(self)@.pending is None ==> r == Some(next_generation(old(self)@.operation_generation))
                && final(self)@ == operation_started(old(self)@, name@, operation),
    {
        if self.pending.is_some() {
            return None;
        }
        self.operation_generation = self.operation_generation.wrapping_add(1);
        let generation = self.operation_generation;
        self.pending = Some(PendingMcp { name, operation, generation, refresh_generation: None });
        self.action_error = None;
        Some(generation)
    }

    /// Whether toggle `generation` of server `name` is the one in flight.
    pub fn operation_is_current(&self, generation: u64, name: &str) -> (r: bool)
        ensures
            r == operation_current(self@, generation, name@),
    {
        match &self.pending {
            Some(p) => p.generation == generation && crate::assoc::str_eq(p.name.as_str(), name),
            None => false,
        }
    }

    /// Records that toggle `generation` waits for status request `refresh`.
    pub fn set_operation_refresh(&mut self, generation: u64, refresh: u64)
        ensures
            final(self)@ == (if old(self)@.pending is Some && old(self)@.pending->0.generation == generation {
                DialogView {
                    pending: Some(PendingMcpView { refresh_generation: Some(refresh), ..old(self)@.pending->0 }),
                    ..old(self)@
                }
            } else {
                old(self)@
            }),
    {
        let matches = match &self.pending {
            Some(p) => p.generation == generation,
            None => false,
        };
        if matches {
            let Some(p) = self.pending.take() else {
                return;
            };
            self.pending = Some(PendingMcp { refresh_generation: Some(refresh), ..p });
        }
    }

    /// Ends toggle `generation` with an error; returns false when that toggle
    /// is no longer in flight.
    pub fn fail_operation(&mut self, generation: u64, error: String) -> (r: bool)
        ensures
            r == (old(self)@.pending is Some && old(self)@.pending->0.generation == generation),
            r ==> final(self)@ == (DialogView { pending: None, action_error: Some(error@), ..old(self)@ }),
            !r ==> final(self)@ == old(self)@,
    {
        let matches = match &self.pending {
            Some(p) => p.generation == generation,
            None => false,
        };
        if !matches {
            return false;
        }
        self.pending = None;
        self.action_error = Some(error);
        true
    }
}

/// The toggle that activating the selected row starts: the selected server
/// and the operation its status calls for; none while a toggle is in flight,
/// or when no server is selected or its status is not known.
pub open spec fn selected_toggle(d: DialogView) -> Option<(Seq<char>, McpOperation)> {
    if d.pending is Some || d.selected >= d.mcp_names.len() {
        None
    } else {
        let name = d.mcp_names[d.selected as int];
        match d.snapshot {
            Some(s) => if s.mcp.contains_key(name) {
                Some((name, spec_mcp_operation(s.mcp[name])))
            } else {
                None
            },
            None => None,
        }
    }
}

/// Whether an answer to toggle `generation` of server `name`, started for
/// status target `started_for`, still counts: the window shows that target
/// and the toggle is the one in flight.
pub open spec fn toggle_answer_current(
    d: DialogView,
    started_for: (Seq<char>, Option<Seq<char>>),
    current: Option<&StatusTarget>,
    generation: u64,
    name: Seq<char>,
) -> bool {
    &&& current matches Some(target) && target@ == started_for
    &&& operation_current(d, generation, name)
}

/// What the dialog does with the server's answer to a toggle.
#[derive(PartialEq, Eq, Structural, Clone, Copy, Debug)]
pub enum ToggleOutcome {
    /// The toggle is no longer the one in flight: nothing changes.
    Ignored,
    /// The toggle went through: the status is to be read again.
    Refresh,
    /// The toggle failed: the dialog shows why.
    Failed,
}

/// The message shown when a toggle fails.
pub open spec fn toggle_failure(operation: McpOperation, name: Seq<char>, reason: Seq<char>) -> Seq<char> {
    "Could not "@ + operation.spec_verb() + " "@ + name + ": "@ + reason + ". Retry the toggle."@
}

impl StatusDialogState {
    /// Starts the toggle of the selected server, as `selected_toggle` gives
    /// it, for the status target the window shows (`current`; none when no
    /// tab is active, and then nothing starts); returns the server, the
    /// operation, the toggle's generation and the target it was started for.
    pub fn toggle_selected(&mut self, current: Option<StatusTarget>) -> (r: Option<
        (String, McpOperation, u64, StatusTarget),
    >)
        ensures
            match (selected_toggle(old(self)@), current) {
                (Some((name, operation)), Some(target)) => match r {
                    Some((started, op, generation, started_for)) => started@ == name && op
                        == operation && generation == next_generation(
                        old(self)@.operation_generation,
                    ) && started_for@ == target@ && final(self)@ == operation_started(
                        old(self)@,
                        name,
                        operation,
                    ),
                    None => false,
                },
                _ => r is None && final(self)@ == old(self)@,
            },
    {
        if self.pending.is_some() || self.selected >= self.mcp_names.len() {
            return None;
        }
        let name = self.mcp_names[self.selected].clone();
        let operation = match &self.snapshot {
            Some(snapshot) => match snapshot.mcp.get(name.as_str()) {
                Some(status) => mcp_operation(status),
                None => return None,
            },
            None => return None,
        };
        let target = match current {
            Some(target) => target,
            None => return None,
        };
        match self.start_operation(name.clone(), operation) {
            Some(generation) => Some((name, operation, generation, target)),
            None => None,
        }
    }

    /// Takes the server's answer to toggle `generation` of server `name`,
    /// started for status target `started_for`: `true` asks for a fresh
    /// status, `false` or an error ends the toggle with a message. The answer
    /// is ignored when the window no longer shows that target (`current`,
    /// none when the status dialog is closed or no tab is active) or the
    /// toggle is no longer in flight.
    pub fn finish_toggle(
        &mut self,
        started_for: &StatusTarget,
        current: Option<&StatusTarget>,
        generation: u64,
        name: &str,
        answer: Result<bool, String>,
    ) -> (r: ToggleOutcome)
        ensures
            !toggle_answer_current(old(self)@, started_for@, current, generation, name@) ==> r
                == ToggleOutcome::Ignored && final(self)@ == old(self)@,
            toggle_answer_current(old(self)@, started_for@, current, generation, name@) ==> match answer {
                Ok(true) => r == ToggleOutcome::Refresh && final(self)@ == old(self)@,
                Ok(false) => r == ToggleOutcome::Failed && final(self)@ == (DialogView {
                    pending: None,
                    action_error: Some(
                        toggle_failure(
                            old(self)@.pending->0.operation,
                            name@,
                            "OpenCode returned false"@,
                        ),
                    ),
                    ..old(self)@
                }),
                Err(e) => r == ToggleOutcome::Failed && final(self)@ == (DialogView {
                    pending: None,
                    action_error: Some(toggle_failure(old(self)@.pending->0.operation, name@, e@)),
                    ..old(self)@
                }),
            },
    {
        let shown = match current {
            Some(target) => target_eq(target, started_for),
            None => false,
        };
        if !shown || !self.operation_is_current(generation, name) {
            return ToggleOutcome::Ignored;
        }
        let operation = match &self.pending {
            Some(p) => p.operation,
            None => return ToggleOutcome::Ignored,
        };
        let reason = match answer {
            Ok(true) => return ToggleOutcome::Refresh,
            Ok(false) => "OpenCode returned false".to_owned(),
            Err(e) => e,
        };
        let mut message = concat("Could not ", operation.verb());
        crate::text::push_str(&mut message, " ");
        crate::text::push_str(&mut message, name);
        crate::text::push_str(&mut message, ": ");
        crate::text::push_str(&mut message, reason.as_str());
        crate::text::push_str(&mut message, ". Retry the toggle.");
        self.fail_operation(generation, message);
        ToggleOutcome::Failed
    }
}

/// The colour an MCP server's status is shown in: green when connected,
/// muted when disabled, yellow when it waits for authentication, red
/// otherwise.
pub open spec fn mcp_tone_of(status: McpStatusView) -> crate::part_format::ColorRole {
    match status {
        McpStatusView::Connected => crate::part_format::ColorRole::Green,
        McpStatusView::Disabled => crate::part_format::ColorRole::TextMuted,
        McpStatusView::NeedsAuth => crate::part_format::ColorRole::Yellow,
        _ => crate::part_format::ColorRole::Red,
    }
}

pub fn mcp_tone(status: &McpStatus) -> (r: crate::part_format::ColorRole)
    ensures
        r == mcp_tone_of(status@),
{
    match status {
        McpStatus::Connected => crate::part_format::ColorRole::Green,
        McpStatus::Disabled => crate::part_format::ColorRole::TextMuted,
        McpStatus::NeedsAuth => crate::part_format::ColorRole::Yellow,
        McpStatus::Failed { .. } => crate::part_format::ColorRole::Red,
        McpStatus::NeedsClientRegistration { .. } => crate::part_format::ColorRole::Red,
        McpStatus::Unknown { .. } => crate::part_format::ColorRole::Red,
    }
}

impl crate::workspace::DirectoryTimeline {
    /// What the status dialog asks the server about for this tab: its
    /// directory and the session it shows, if any.
    pub fn status_target(&self) -> (r: StatusTarget)
        ensures
            r@ == (self@.directory, self@.timeline.session_id()),
    {
        StatusTarget {
            directory: self.directory.clone(),
            session_id: match self.timeline.session_id() {
                Some(id) => Some(id.to_owned()),
                None => None,
            },
        }
    }
}

} // verus!
