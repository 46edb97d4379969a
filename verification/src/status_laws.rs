use vstd::prelude::*;

use crate::seqs::lemma_first_index;
use crate::status_dialog::{
    answer_current, begun, is_name, next_generation, operation_current, operation_started,
    reconciled_selection, reopened, selection_moved, strictly_sorted, DialogView, McpOperation,
};
use crate::text::{lemma_seq_less_total, seq_less};

verus! {

/// Once a newer status request has begun, the answer to the one before it is
/// not current, whatever target it names: it is ignored.
pub proof fn law_superseded_answer_is_ignored(
    d: DialogView,
    first: (Seq<char>, Option<Seq<char>>),
    second: (Seq<char>, Option<Seq<char>>),
    answered: (Seq<char>, Option<Seq<char>>),
)
    ensures
        !answer_current(begun(begun(d, first), second), answered, begun(d, first).generation),
{
}

/// An answer for another target than the one last asked about is ignored.
pub proof fn law_answer_for_other_target_is_ignored(
    d: DialogView,
    target: (Seq<char>, Option<Seq<char>>),
    answered: (Seq<char>, Option<Seq<char>>),
    generation: u64,
)
    requires
        answered != target,
    ensures
        !answer_current(begun(d, target), answered, generation),
{
}

/// The answer to the request that just began, for its target, is current.
pub proof fn law_latest_answer_is_taken(d: DialogView, target: (Seq<char>, Option<Seq<char>>))
    ensures
        answer_current(begun(d, target), target, next_generation(d.generation)),
{
}

/// A started toggle is the one in flight, and while it is, another start is
/// refused.
pub proof fn law_started_toggle_blocks_another(
    d: DialogView,
    name: Seq<char>,
    operation: McpOperation,
)
    requires
        d.pending is None,
    ensures
        operation_current(
            operation_started(d, name, operation),
            next_generation(d.operation_generation),
            name,
        ),
        operation_started(d, name, operation).pending is Some,
{
}

/// Reopening the dialog leaves no toggle current.
pub proof fn law_reopening_forgets_toggles(d: DialogView, generation: u64, name: Seq<char>)
    ensures
        !operation_current(reopened(d), generation, name),
{
}

/// Moving the selection down one row and back up returns to the same row.
pub proof fn law_selection_down_up_returns(d: DialogView)
    requires
        d.selected < d.mcp_names.len() <= isize::MAX,
    ensures
        selection_moved(selection_moved(d, 1), -1).selected == d.selected,
{
    let n = d.mcp_names.len() as int;
    let s = d.selected as int;
    if s + 1 < n {
        vstd::arithmetic::div_mod::lemma_small_mod((s + 1) as nat, n as nat);
        vstd::arithmetic::div_mod::lemma_small_mod(s as nat, n as nat);
    } else {
        vstd::arithmetic::div_mod::lemma_mod_self_0(n);
        lemma_minus_one_mod(n);
    }
}

proof fn lemma_minus_one_mod(n: int)
    requires
        n > 0,
    ensures
        (-1int) % n == n - 1,
{
    vstd::arithmetic::div_mod::lemma_mod_sub_multiples_vanish(n - 1, n);
    vstd::arithmetic::div_mod::lemma_small_mod((n - 1) as nat, n as nat);
}

/// Moving up from the first row wraps around to the last.
pub proof fn law_selection_wraps_to_last(d: DialogView)
    requires
        d.selected == 0,
        0 < d.mcp_names.len() <= isize::MAX,
    ensures
        selection_moved(d, -1).selected == d.mcp_names.len() - 1,
{
    lemma_minus_one_mod(d.mcp_names.len() as int);
}

/// When new names arrive, the selected server stays selected if it is still
/// listed.
pub proof fn law_reconcile_keeps_selected_server(
    old_names: Seq<Seq<char>>,
    old_selected: usize,
    names: Seq<Seq<char>>,
)
    requires
        old_selected < old_names.len(),
        names.len() <= usize::MAX,
        names.contains(old_names[old_selected as int]),
    ensures
        reconciled_selection(old_names, old_selected, names) < names.len(),
        names[reconciled_selection(old_names, old_selected, names) as int]
            == old_names[old_selected as int],
{
    let name = old_names[old_selected as int];
    lemma_first_index(names, is_name(name));
    let j = choose|j: int| 0 <= j < names.len() && names[j] == name;
    assert(is_name(name)(names[j]));
    let i = crate::seqs::first_index(names, is_name(name));
    assert(i <= j);
    assert(i < names.len());
    assert(is_name(name)(names[i]));
}

proof fn lemma_sorted_same_names_equal(a: Seq<Seq<char>>, b: Seq<Seq<char>>)
    requires
        strictly_sorted(a),
        strictly_sorted(b),
        forall|k: Seq<char>| a.contains(k) <==> b.contains(k),
    ensures
        a == b,
    decreases a.len(),
{
    if a.len() == 0 {
        if b.len() > 0 {
            assert(b.contains(b[0]));
        }
        assert(a =~= b);
    } else if b.len() == 0 {
        assert(a.contains(a[0]));
    } else {
        assert(a.contains(a[0]));
        assert(b.contains(b[0]));
        if a[0] != b[0] {
            let j = choose|j: int| 0 <= j < b.len() && b[j] == a[0];
            let k = choose|k: int| 0 <= k < a.len() && a[k] == b[0];
            assert(j > 0 && k > 0);
            assert(seq_less(b[0], b[j]));
            assert(seq_less(a[0], a[k]));
            lemma_seq_less_total(a[0], b[0]);
        }
        let a1 = a.drop_first();
        let b1 = b.drop_first();
        assert forall|x: Seq<char>| a1.contains(x) implies b1.contains(x) by {
            let i = choose|i: int| 0 <= i < a1.len() && a1[i] == x;
            assert(a[i + 1] == x);
            assert(b.contains(x));
            let j = choose|j: int| 0 <= j < b.len() && b[j] == x;
            if j == 0 {
                assert(seq_less(a[0], a[i + 1]));
                lemma_seq_less_total(x, x);
            }
            assert(b1[j - 1] == x);
        }
        assert forall|x: Seq<char>| b1.contains(x) implies a1.contains(x) by {
            let i = choose|i: int| 0 <= i < b1.len() && b1[i] == x;
            assert(b[i + 1] == x);
            assert(a.contains(x));
            let j = choose|j: int| 0 <= j < a.len() && a[j] == x;
            if j == 0 {
                assert(seq_less(b[0], b[i + 1]));
                lemma_seq_less_total(x, x);
            }
            assert(a1[j - 1] == x);
        }
        assert(strictly_sorted(a1)) by {
            assert forall|i: int, j: int| 0 <= i < j < a1.len() implies seq_less(a1[i], a1[j]) by {
                assert(a1[i] == a[i + 1] && a1[j] == a[j + 1]);
            }
        }
        assert(strictly_sorted(b1)) by {
            assert forall|i: int, j: int| 0 <= i < j < b1.len() implies seq_less(b1[i], b1[j]) by {
                assert(b1[i] == b[i + 1] && b1[j] == b[j + 1]);
            }
        }
        lemma_sorted_same_names_equal(a1, b1);
        assert(a =~= b) by {
            assert forall|i: int| 0 <= i < a.len() implies a[i] == b[i] by {
                if i > 0 {
                    assert(a1[i - 1] == a[i] && b1[i - 1] == b[i]);
                }
            }
        }
    }
}

/// The names of the same MCP servers read again (the sorted list, without
/// repeats, of the same names, as `apply` makes it) are the same list, and a
/// selection the dialog keeps (a row of the list, or the first row of an
/// empty one) stays where it is.
pub proof fn law_same_names_keep_list_and_selection(
    names: Seq<Seq<char>>,
    again: Seq<Seq<char>>,
    selected: usize,
)
    requires
        strictly_sorted(names),
        strictly_sorted(again),
        forall|k: Seq<char>| names.contains(k) <==> again.contains(k),
        selected < names.len() || (names.len() == 0 && selected == 0),
    ensures
        again == names,
        reconciled_selection(names, selected, again) == selected,
{
    lemma_sorted_same_names_equal(names, again);
    if selected < names.len() {
        let name = names[selected as int];
        assert(names.contains(name));
        lemma_first_index(names, is_name(name));
        let i = crate::seqs::first_index(names, is_name(name));
        assert(is_name(name)(names[selected as int]));
        assert(i <= selected);
        if i < selected {
            assert(seq_less(names[i], names[selected as int]));
            lemma_seq_less_total(name, name);
        }
    }
}

} // verus!
