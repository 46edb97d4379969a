use vstd::prelude::*;

use crate::json::{
    lemma_fields_view, lemma_view_with_field, model_with_field, object_insert, str_field, JsonModel,
    JsonValue,
};
use crate::model::{parts_view, text_key, Part, PartView};
use crate::seqs::{first_index, lemma_first_index, lemma_first_index_at, lemma_filter_push};
use crate::text::{concat, starts_with};

verus! {

pub open spec fn file_kind() -> Seq<char> {
    seq!['f', 'i', 'l', 'e']
}

pub open spec fn url_key() -> Seq<char> {
    seq!['u', 'r', 'l']
}

/// Selects the part with the given id.
pub open spec fn has_part_id(id: Seq<char>) -> spec_fn(PartView) -> bool {
    |p: PartView| p.id == id
}

/// Position of the part `id` among `parts`, or their number.
pub open spec fn part_index(parts: Seq<PartView>, id: Seq<char>) -> int {
    first_index(parts, has_part_id(id))
}

/// The part with its field `field` set to the string `value`.
pub open spec fn with_string_field(p: PartView, field: Seq<char>, value: Seq<char>) -> PartView {
    PartView { data: model_with_field(p.data, field, JsonModel::String(value)), ..p }
}

/// The part with its text replaced.
pub open spec fn with_text(p: PartView, text: Seq<char>) -> PartView {
    with_string_field(p, text_key(), text)
}

/// The URL of a file part; nothing for any other part.
pub open spec fn file_url(p: PartView) -> Option<Seq<char>> {
    if p.kind == file_kind() {
        str_field(p.data, url_key())
    } else {
        None
    }
}

/// Keeps the parts that are not a file with the given URL.
pub open spec fn not_file_at(url: Seq<char>) -> spec_fn(PartView) -> bool {
    |p: PartView| file_url(p) != Some(url)
}

/// The parts without the ones that an incoming file part stands for: a file
/// with the same URL (an optimistic copy, replaced by the server's).
pub open spec fn without_same_file(parts: Seq<PartView>, incoming: PartView) -> Seq<PartView> {
    match file_url(incoming) {
        Some(url) => parts.filter(not_file_at(url)),
        None => parts,
    }
}

/// The parts after an update of part `incoming` with an optional streamed
/// `delta`. A known part is replaced in place; when a delta comes with text
/// that does not extend what is shown, the delta is appended to what is shown.
/// A new part goes last, taking the delta as its text when it has none.
pub open spec fn merged_parts(
    parts: Seq<PartView>,
    incoming: PartView,
    delta: Option<Seq<char>>,
) -> Seq<PartView> {
    let i = part_index(parts, incoming.id);
    if i < parts.len() {
        let current = parts[i].text_or_empty();
        let next = match delta {
            Some(d) => if current.is_prefix_of(incoming.text_or_empty()) {
                incoming
            } else {
                with_text(incoming, current + d)
            },
            None => incoming,
        };
        parts.update(i, next)
    } else {
        let next = match delta {
            Some(d) => if incoming.text_or_empty().len() == 0 {
                with_text(incoming, d)
            } else {
                incoming
            },
            None => incoming,
        };
        without_same_file(parts, incoming).push(next)
    }
}

/// The part with `delta` appended to its string field `field` (a missing or
/// non-string field counts as empty).
pub open spec fn appended(p: PartView, field: Seq<char>, delta: Seq<char>) -> PartView {
    let current = match str_field(p.data, field) {
        Some(s) => s,
        None => Seq::empty(),
    };
    with_string_field(p, field, current + delta)
}

/// Finds the part `id`.
pub fn find_part(parts: &Vec<Part>, id: &str) -> (r: usize)
    ensures
        r == part_index(parts_view(parts@), id@),
{
    proof {
        lemma_first_index(parts_view(parts@), has_part_id(id@));
    }
    let mut i: usize = 0;
    while i < parts.len()
        invariant
            i <= parts@.len(),
            forall|j: int| 0 <= j < i ==> parts@[j].id@ != id@,
        decreases parts@.len() - i,
    {
        if crate::assoc::str_eq(parts[i].id.as_str(), id) {
            proof {
                lemma_first_index_at(parts_view(parts@), has_part_id(id@), i as int);
            }
            return i;
        }
        i += 1;
    }
    proof {
        lemma_first_index_at(parts_view(parts@), has_part_id(id@), i as int);
    }
    i
}

/// Sets the string field `field` of a part.
fn set_string_field(part: &mut Part, field: String, value: String)
    ensures
        final(part)@ == with_string_field(old(part)@, field@, value@),
{
    proof {
        lemma_view_with_field(part.data@, field, JsonValue::String(value));
    }
    object_insert(&mut part.data, field, JsonValue::String(value));
}

fn text_field_name() -> (r: String)
    ensures
        r@ == text_key(),
{
    let key = "text";
    proof {
        reveal_strlit("text");
    }
    String::from_str(key)
}

/// The URL of a file part.
fn part_file_url(part: &Part) -> (r: Option<&str>)
    ensures
        match r {
            Some(u) => file_url(part@) == Some(u@),
            None => file_url(part@).is_none(),
        },
{
    let file = "file";
    let url = "url";
    proof {
        reveal_strlit("file");
        reveal_strlit("url");
        assert(file@ =~= file_kind());
        assert(url@ =~= url_key());
    }
    if crate::assoc::str_eq(part.kind.as_str(), file) {
        part.str_field(url)
    } else {
        None
    }
}

/// Drops the file parts that an incoming file part replaces: those with the
/// same URL.
pub fn reconcile_file(parts: &mut Vec<Part>, incoming: &Part)
    ensures
        parts_view(final(parts)@) == without_same_file(parts_view(old(parts)@), incoming@),
{
    let Some(url) = part_file_url(incoming) else {
        return;
    };
    let ghost pred = not_file_at(url@);
    let mut kept: Vec<Part> = Vec::new();
    let mut i: usize = 0;
    while i < parts.len()
        invariant
            i <= parts@.len(),
            pred == not_file_at(url@),
            parts_view(kept@) == parts_view(parts@).take(i as int).filter(pred),
        decreases parts@.len() - i,
    {
        let keep = match part_file_url(&parts[i]) {
            Some(other) => !crate::assoc::str_eq(other, url),
            None => true,
        };
        proof {
            assert(parts_view(parts@).take(i + 1) =~= parts_view(parts@).take(i as int).push(
                parts@[i as int]@,
            ));
            lemma_filter_push(parts_view(parts@).take(i as int), parts@[i as int]@, pred);
        }
        if keep {
            let copy = parts[i].clone();
            kept.push(copy);
            assert(parts_view(kept@) =~= parts_view(parts@).take(i as int).filter(pred).push(
                parts@[i as int]@,
            ));
        }
        i += 1;
    }
    assert(parts_view(parts@).take(parts@.len() as int) =~= parts_view(parts@));
    *parts = kept;
}

/// Folds an updated part into a message's parts.
pub fn merge_part(parts: &mut Vec<Part>, incoming: Part, delta: Option<&str>)
    ensures
        parts_view(final(parts)@) == merged_parts(
            parts_view(old(parts)@),
            incoming@,
            match delta {
                Some(d) => Some(d@),
                None => None,
            },
        ),
{
    proof {
        reveal_strlit("");
    }
    let ghost inc0 = incoming@;
    let ghost dv = match delta {
        Some(d) => Some(d@),
        None => None,
    };
    let mut incoming = incoming;
    let i = find_part(parts, incoming.id.as_str());
    proof {
        lemma_first_index(parts_view(parts@), has_part_id(incoming@.id));
    }
    if i < parts.len() {
        let current_text = match parts[i].text() {
            Some(t) => t,
            None => "",
        };
        let incoming_text = match incoming.text() {
            Some(t) => t,
            None => "",
        };
        if let Some(d) = delta {
            if !starts_with(incoming_text, current_text) {
                let text = concat(current_text, d);
                set_string_field(&mut incoming, text_field_name(), text);
            }
        }
        let ghost before = parts_view(parts@);
        let ghost next = incoming@;
        assert(before[i as int].text_or_empty() == current_text@);
        parts[i] = incoming;
        assert(parts_view(parts@) =~= before.update(i as int, next));
    } else {
        reconcile_file(parts, &incoming);
        let empty = match incoming.text() {
            Some(t) => t.is_empty(),
            None => true,
        };
        if let Some(d) = delta {
            if empty {
                set_string_field(&mut incoming, text_field_name(), String::from_str(d));
            }
        }
        let ghost before = parts_view(parts@);
        let ghost next = incoming@;
        parts.push(incoming);
        assert(parts_view(parts@) =~= before.push(next));
    }
}

/// Appends a streamed delta to a string field of a part.
pub fn append_part_field(part: &mut Part, field: &str, delta: &str)
    ensures
        final(part)@ == appended(old(part)@, field@, delta@),
{
    proof {
        reveal_strlit("");
    }
    let current = match part.str_field(field) {
        Some(s) => s,
        None => "",
    };
    let value = concat(current, delta);
    set_string_field(part, String::from_str(field), value);
}

} // verus!
