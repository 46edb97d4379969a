use vstd::prelude::*;

use crate::assoc::str_eq;
use crate::json::{lemma_field_agrees, lemma_items_view, lemma_view_get, model_field, object_get, str_field, JsonModel, JsonValue};
use crate::model::{Part, PartView};
use crate::text::{concat, decimal, push_decimal, push_str, starts_with, trim, trimmed, u64_text};

verus! {

/// The theme colours that the timeline uses for part kinds and markers.
#[derive(PartialEq, Eq, Structural, Clone, Copy, Debug)]
pub enum ColorRole {
    Tool,
    Reasoning,
    Cyan,
    Blue,
    Red,
    Green,
    Yellow,
    TextMuted,
    Border,
}

/// The colour of a part kind's label.
pub open spec fn kind_color_of(kind: Seq<char>) -> ColorRole {
    if kind == "tool"@ {
        ColorRole::Tool
    } else if kind == "reasoning"@ {
        ColorRole::Reasoning
    } else if kind == "file"@ || kind == "patch"@ {
        ColorRole::Cyan
    } else if kind == "subtask"@ || kind == "agent"@ {
        ColorRole::Blue
    } else if kind == "retry"@ {
        ColorRole::Red
    } else {
        ColorRole::TextMuted
    }
}

pub fn kind_color(kind: &str) -> (r: ColorRole)
    ensures
        r == kind_color_of(kind@),
{
    if str_eq(kind, "tool") {
        ColorRole::Tool
    } else if str_eq(kind, "reasoning") {
        ColorRole::Reasoning
    } else if str_eq(kind, "file") || str_eq(kind, "patch") {
        ColorRole::Cyan
    } else if str_eq(kind, "subtask") || str_eq(kind, "agent") {
        ColorRole::Blue
    } else if str_eq(kind, "retry") {
        ColorRole::Red
    } else {
        ColorRole::TextMuted
    }
}

/// A part that records a tool call.
pub open spec fn is_tool_part_of(p: PartView) -> bool {
    p.kind == "tool"@ || model_field(p.data, "tool"@) is Some
}

pub fn is_tool_part(part: &Part) -> (r: bool)
    ensures
        r == is_tool_part_of(part@),
{
    proof {
        lemma_field_agrees(part.data@, "tool"@);
    }
    str_eq(part.kind.as_str(), "tool") || object_get(&part.data, "tool").is_some()
}

/// The name of the tool a part calls.
pub open spec fn tool_name_of(p: PartView) -> Seq<char> {
    match str_field(p.data, "tool"@) {
        Some(t) => t,
        None => "tool"@,
    }
}

pub fn tool_name(part: &Part) -> (r: &str)
    ensures
        r@ == tool_name_of(part@),
{
    match part.str_field("tool") {
        Some(t) => t,
        None => "tool",
    }
}

/// The icon shown for a tool.
pub open spec fn tool_icon_of(tool: Seq<char>) -> Seq<char> {
    if tool == "bash"@ {
        "$"@
    } else if tool == "read"@ {
        "→"@
    } else if tool == "grep"@ || tool == "glob"@ {
        "*"@
    } else if tool == "apply_patch"@ || tool == "patch"@ || tool == "edit"@ || tool == "write"@ {
        "←"@
    } else if tool == "task"@ {
        "@"@
    } else {
        "·"@
    }
}

pub fn tool_icon(tool: &str) -> (r: &'static str)
    ensures
        r@ == tool_icon_of(tool@),
{
    if str_eq(tool, "bash") {
        "$"
    } else if str_eq(tool, "read") {
        "→"
    } else if str_eq(tool, "grep") || str_eq(tool, "glob") {
        "*"
    } else if str_eq(tool, "apply_patch") || str_eq(tool, "patch") || str_eq(tool, "edit")
        || str_eq(tool, "write") {
        "←"
    } else if str_eq(tool, "task") {
        "@"
    } else {
        "·"
    }
}

/// The label of a part's kind column.
pub open spec fn part_label_of(p: PartView) -> Seq<char> {
    if p.kind == "tool"@ {
        tool_icon_of(tool_name_of(p))
    } else if p.kind == "reasoning"@ {
        "thought"@
    } else {
        p.kind
    }
}

pub fn part_label(part: &Part) -> (r: String)
    ensures
        r@ == part_label_of(part@),
{
    if str_eq(part.kind.as_str(), "tool") {
        tool_icon(tool_name(part)).to_owned()
    } else if str_eq(part.kind.as_str(), "reasoning") {
        "thought".to_owned()
    } else {
        part.kind.clone()
    }
}

/// The `state` object of a tool part.
pub open spec fn state_of(p: PartView) -> Option<JsonModel> {
    model_field(p.data, "state"@)
}

/// Field `key` of a value that may be missing.
pub open spec fn in_opt(v: Option<JsonModel>, key: Seq<char>) -> Option<JsonModel> {
    match v {
        Some(x) => x.get(key),
        None => None,
    }
}

/// A value that may be missing, read as a string.
pub open spec fn str_of(v: Option<JsonModel>) -> Option<Seq<char>> {
    match v {
        Some(x) => x.as_str(),
        None => None,
    }
}

fn part_state(part: &Part) -> (r: Option<&JsonValue>)
    ensures
        match r {
            Some(v) => state_of(part@) == Some(v@),
            None => state_of(part@) is None,
        },
{
    proof {
        lemma_field_agrees(part.data@, "state"@);
    }
    object_get(&part.data, "state")
}

fn get_in<'a>(v: Option<&'a JsonValue>, key: &str) -> (r: Option<&'a JsonValue>)
    ensures
        match r {
            Some(x) => v is Some && in_opt(Some(v->0@), key@) == Some(x@),
            None => match v {
                Some(y) => in_opt(Some(y@), key@) is None,
                None => true,
            },
        },
{
    match v {
        Some(x) => {
            proof {
                lemma_view_get(*x, key@);
            }
            x.get(key)
        },
        None => None,
    }
}

/// The model of a value that may be missing.
pub open spec fn opt_model(v: Option<&JsonValue>) -> Option<JsonModel> {
    match v {
        Some(x) => Some(x@),
        None => None,
    }
}

fn str_in<'a>(v: Option<&'a JsonValue>) -> (r: Option<&'a str>)
    ensures
        match r {
            Some(s) => str_of(opt_model(v)) == Some(s@),
            None => str_of(opt_model(v)) is None,
        },
{
    match v {
        Some(x) => x.as_str(),
        None => None,
    }
}

/// The marker of a part and its colour: tools show whether they run or
/// failed.
pub open spec fn part_marker_of(p: PartView) -> (Seq<char>, ColorRole) {
    if !is_tool_part_of(p) {
        ("›"@, kind_color_of(p.kind))
    } else {
        match str_of(in_opt(state_of(p), "status"@)) {
            Some(s) => if s == "running"@ || s == "pending"@ {
                ("●"@, ColorRole::Green)
            } else if s == "error"@ || s == "failed"@ {
                ("!"@, ColorRole::Red)
            } else {
                ("›"@, ColorRole::TextMuted)
            },
            None => ("›"@, ColorRole::TextMuted),
        }
    }
}

pub fn part_marker(part: &Part) -> (r: (&'static str, ColorRole))
    ensures
        (r.0@, r.1) == part_marker_of(part@),
{
    if !is_tool_part(part) {
        return ("›", kind_color(part.kind.as_str()));
    }
    let state = part_state(part);
    let status = str_in(get_in(state, "status"));
    match status {
        Some(s) => if str_eq(s, "running") || str_eq(s, "pending") {
            ("●", ColorRole::Green)
        } else if str_eq(s, "error") || str_eq(s, "failed") {
            ("!", ColorRole::Red)
        } else {
            ("›", ColorRole::TextMuted)
        },
        None => ("›", ColorRole::TextMuted),
    }
}

/// Whether a part is a patch whose result carries a diff to show.
pub open spec fn produces_diff_of(p: PartView) -> bool {
    (tool_name_of(p) == "apply_patch"@ || tool_name_of(p) == "patch"@) && match str_of(
        in_opt(in_opt(state_of(p), "metadata"@), "diff"@),
    ) {
        Some(diff) => diff.len() > 0,
        None => false,
    }
}

pub fn produces_diff(part: &Part) -> (r: bool)
    ensures
        r == produces_diff_of(part@),
{
    let tool = tool_name(part);
    if !(str_eq(tool, "apply_patch") || str_eq(tool, "patch")) {
        return false;
    }
    let diff = str_in(get_in(get_in(part_state(part), "metadata"), "diff"));
    match diff {
        Some(d) => !d.is_empty(),
        None => false,
    }
}

/// A path shown relative to the workspace directory when it lies inside it.
pub open spec fn display_path_of(path: Seq<char>, directory: Seq<char>) -> Seq<char> {
    if directory.is_prefix_of(path) && path.len() > directory.len() && path[directory.len() as int]
        == '/' {
        path.subrange(directory.len() as int + 1, path.len() as int)
    } else {
        path
    }
}

fn suffix_from(s: &str, start: usize) -> (r: String)
    requires
        start <= s@.len(),
    ensures
        r@ == s@.subrange(start as int, s@.len() as int),
{
    let chars = crate::text::chars_of(s);
    let mut out: Vec<char> = Vec::new();
    let mut i: usize = start;
    while i < chars.len()
        invariant
            chars@ == s@,
            start <= i <= chars@.len(),
            out@ == chars@.subrange(start as int, i as int),
        decreases chars@.len() - i,
    {
        out.push(chars[i]);
        assert(chars@.subrange(start as int, i + 1) =~= chars@.subrange(start as int, i as int).push(
            chars@[i as int],
        ));
        i += 1;
    }
    crate::text::string_of(&out)
}

fn char_count(s: &str) -> (n: usize)
    ensures
        n == s@.len(),
{
    crate::text::chars_of(s).len()
}

pub fn display_path(path: &str, directory: &str) -> (r: String)
    ensures
        r@ == display_path_of(path@, directory@),
{
    if starts_with(path, directory) {
        let chars = crate::text::chars_of(path);
        let n = char_count(directory);
        if chars.len() > n && chars[n] == '/' {
            return suffix_from(path, n + 1);
        }
    }
    path.to_owned()
}

/// Text without surrounding white space, and without a bold marker pair
/// around it.
pub open spec fn strip_inline_markers_of(text: Seq<char>) -> Seq<char> {
    let t = trimmed(text);
    if t.len() >= 4 && "**"@.is_prefix_of(t) && t.subrange(t.len() - 2, t.len() as int) == "**"@ {
        t.subrange(2, t.len() - 2)
    } else {
        t
    }
}

pub fn strip_inline_markers(text: &str) -> (r: String)
    ensures
        r@ == strip_inline_markers_of(text@),
{
    proof {
        reveal_strlit("**");
    }
    let t = trim(text);
    let chars = crate::text::chars_of(t.as_str());
    let n = chars.len();
    if n >= 4 && chars[0] == '*' && chars[1] == '*' && chars[n - 2] == '*' && chars[n - 1] == '*' {
        assert("**"@.is_prefix_of(t@));
        assert(t@.subrange(n - 2, n as int) =~= "**"@);
        let mut out: Vec<char> = Vec::new();
        let mut i: usize = 2;
        while i < n - 2
            invariant
                chars@ == t@,
                n == chars@.len(),
                n >= 4,
                2 <= i <= n - 2,
                out@ == chars@.subrange(2, i as int),
            decreases n - 2 - i,
        {
            out.push(chars[i]);
            assert(chars@.subrange(2, i + 1) =~= chars@.subrange(2, i as int).push(chars@[i as int]));
            i += 1;
        }
        crate::text::string_of(&out)
    } else {
        proof {
            if t@.len() >= 4 && "**"@.is_prefix_of(t@) && t@.subrange(t@.len() - 2, t@.len() as int)
                == "**"@ {
                assert(t@.subrange(0, 2) == "**"@);
                assert(t@.subrange(0, 2)[0] == t@[0]);
                assert(t@.subrange(0, 2)[1] == t@[1]);
                assert(t@.subrange(t@.len() - 2, t@.len() as int)[0] == '*');
                assert(t@.subrange(t@.len() - 2, t@.len() as int)[1] == '*');
            }
        }
        t
    }
}

/// The rest of `s` after the prefix `p`, when `s` starts with it.
pub open spec fn strip_prefix_of(s: Seq<char>, p: Seq<char>) -> Option<Seq<char>> {
    if p.is_prefix_of(s) {
        Some(s.subrange(p.len() as int, s.len() as int))
    } else {
        None
    }
}

fn strip_prefix(s: &str, p: &str) -> (r: Option<String>)
    ensures
        crate::text::opt_chars(r) == strip_prefix_of(s@, p@),
{
    if starts_with(s, p) {
        Some(suffix_from(s, char_count(p)))
    } else {
        None
    }
}

/// The file a line of a patch names, when it adds, updates or deletes one.
pub open spec fn patch_path_of(line: Seq<char>) -> Option<Seq<char>> {
    match strip_prefix_of(line, "*** Add File: "@) {
        Some(rest) => Some(rest),
        None => match strip_prefix_of(line, "*** Update File: "@) {
            Some(rest) => Some(rest),
            None => strip_prefix_of(line, "*** Delete File: "@),
        },
    }
}

pub fn patch_path(line: &str) -> (r: Option<String>)
    ensures
        crate::text::opt_chars(r) == patch_path_of(line@),
{
    match strip_prefix(line, "*** Add File: ") {
        Some(rest) => Some(rest),
        None => match strip_prefix(line, "*** Update File: ") {
            Some(rest) => Some(rest),
            None => strip_prefix(line, "*** Delete File: "),
        },
    }
}

/// Index of the first line break at or after `start`, or the length.
pub open spec fn newline_index(s: Seq<char>, start: int) -> int
    decreases s.len() - start,
{
    if start < 0 || start >= s.len() {
        s.len() as int
    } else if s[start] == '\n' {
        start
    } else {
        newline_index(s, start + 1)
    }
}

/// A line without the carriage return of a `\r\n` ending.
pub open spec fn strip_cr(line: Seq<char>) -> Seq<char> {
    if line.len() > 0 && line.last() == '\r' {
        line.drop_last()
    } else {
        line
    }
}

/// The lines of the text from `start` on (std's `str::lines`): split at line
/// breaks, a `\r` before a break dropped, and no empty line after a final
/// break.
pub open spec fn lines_from(s: Seq<char>, start: int) -> Seq<Seq<char>>
    decreases s.len() - start,
{
    if start < 0 || start >= s.len() {
        Seq::empty()
    } else {
        let i = newline_index(s, start);
        proof {
            lemma_newline_index(s, start);
        }
        if i >= s.len() {
            seq![s.subrange(start, s.len() as int)]
        } else {
            seq![strip_cr(s.subrange(start, i))] + lines_from(s, i + 1)
        }
    }
}

pub proof fn lemma_newline_index(s: Seq<char>, start: int)
    requires
        0 <= start <= s.len(),
    ensures
        start <= newline_index(s, start) <= s.len(),
        newline_index(s, start) < s.len() ==> s[newline_index(s, start)] == '\n',
        forall|j: int| start <= j < newline_index(s, start) ==> s[j] != '\n',
    decreases s.len() - start,
{
    if start < s.len() && s[start] != '\n' {
        lemma_newline_index(s, start + 1);
    }
}

fn char_range(chars: &Vec<char>, start: usize, end: usize) -> (r: Vec<char>)
    requires
        start <= end <= chars@.len(),
    ensures
        r@ == chars@.subrange(start as int, end as int),
{
    let mut out: Vec<char> = Vec::new();
    let mut i: usize = start;
    while i < end
        invariant
            start <= i <= end <= chars@.len(),
            out@ == chars@.subrange(start as int, i as int),
        decreases end - i,
    {
        out.push(chars[i]);
        assert(chars@.subrange(start as int, i + 1) =~= chars@.subrange(start as int, i as int).push(
            chars@[i as int],
        ));
        i += 1;
    }
    out
}

/// The lines of a text, as `str::lines` splits it.
pub fn lines(s: &str) -> (r: Vec<String>)
    ensures
        r@.map_values(|l: String| l@) == lines_from(s@, 0),
{
    let chars = crate::text::chars_of(s);
    let mut out: Vec<String> = Vec::new();
    let mut start: usize = 0;
    assert(out@.map_values(|l: String| l@) =~= Seq::<Seq<char>>::empty());
    assert(Seq::<Seq<char>>::empty() + lines_from(s@, 0) =~= lines_from(s@, 0));
    while start < chars.len()
        invariant
            chars@ == s@,
            start <= chars@.len(),
            out@.map_values(|l: String| l@) + lines_from(s@, start as int) == lines_from(s@, 0),
        decreases chars@.len() - start,
    {
        let ghost before = out@.map_values(|l: String| l@);
        proof {
            lemma_newline_index(s@, start as int);
        }
        let mut i: usize = start;
        while i < chars.len() && chars[i] != '\n'
            invariant
                chars@ == s@,
                start <= i <= chars@.len(),
                newline_index(s@, start as int) == newline_index(s@, i as int),
            decreases chars@.len() - i,
        {
            i += 1;
        }
        let segment = char_range(&chars, start, i);
        if i < chars.len() {
            let line = if segment.len() > 0 && segment[segment.len() - 1] == '\r' {
                let trimmed_segment = char_range(&segment, 0, segment.len() - 1);
                assert(trimmed_segment@ =~= segment@.drop_last());
                crate::text::string_of(&trimmed_segment)
            } else {
                crate::text::string_of(&segment)
            };
            out.push(line);
            proof {
                assert(out@.map_values(|l: String| l@) =~= before.push(strip_cr(s@.subrange(start as int, i as int))));
                assert(lines_from(s@, start as int) == seq![strip_cr(s@.subrange(start as int, i as int))] + lines_from(s@, i + 1));
                assert(before + lines_from(s@, start as int) =~= out@.map_values(|l: String| l@) + lines_from(s@, i + 1));
            }
            start = i + 1;
        } else {
            let line = crate::text::string_of(&segment);
            out.push(line);
            proof {
                assert(out@.map_values(|l: String| l@) =~= before.push(s@.subrange(start as int, s@.len() as int)));
                assert(lines_from(s@, chars@.len() as int) =~= Seq::<Seq<char>>::empty());
                assert(before + lines_from(s@, start as int) =~= out@.map_values(|l: String| l@) + lines_from(s@, chars@.len() as int));
            }
            start = i;
        }
    }
    assert(lines_from(s@, start as int) =~= Seq::<Seq<char>>::empty());
    assert(out@.map_values(|l: String| l@) + Seq::<Seq<char>>::empty() =~= out@.map_values(|l: String| l@));
    out
}

/// The files that the lines of a patch name, in order.
pub open spec fn patch_paths(lines: Seq<Seq<char>>) -> Seq<Seq<char>>
    decreases lines.len(),
{
    if lines.len() == 0 {
        Seq::empty()
    } else {
        let rest = patch_paths(lines.drop_last());
        match patch_path_of(lines.last()) {
            Some(p) => rest.push(p),
            None => rest,
        }
    }
}

/// The relative paths that a list of changed files gives, in order.
pub open spec fn relative_paths(files: Seq<JsonModel>) -> Seq<Seq<char>>
    decreases files.len(),
{
    if files.len() == 0 {
        Seq::empty()
    } else {
        let rest = relative_paths(files.drop_last());
        match str_of(files.last().get("relativePath"@)) {
            Some(p) => rest.push(p),
            None => rest,
        }
    }
}

/// What a patch tool call shows: the files it changes, as its result lists
/// them or else as its patch text names them.
pub open spec fn patch_summary_of(
    state: Option<JsonModel>,
    input: Option<JsonModel>,
    directory: Seq<char>,
) -> Seq<char> {
    let listed = match in_opt(in_opt(state, "metadata"@), "files"@) {
        Some(JsonModel::Array(files)) => relative_paths(files),
        _ => Seq::empty(),
    };
    let paths = if listed.len() == 0 {
        match str_of(in_opt(input, "patchText"@)) {
            Some(patch) => patch_paths(lines_from(patch, 0)),
            None => Seq::empty(),
        }
    } else {
        listed
    };
    if paths.len() == 0 {
        "preparing patch..."@
    } else if paths.len() == 1 {
        "patched "@ + display_path_of(paths[0], directory)
    } else if paths.len() == 2 {
        "patched "@ + display_path_of(paths[0], directory) + ", "@ + display_path_of(
            paths[1],
            directory,
        )
    } else {
        "patched "@ + display_path_of(paths[0], directory) + " +"@ + decimal(
            (paths.len() - 1) as nat,
        ) + " files"@
    }
}

fn listed_paths(files: &Vec<JsonValue>) -> (r: Vec<String>)
    ensures
        r@.map_values(|l: String| l@) == relative_paths(crate::json::items_view(files@)),
{
    let ghost items = crate::json::items_view(files@);
    proof {
        lemma_items_view(files@);
    }
    let mut out: Vec<String> = Vec::new();
    let mut i: usize = 0;
    assert(out@.map_values(|l: String| l@) =~= relative_paths(items.take(0)));
    while i < files.len()
        invariant
            i <= files@.len(),
            items == crate::json::items_view(files@),
            items.len() == files@.len(),
            forall|j: int| 0 <= j < files@.len() ==> #[trigger] items[j] == files@[j]@,
            out@.map_values(|l: String| l@) == relative_paths(items.take(i as int)),
        decreases files@.len() - i,
    {
        let ghost before = out@.map_values(|l: String| l@);
        proof {
            assert(items.take(i + 1).drop_last() =~= items.take(i as int));
            assert(items.take(i + 1).last() == files@[i as int]@);
            lemma_view_get(files@[i as int], "relativePath"@);
        }
        match files[i].get("relativePath") {
            Some(v) => match v.as_str() {
                Some(p) => {
                    out.push(p.to_owned());
                    assert(out@.map_values(|l: String| l@) =~= before.push(p@));
                },
                None => {},
            },
            None => {},
        }
        i += 1;
    }
    assert(items.take(files@.len() as int) =~= items);
    out
}

fn patch_text_paths(patch: &str) -> (r: Vec<String>)
    ensures
        r@.map_values(|l: String| l@) == patch_paths(lines_from(patch@, 0)),
{
    let all = lines(patch);
    let ghost ls = lines_from(patch@, 0);
    let mut out: Vec<String> = Vec::new();
    let mut i: usize = 0;
    assert(out@.map_values(|l: String| l@) =~= patch_paths(ls.take(0)));
    while i < all.len()
        invariant
            i <= all@.len(),
            ls == all@.map_values(|l: String| l@),
            out@.map_values(|l: String| l@) == patch_paths(ls.take(i as int)),
        decreases all@.len() - i,
    {
        let ghost before = out@.map_values(|l: String| l@);
        proof {
            assert(ls.take(i + 1).drop_last() =~= ls.take(i as int));
            assert(ls.take(i + 1).last() == all@[i as int]@);
        }
        match patch_path(all[i].as_str()) {
            Some(p) => {
                let ghost pv = p@;
                out.push(p);
                assert(out@.map_values(|l: String| l@) =~= before.push(pv));
            },
            None => {},
        }
        i += 1;
    }
    assert(ls.take(all@.len() as int) =~= ls);
    out
}

fn patch_summary(state: Option<&JsonValue>, input: Option<&JsonValue>, directory: &str) -> (r: String)
    ensures
        r@ == patch_summary_of(opt_model(state), opt_model(input), directory@),
{
    let files = get_in(get_in(state, "metadata"), "files");
    let listed = match files {
        Some(JsonValue::Array(items)) => listed_paths(items),
        _ => Vec::new(),
    };
    let ghost listed_view = match in_opt(in_opt(opt_model(state), "metadata"@), "files"@) {
        Some(JsonModel::Array(files)) => relative_paths(files),
        _ => Seq::empty(),
    };
    assert(listed@.map_values(|l: String| l@) == listed_view);
    let paths = if listed.len() == 0 {
        match str_in(get_in(input, "patchText")) {
            Some(patch) => patch_text_paths(patch),
            None => {
                let none: Vec<String> = Vec::new();
                assert(none@.map_values(|l: String| l@) =~= Seq::<Seq<char>>::empty());
                none
            },
        }
    } else {
        listed
    };
    let ghost pv = paths@.map_values(|l: String| l@);
    let n = paths.len();
    if n == 0 {
        "preparing patch...".to_owned()
    } else if n == 1 {
        assert(pv[0] == paths@[0]@);
        concat("patched ", display_path(paths[0].as_str(), directory).as_str())
    } else if n == 2 {
        assert(pv[0] == paths@[0]@);
        assert(pv[1] == paths@[1]@);
        let mut out = concat("patched ", display_path(paths[0].as_str(), directory).as_str());
        push_str(&mut out, ", ");
        push_str(&mut out, display_path(paths[1].as_str(), directory).as_str());
        out
    } else {
        assert(pv[0] == paths@[0]@);
        let mut out = concat("patched ", display_path(paths[0].as_str(), directory).as_str());
        push_str(&mut out, " +");
        push_decimal(&mut out, (n - 1) as u64);
        push_str(&mut out, " files");
        out
    }
}

/// A summary followed by the number of results, when the result gives one.
pub open spec fn result_count_of(summary: Seq<char>, count: Option<JsonModel>, noun: Seq<char>) -> Seq<char> {
    match count {
        Some(c) => match c.as_u64() {
            Some(n) => summary + "  "@ + decimal(n as nat) + " "@ + noun + (if n == 1 {
                ""@
            } else {
                "s"@
            }),
            None => summary,
        },
        None => summary,
    }
}

fn result_count(summary: String, count: Option<&JsonValue>, noun: &str) -> (r: String)
    ensures
        r@ == result_count_of(summary@, opt_model(count), noun@),
{
    let n = match count {
        Some(c) => match c.as_u64() {
            Some(n) => n,
            None => return summary,
        },
        None => return summary,
    };
    let mut out = summary;
    push_str(&mut out, "  ");
    push_decimal(&mut out, n);
    push_str(&mut out, " ");
    push_str(&mut out, noun);
    push_str(
        &mut out,
        if n == 1 {
            ""
        } else {
            "s"
        },
    );
    out
}

/// An input string of a tool call, when the call gives it.
pub open spec fn input_str(state: Option<JsonModel>, key: Seq<char>) -> Option<Seq<char>> {
    str_of(in_opt(in_opt(state, "input"@), key))
}

/// A string that may be missing, or a default.
pub open spec fn or_default(s: Option<Seq<char>>, default: Seq<char>) -> Seq<char> {
    match s {
        Some(s) => s,
        None => default,
    }
}

/// The one-line summary of a tool call: what it does, by tool, followed by
/// whether it still runs or failed.
pub open spec fn tool_summary_of(p: PartView, directory: Seq<char>) -> Seq<char> {
    let state = state_of(p);
    let tool = tool_name_of(p);
    let metadata = in_opt(state, "metadata"@);
    let summary = if tool == "bash"@ {
        or_default(input_str(state, "command"@), "writing command..."@)
    } else if tool == "apply_patch"@ || tool == "patch"@ {
        patch_summary_of(state, in_opt(state, "input"@), directory)
    } else if tool == "read"@ {
        "read "@ + display_path_of(or_default(input_str(state, "filePath"@), "file"@), directory)
    } else if tool == "grep"@ {
        result_count_of(
            "grep \""@ + or_default(input_str(state, "pattern"@), ""@) + "\" in "@
                + display_path_of(or_default(input_str(state, "path"@), directory), directory),
            in_opt(metadata, "matches"@),
            "match"@,
        )
    } else if tool == "glob"@ {
        result_count_of(
            "glob \""@ + or_default(input_str(state, "pattern"@), ""@) + "\""@,
            in_opt(metadata, "count"@),
            "file"@,
        )
    } else {
        or_default(str_of(in_opt(state, "title"@)), tool)
    };
    match str_of(in_opt(state, "status"@)) {
        Some(s) => if s == "running"@ || s == "pending"@ {
            summary + "  running"@
        } else if s == "error"@ || s == "failed"@ {
            summary + "  failed"@
        } else {
            summary
        },
        None => summary,
    }
}

fn input_value<'a>(state: Option<&'a JsonValue>, key: &str) -> (r: Option<&'a str>)
    ensures
        match r {
            Some(s) => input_str(opt_model(state), key@) == Some(s@),
            None => input_str(opt_model(state), key@) is None,
        },
{
    str_in(get_in(get_in(state, "input"), key))
}

fn value_or<'a>(s: Option<&'a str>, default: &'a str) -> (r: &'a str)
    ensures
        r@ == or_default(
            match s {
                Some(s) => Some(s@),
                None => None,
            },
            default@,
        ),
{
    match s {
        Some(s) => s,
        None => default,
    }
}

/// The one-line summary of a tool call.
pub fn tool_summary(part: &Part, directory: &str) -> (r: String)
    ensures
        r@ == tool_summary_of(part@, directory@),
{
    let state = part_state(part);
    let tool = tool_name(part);
    let metadata = get_in(state, "metadata");
    let summary = if str_eq(tool, "bash") {
        value_or(input_value(state, "command"), "writing command...").to_owned()
    } else if str_eq(tool, "apply_patch") || str_eq(tool, "patch") {
        patch_summary(state, get_in(state, "input"), directory)
    } else if str_eq(tool, "read") {
        concat(
            "read ",
            display_path(value_or(input_value(state, "filePath"), "file"), directory).as_str(),
        )
    } else if str_eq(tool, "grep") {
        let mut text = concat("grep \"", value_or(input_value(state, "pattern"), ""));
        push_str(&mut text, "\" in ");
        push_str(
            &mut text,
            display_path(value_or(input_value(state, "path"), directory), directory).as_str(),
        );
        result_count(text, get_in(metadata, "matches"), "match")
    } else if str_eq(tool, "glob") {
        let mut text = concat("glob \"", value_or(input_value(state, "pattern"), ""));
        push_str(&mut text, "\"");
        result_count(text, get_in(metadata, "count"), "file")
    } else {
        value_or(str_in(get_in(state, "title")), tool).to_owned()
    };
    match str_in(get_in(state, "status")) {
        Some(s) => if str_eq(s, "running") || str_eq(s, "pending") {
            concat(summary.as_str(), "  running")
        } else if str_eq(s, "error") || str_eq(s, "failed") {
            concat(summary.as_str(), "  failed")
        } else {
            summary
        },
        None => summary,
    }
}

/// Tools whose calls the timeline summarises on one line, without showing
/// their output.
pub open spec fn known_inline_tool_of(tool: Seq<char>) -> bool {
    tool == "read"@ || tool == "grep"@ || tool == "glob"@ || tool == "apply_patch"@ || tool
        == "patch"@ || tool == "edit"@ || tool == "write"@ || tool == "task"@
}

pub fn known_inline_tool(tool: &str) -> (r: bool)
    ensures
        r == known_inline_tool_of(tool@),
{
    str_eq(tool, "read") || str_eq(tool, "grep") || str_eq(tool, "glob") || str_eq(tool, "apply_patch")
        || str_eq(tool, "patch") || str_eq(tool, "edit") || str_eq(tool, "write") || str_eq(
        tool,
        "task",
    )
}

/// The output a tool call printed, trimmed; none when it printed nothing.
pub open spec fn tool_output_of(p: PartView) -> Option<Seq<char>> {
    match state_of(p) {
        None => None,
        Some(state) => {
            let raw = match str_of(state.get("output"@)) {
                Some(o) => Some(o),
                None => str_of(in_opt(state.get("metadata"@), "output"@)),
            };
            match raw {
                Some(o) => if trimmed(o).len() > 0 {
                    Some(trimmed(o))
                } else {
                    None
                },
                None => None,
            }
        },
    }
}

pub fn tool_output(part: &Part) -> (r: Option<String>)
    ensures
        crate::text::opt_chars(r) == tool_output_of(part@),
{
    let state = part_state(part);
    if state.is_none() {
        return None;
    }
    let raw = match str_in(get_in(state, "output")) {
        Some(o) => Some(o),
        None => str_in(get_in(get_in(state, "metadata"), "output")),
    };
    match raw {
        Some(o) => {
            let t = trim(o);
            if t.as_str().is_empty() {
                None
            } else {
                Some(t)
            }
        },
        None => None,
    }
}

/// The first lines of a tool's output and how many more there are.
pub struct OutputPreview {
    pub text: String,
    pub hidden_lines: usize,
}

/// Lines joined with line breaks between them.
pub open spec fn joined_lines(lines: Seq<Seq<char>>) -> Seq<char>
    decreases lines.len(),
{
    if lines.len() == 0 {
        Seq::empty()
    } else if lines.len() == 1 {
        lines[0]
    } else {
        joined_lines(lines.drop_last()) + "\n"@ + lines.last()
    }
}

/// The preview of a tool's output: its first six lines, for the tools whose
/// output the timeline shows (the shell, and tools it does not summarise).
pub open spec fn output_preview_of(tool: Seq<char>, output: Option<Seq<char>>) -> Option<(Seq<char>, int)> {
    if tool != "bash"@ && known_inline_tool_of(tool) {
        None
    } else {
        match output {
            None => None,
            Some(o) => {
                let lines = lines_from(o, 0);
                let shown = if lines.len() > 6 {
                    lines.take(6)
                } else {
                    lines
                };
                Some(
                    (
                        joined_lines(shown),
                        if lines.len() > 6 {
                            lines.len() - 6
                        } else {
                            0
                        },
                    ),
                )
            },
        }
    }
}

pub fn output_preview(tool: &str, output: Option<&str>) -> (r: Option<OutputPreview>)
    ensures
        match r {
            Some(p) => output_preview_of(tool@, match output {
                Some(o) => Some(o@),
                None => None,
            }) == Some((p.text@, p.hidden_lines as int)),
            None => output_preview_of(tool@, match output {
                Some(o) => Some(o@),
                None => None,
            }) is None,
        },
{
    if !str_eq(tool, "bash") && known_inline_tool(tool) {
        return None;
    }
    let output = match output {
        Some(o) => o,
        None => return None,
    };
    let all = lines(output);
    let ghost ls = lines_from(output@, 0);
    let shown = if all.len() > 6 {
        6
    } else {
        all.len()
    };
    let mut text = String::new();
    let mut i: usize = 0;
    while i < shown
        invariant
            shown <= all@.len(),
            i <= shown,
            ls == strings_of(all@),
            text@ == joined_lines(ls.take(i as int)),
        decreases shown - i,
    {
        proof {
            assert(ls.take(i + 1).drop_last() =~= ls.take(i as int));
            assert(ls.take(i + 1).last() == all@[i as int]@);
        }
        if i > 0 {
            push_str(&mut text, "\n");
        } else {
            assert(ls.take(1) =~= seq![all@[0]@]);
            assert(text@ + all@[0]@ =~= all@[0]@);
        }
        push_str(&mut text, all[i].as_str());
        i += 1;
    }
    proof {
        if all@.len() <= 6 {
            assert(ls.take(shown as int) =~= ls);
        }
    }
    let hidden = if all.len() > 6 {
        all.len() - 6
    } else {
        0
    };
    Some(OutputPreview { text, hidden_lines: hidden })
}

/// The characters of each string.
pub open spec fn strings_of(v: Seq<String>) -> Seq<Seq<char>> {
    v.map_values(|l: String| l@)
}

/// The files a patch changed, when it changed more than one.
pub open spec fn patch_files_of(p: PartView) -> Option<Seq<Seq<char>>> {
    if !(tool_name_of(p) == "apply_patch"@ || tool_name_of(p) == "patch"@) {
        None
    } else {
        match in_opt(in_opt(state_of(p), "metadata"@), "files"@) {
            Some(JsonModel::Array(files)) => if relative_paths(files).len() > 1 {
                Some(relative_paths(files))
            } else {
                None
            },
            _ => None,
        }
    }
}

pub fn patch_files(part: &Part) -> (r: Option<Vec<String>>)
    ensures
        match r {
            Some(v) => patch_files_of(part@) == Some(strings_of(v@)),
            None => patch_files_of(part@) is None,
        },
{
    let tool = tool_name(part);
    if !(str_eq(tool, "apply_patch") || str_eq(tool, "patch")) {
        return None;
    }
    match get_in(get_in(part_state(part), "metadata"), "files") {
        Some(JsonValue::Array(files)) => {
            let paths = listed_paths(files);
            assert(strings_of(paths@) == paths@.map_values(|l: String| l@));
            if paths.len() > 1 {
                Some(paths)
            } else {
                None
            }
        },
        _ => None,
    }
}

/// The colour of the bar beside a session in the session list: green while
/// it works, yellow while it waits to retry, the border's colour otherwise.
pub open spec fn session_tone_of(status: Option<crate::event::SessionStatus>) -> ColorRole {
    match status {
        Some(crate::event::SessionStatus::Busy) => ColorRole::Green,
        Some(crate::event::SessionStatus::Retry { .. }) => ColorRole::Yellow,
        _ => ColorRole::Border,
    }
}

pub fn session_tone(status: Option<&crate::event::SessionStatus>) -> (r: ColorRole)
    ensures
        r == session_tone_of(
            match status {
                Some(s) => Some(*s),
                None => None,
            },
        ),
{
    match status {
        Some(crate::event::SessionStatus::Busy) => ColorRole::Green,
        Some(crate::event::SessionStatus::Retry { .. }) => ColorRole::Yellow,
        Some(crate::event::SessionStatus::Idle) => ColorRole::Border,
        None => ColorRole::Border,
    }
}

proof fn lemma_prefix_of_result_count(head: Seq<char>, count: Option<JsonModel>, noun: Seq<char>)
    ensures
        head.is_prefix_of(result_count_of(head, count, noun)),
{
    let r = result_count_of(head, count, noun);
    assert(r.subrange(0, head.len() as int) =~= head);
}

proof fn lemma_prefix_of_summary(head: Seq<char>, summary: Seq<char>, p: PartView, directory: Seq<char>)
    requires
        head.is_prefix_of(summary),
        tool_summary_of(p, directory) == summary || tool_summary_of(p, directory) == summary
            + "  running"@ || tool_summary_of(p, directory) == summary + "  failed"@,
    ensures
        head.is_prefix_of(tool_summary_of(p, directory)),
{
    let t = tool_summary_of(p, directory);
    assert(t.subrange(0, head.len() as int) =~= summary.subrange(0, head.len() as int));
}

/// A tool row names what the call worked on: a grep row begins
/// `grep "<pattern>" in <path>`, with the path the call searched (the
/// directory when it gave none) shown relative to the directory; a read row
/// begins `read <file>` with the file shown so; a bash row begins with the
/// command.
pub proof fn law_tool_summary_names_its_subject(
    p: PartView,
    directory: Seq<char>,
    pattern: Seq<char>,
    searched: Seq<char>,
)
    ensures
        tool_name_of(p) == "grep"@ && input_str(state_of(p), "pattern"@) == Some(pattern) && (
        input_str(state_of(p), "path"@) == Some(searched) || (input_str(state_of(p), "path"@) is None
            && searched == directory)) ==> ("grep \""@ + pattern + "\" in "@ + display_path_of(
            searched,
            directory,
        )).is_prefix_of(tool_summary_of(p, directory)),
        tool_name_of(p) == "read"@ && input_str(state_of(p), "filePath"@) == Some(searched) ==> (
        "read "@ + display_path_of(searched, directory)).is_prefix_of(tool_summary_of(p, directory)),
        tool_name_of(p) == "bash"@ && input_str(state_of(p), "command"@) == Some(searched)
            ==> searched.is_prefix_of(tool_summary_of(p, directory)),
{
    reveal_strlit("grep");
    reveal_strlit("bash");
    reveal_strlit("read");
    reveal_strlit("patch");
    reveal_strlit("apply_patch");
    let state = state_of(p);
    let tool = tool_name_of(p);
    let metadata = in_opt(state, "metadata"@);
    assert("grep"@[0] != "bash"@[0] && "grep"@[0] != "read"@[0] && "read"@[0] != "bash"@[0]);
    assert("grep"@.len() != "patch"@.len() && "grep"@.len() != "apply_patch"@.len());
    assert("read"@.len() != "patch"@.len() && "read"@.len() != "apply_patch"@.len());
    if tool == "grep"@ && input_str(state, "pattern"@) == Some(pattern) && (input_str(state, "path"@)
        == Some(searched) || (input_str(state, "path"@) is None && searched == directory)) {
        let head = "grep \""@ + pattern + "\" in "@ + display_path_of(searched, directory);
        assert(or_default(input_str(state, "path"@), directory) == searched);
        lemma_prefix_of_result_count(head, in_opt(metadata, "matches"@), "match"@);
        lemma_prefix_of_summary(head, result_count_of(head, in_opt(metadata, "matches"@), "match"@), p, directory);
    }
    if tool == "read"@ && input_str(state, "filePath"@) == Some(searched) {
        let head = "read "@ + display_path_of(searched, directory);
        assert(head.is_prefix_of(head));
        assert(or_default(input_str(state, "filePath"@), "file"@) == searched);
        lemma_prefix_of_summary(head, head, p, directory);
    }
    if tool == "bash"@ && input_str(state, "command"@) == Some(searched) {
        assert(searched.is_prefix_of(searched));
        lemma_prefix_of_summary(searched, searched, p, directory);
    }
}

/// A count follows the row's head after two spaces: a count of one names
/// one thing, any other count names the noun in the plural; without a
/// readable count the head stands alone.
pub proof fn law_result_count_agrees_in_number(head: Seq<char>, c: JsonModel, noun: Seq<char>)
    ensures
        c.as_u64() == Some(1u64) ==> result_count_of(head, Some(c), noun) == head + "  "@
            + seq!['1'] + " "@ + noun,
        forall|n: u64|
            c.as_u64() == Some(n) && n != 1 ==> #[trigger] result_count_of(head, Some(c), noun)
                == head + "  "@ + decimal(n as nat) + " "@ + noun + seq!['s'],
        c.as_u64() is None ==> result_count_of(head, Some(c), noun) == head,
        result_count_of(head, None, noun) == head,
{
    reveal_strlit("");
    reveal_strlit("s");
    assert(""@ =~= Seq::<char>::empty());
    assert("s"@ =~= seq!['s']);
    assert(decimal(1) =~= seq!['1']) by {
        reveal_with_fuel(decimal, 2);
    }
    assert forall|x: Seq<char>| x + ""@ =~= x by {}
}

/// A call that still runs (running or pending) ends its row with
/// `  running`, one that failed (error or failed) with `  failed`.
pub proof fn law_tool_summary_marks_running_and_failed(p: PartView, directory: Seq<char>)
    ensures
        ({
            let t = tool_summary_of(p, directory);
            let status = str_of(in_opt(state_of(p), "status"@));
            &&& status == Some("running"@) || status == Some("pending"@) ==> t.len() >= 9
                && t.subrange(t.len() - 9, t.len() as int) == "  running"@
            &&& status == Some("error"@) || status == Some("failed"@) ==> t.len() >= 8
                && t.subrange(t.len() - 8, t.len() as int) == "  failed"@
        }),
{
    reveal_strlit("  running");
    reveal_strlit("  failed");
    reveal_strlit("running");
    reveal_strlit("pending");
    reveal_strlit("error");
    reveal_strlit("failed");
    let t = tool_summary_of(p, directory);
    let status = str_of(in_opt(state_of(p), "status"@));
    assert("running"@[0] != "error"@[0] && "running"@[0] != "failed"@[0]);
    assert("pending"@[0] != "error"@[0] && "pending"@[0] != "failed"@[0]);
    if status == Some("running"@) || status == Some("pending"@) {
        assert(t.subrange(t.len() - 9, t.len() as int) =~= "  running"@);
    }
    if status == Some("error"@) || status == Some("failed"@) {
        assert(t.subrange(t.len() - 8, t.len() as int) =~= "  failed"@);
    }
}

/// A path inside the directory is shown relative to it; the directory itself,
/// and any path outside it, is shown as it is.
pub proof fn law_display_path_is_relative_inside(directory: Seq<char>, rest: Seq<char>, path: Seq<char>)
    ensures
        rest.len() > 0 ==> display_path_of(directory + seq!['/'] + rest, directory) == rest,
        display_path_of(directory, directory) == directory,
        !directory.is_prefix_of(path) ==> display_path_of(path, directory) == path,
{
    let p = directory + seq!['/'] + rest;
    assert(p.subrange(0, directory.len() as int) =~= directory);
    assert(p[directory.len() as int] == '/');
    assert(p.subrange(directory.len() as int + 1, p.len() as int) =~= rest);
}

} // verus!
