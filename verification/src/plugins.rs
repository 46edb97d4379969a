use vstd::prelude::*;

use crate::event::str_at;
use crate::json::{lemma_view_get, JsonModel, JsonValue};
use crate::json_text::{json_text, to_json_text};
use crate::text::{opt_chars, starts_with};

verus! {

/// The scheme of the text read as a URL (url's `Url::parse`, then
/// `Url::scheme`); nothing when it is no URL.
pub uninterp spec fn url_scheme_of(text: Seq<char>) -> Option<Seq<char>>;

/// The file path that the text names as a URL (url's `Url::parse`, then
/// `Url::to_file_path`); nothing when it is no URL or names no file path.
pub uninterp spec fn url_file_path_of(text: Seq<char>) -> Option<Seq<char>>;

/// The path part of the text read as a URL (url's `Url::parse`, then
/// `Url::path`); nothing when it is no URL.
pub uninterp spec fn url_path_of(text: Seq<char>) -> Option<Seq<char>>;

/// Whether std's `Path` counts the path as absolute on the platform the
/// client is built for.
pub uninterp spec fn absolute_path(path: Seq<char>) -> bool;

/// The file stem std's `Path` finds in the path.
pub uninterp spec fn file_stem_of(path: Seq<char>) -> Option<Seq<char>>;

/// The parent std's `Path` finds for the path.
pub uninterp spec fn parent_of(path: Seq<char>) -> Option<Seq<char>>;

/// The last component std's `Path` finds in the path, unless it is `..`.
pub uninterp spec fn file_name_of(path: Seq<char>) -> Option<Seq<char>>;

/// The scheme of the text read as a URL (url's `Url::parse` and
/// `Url::scheme`); its result is named, not stated.
#[verifier::external_body]
fn url_scheme(text: &str) -> (r: Option<String>)
    ensures
        opt_chars(r) == url_scheme_of(text@),
{
    url::Url::parse(text).ok().map(|url| url.scheme().to_owned())
}

/// The file path that the text names as a URL (url's `Url::parse` and
/// `Url::to_file_path`); its result is named, not stated.
#[verifier::external_body]
pub(crate) fn url_file_path(text: &str) -> (r: Option<String>)
    ensures
        opt_chars(r) == url_file_path_of(text@),
{
    url::Url::parse(text).ok()?.to_file_path().ok().map(|path| path.to_string_lossy().into_owned())
}

/// The path part of the text read as a URL (url's `Url::parse` and
/// `Url::path`): there is one exactly when the text parses, as it has a
/// scheme then; the path itself is named, not stated.
#[verifier::external_body]
fn url_path(text: &str) -> (r: Option<String>)
    ensures
        opt_chars(r) == url_path_of(text@),
        r is Some <==> url_scheme_of(text@) is Some,
{
    url::Url::parse(text).ok().map(|url| url.path().to_owned())
}

/// The path that a `file:` URL names: its file path, or else the URL's own
/// path; nothing when the text is no `file:` URL.
pub open spec fn file_url_path_of(text: Seq<char>) -> Option<Seq<char>> {
    if url_scheme_of(text) == Some("file"@) {
        match url_file_path_of(text) {
            Some(path) => Some(path),
            None => url_path_of(text),
        }
    } else {
        None
    }
}

fn file_url_path(text: &str) -> (r: Option<String>)
    ensures
        opt_chars(r) == file_url_path_of(text@),
{
    let scheme = url_scheme(text);
    proof {
        reveal_strlit("file");
    }
    let is_file = match &scheme {
        Some(s) => crate::assoc::str_eq(s.as_str(), "file"),
        None => false,
    };
    if !is_file {
        return None;
    }
    match url_file_path(text) {
        Some(path) => Some(path),
        None => url_path(text),
    }
}

/// Whether the path is absolute (std's `Path::is_absolute`); its result is
/// named, not stated.
#[verifier::external_body]
fn path_is_absolute(path: &str) -> (r: bool)
    ensures
        r == absolute_path(path@),
{
    std::path::Path::new(path).is_absolute()
}

/// The file stem of the path (std's `Path::file_stem`); its result is named,
/// not stated.
#[verifier::external_body]
fn path_file_stem(path: &str) -> (r: Option<String>)
    ensures
        opt_chars(r) == file_stem_of(path@),
{
    std::path::Path::new(path).file_stem().and_then(|stem| stem.to_str()).map(str::to_owned)
}

/// The parent of the path (std's `Path::parent`); its result is named, not
/// stated.
#[verifier::external_body]
fn path_parent(path: &str) -> (r: Option<String>)
    ensures
        opt_chars(r) == parent_of(path@),
{
    std::path::Path::new(path).parent().and_then(|parent| parent.to_str()).map(str::to_owned)
}

/// The file name of the path (std's `Path::file_name`); its result is named,
/// not stated.
#[verifier::external_body]
fn path_file_name(path: &str) -> (r: Option<String>)
    ensures
        opt_chars(r) == file_name_of(path@),
{
    std::path::Path::new(path).file_name().and_then(|name| name.to_str()).map(str::to_owned)
}

/// How a plugin is named in the status dialog.
#[derive(Debug, PartialEq)]
pub struct PluginDisplay {
    pub name: String,
    pub version: Option<String>,
    pub path: Option<String>,
}

pub struct PluginDisplayView {
    pub name: Seq<char>,
    pub version: Option<Seq<char>>,
    pub path: Option<Seq<char>>,
}

impl View for PluginDisplay {
    type V = PluginDisplayView;

    open spec fn view(&self) -> PluginDisplayView {
        PluginDisplayView {
            name: self.name@,
            version: opt_chars(self.version),
            path: opt_chars(self.path),
        }
    }
}

/// The name of a plugin loaded from a file: the file's stem, or the
/// directory's name for an `index` file.
pub open spec fn plugin_path_name_of(path: Seq<char>) -> Seq<char> {
    let stem = match file_stem_of(path) {
        Some(stem) => stem,
        None => "plugin"@,
    };
    if stem == "index"@ {
        match parent_of(path) {
            Some(parent) => match file_name_of(parent) {
                Some(name) => name,
                None => stem,
            },
            None => stem,
        }
    } else {
        stem
    }
}

/// The name of a plugin loaded from the file at `path`.
pub fn plugin_path_name(path: &str) -> (r: String)
    ensures
        r@ == plugin_path_name_of(path@),
{
    let stem = match path_file_stem(path) {
        Some(stem) => stem,
        None => "plugin".to_owned(),
    };
    if crate::assoc::str_eq(stem.as_str(), "index") {
        match path_parent(path) {
            Some(parent) => match path_file_name(parent.as_str()) {
                Some(name) => name,
                None => stem,
            },
            None => stem,
        }
    } else {
        stem
    }
}

/// Index of the last `@` of the text, if any.
pub open spec fn last_at(s: Seq<char>, n: int) -> Option<int>
    decreases n,
{
    if n <= 0 {
        None
    } else if s[n - 1] == '@' {
        Some(n - 1)
    } else {
        last_at(s, n - 1)
    }
}

/// How a plugin given by a string is shown: a `file:` URL or a path by its
/// file's name, a package by its name with the version after its last `@`
/// (an `@` in first place begins a scope).
pub open spec fn plugin_string_display(value: Seq<char>) -> PluginDisplayView {
    match file_url_path_of(value) {
        Some(path) => PluginDisplayView {
            name: plugin_path_name_of(path),
            version: None,
            path: Some(path),
        },
        None => if absolute_path(value) || "./"@.is_prefix_of(value) || "../"@.is_prefix_of(value) {
            PluginDisplayView { name: plugin_path_name_of(value), version: None, path: Some(value) }
        } else {
            match last_at(value, value.len() as int) {
                Some(i) => if i > 0 {
                    PluginDisplayView {
                        name: value.subrange(0, i),
                        version: Some(value.subrange(i + 1, value.len() as int)),
                        path: None,
                    }
                } else {
                    PluginDisplayView { name: value, version: None, path: None }
                },
                None => PluginDisplayView { name: value, version: None, path: None },
            }
        },
    }
}

fn last_at_index(chars: &Vec<char>) -> (r: Option<usize>)
    ensures
        match r {
            Some(i) => last_at(chars@, chars@.len() as int) == Some(i as int) && i < chars.len(),
            None => last_at(chars@, chars@.len() as int) is None,
        },
{
    let mut n: usize = chars.len();
    while n > 0
        invariant
            n <= chars@.len(),
            last_at(chars@, chars@.len() as int) == last_at(chars@, n as int),
        decreases n,
    {
        if chars[n - 1] == '@' {
            return Some(n - 1);
        }
        n -= 1;
    }
    None
}

fn string_of_range(chars: &Vec<char>, start: usize, end: usize) -> (r: String)
    requires
        start <= end <= chars@.len(),
    ensures
        r@ == chars@.subrange(start as int, end as int),
{
    let mut out: Vec<char> = Vec::new();
    let mut i: usize = start;
    while i < end
        invariant
            start <= i <= end <= chars@.len(),
            out@ == chars@.subrange(start as int, i as int),
        decreases end - i,
    {
        out.push(chars[i]);
        assert(chars@.subrange(start as int, i + 1) =~= chars@.subrange(start as int, i as int).push(
            chars@[i as int],
        ));
        i += 1;
    }
    crate::text::string_of(&out)
}

/// How a plugin given by a string is shown.
pub fn parse_plugin_string(value: &str) -> (r: PluginDisplay)
    ensures
        r@ == plugin_string_display(value@),
{
    match file_url_path(value) {
        Some(path) => {
            let name = plugin_path_name(path.as_str());
            return PluginDisplay { name, version: None, path: Some(path) };
        },
        None => {},
    }
    if path_is_absolute(value) || starts_with(value, "./") || starts_with(value, "../") {
        return PluginDisplay {
            name: plugin_path_name(value),
            version: None,
            path: Some(value.to_owned()),
        };
    }
    let chars = crate::text::chars_of(value);
    match last_at_index(&chars) {
        Some(i) => if i > 0 {
            PluginDisplay {
                name: string_of_range(&chars, 0, i),
                version: Some(string_of_range(&chars, i + 1, chars.len())),
                path: None,
            }
        } else {
            PluginDisplay { name: value.to_owned(), version: None, path: None }
        },
        None => PluginDisplay { name: value.to_owned(), version: None, path: None },
    }
}

/// The string under the first of `path` and `url` that holds one.
pub open spec fn location_of(fields: JsonModel) -> Option<Seq<char>> {
    match str_at(fields, "path"@) {
        Some(p) => Some(p),
        None => str_at(fields, "url"@),
    }
}

/// How a plugin entry of the configuration is shown: a string as a plugin
/// string, a list by its first item, an object by its location (with the
/// name and version it gives) or by its name; anything else is an
/// unrecognized plugin, shown with its compact JSON text.
pub open spec fn plugin_display_of(value: JsonModel) -> PluginDisplayView {
    let unrecognized = PluginDisplayView {
        name: "unrecognized plugin"@,
        version: None,
        path: Some(json_text(value)),
    };
    match value {
        JsonModel::String(s) => plugin_string_display(s),
        JsonModel::Array(items) => if items.len() > 0 {
            match items[0].as_str() {
                Some(s) => plugin_string_display(s),
                None => unrecognized,
            }
        } else {
            unrecognized
        },
        JsonModel::Object(_) => match location_of(value) {
            Some(location) => {
                let shown = plugin_string_display(location);
                PluginDisplayView {
                    name: match str_at(value, "name"@) {
                        Some(name) => name,
                        None => shown.name,
                    },
                    version: str_at(value, "version"@),
                    path: shown.path,
                }
            },
            None => match str_at(value, "name"@) {
                Some(name) => PluginDisplayView {
                    name,
                    version: str_at(value, "version"@),
                    path: None,
                },
                None => unrecognized,
            },
        },
        _ => unrecognized,
    }
}

fn str_field(v: &JsonValue, key: &str) -> (r: Option<String>)
    ensures
        opt_chars(r) == str_at(v@, key@),
{
    proof {
        lemma_view_get(*v, key@);
    }
    match v.get(key) {
        Some(x) => match x.as_str() {
            Some(s) => Some(s.to_owned()),
            None => None,
        },
        None => None,
    }
}

/// How a plugin entry of the configuration is shown.
pub fn plugin_display(value: &JsonValue) -> (r: PluginDisplay)
    ensures
        r@ == plugin_display_of(value@),
{
    let unrecognized = PluginDisplay {
        name: "unrecognized plugin".to_owned(),
        version: None,
        path: Some(to_json_text(value)),
    };
    match value {
        JsonValue::String(s) => parse_plugin_string(s.as_str()),
        JsonValue::Array(items) => {
            proof {
                crate::json::lemma_items_view(items@);
            }
            if items.len() > 0 {
                match items[0].as_str() {
                    Some(s) => parse_plugin_string(s),
                    None => unrecognized,
                }
            } else {
                unrecognized
            }
        },
        JsonValue::Object(_) => {
            let location = match str_field(value, "path") {
                Some(p) => Some(p),
                None => str_field(value, "url"),
            };
            match location {
                Some(location) => {
                    let shown = parse_plugin_string(location.as_str());
                    let name = match str_field(value, "name") {
                        Some(name) => name,
                        None => shown.name,
                    };
                    PluginDisplay { name, version: str_field(value, "version"), path: shown.path }
                },
                None => match str_field(value, "name") {
                    Some(name) => PluginDisplay {
                        name,
                        version: str_field(value, "version"),
                        path: None,
                    },
                    None => unrecognized,
                },
            }
        },
        _ => unrecognized,
    }
}

proof fn lemma_last_at_found(s: Seq<char>, k: int, n: int)
    requires
        0 <= k < n <= s.len(),
        s[k] == '@',
        forall|j: int| k < j < n ==> s[j] != '@',
    ensures
        last_at(s, n) == Some(k),
    decreases n,
{
    if n - 1 > k {
        lemma_last_at_found(s, k, n - 1);
    }
}

/// A package given as `<name>@<version>`, with a name and a version that
/// holds no `@`, shows that name and that version; so a scoped package
/// (`@scope/name@1.0`) keeps its scope in the name.
pub proof fn law_package_shows_name_and_version(name: Seq<char>, version: Seq<char>)
    requires
        name.len() > 0,
        forall|j: int| 0 <= j < version.len() ==> version[j] != '@',
        file_url_path_of(name + seq!['@'] + version) is None,
        !absolute_path(name + seq!['@'] + version),
        !"./"@.is_prefix_of(name + seq!['@'] + version),
        !"../"@.is_prefix_of(name + seq!['@'] + version),
    ensures
        plugin_string_display(name + seq!['@'] + version) == (PluginDisplayView {
            name,
            version: Some(version),
            path: None,
        }),
{
    let value = name + seq!['@'] + version;
    let k = name.len() as int;
    assert(value[k] == '@');
    assert forall|j: int| k < j < value.len() implies value[j] != '@' by {
        assert(value[j] == version[j - k - 1]);
    }
    lemma_last_at_found(value, k, value.len() as int);
    assert(value.subrange(0, k) =~= name);
    assert(value.subrange(k + 1, value.len() as int) =~= version);
}

/// A plugin loaded from a file is named by the file's stem, except that an
/// `index` file is named by its directory; without a readable stem it is
/// "plugin".
pub proof fn law_plugin_file_named_by_stem_or_directory(path: Seq<char>, parent: Seq<char>)
    ensures
        file_stem_of(path) is Some && file_stem_of(path)->0 != "index"@ ==> plugin_path_name_of(path)
            == file_stem_of(path)->0,
        file_stem_of(path) == Some("index"@) && parent_of(path) == Some(parent) && file_name_of(
            parent,
        ) is Some ==> plugin_path_name_of(path) == file_name_of(parent)->0,
        file_stem_of(path) is None ==> plugin_path_name_of(path) == "plugin"@,
{
    reveal_strlit("index");
    reveal_strlit("plugin");
    assert("plugin"@ != "index"@) by {
        assert("plugin"@.len() != "index"@.len());
    }
}

} // verus!
