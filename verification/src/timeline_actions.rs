use vstd::prelude::*;

use crate::json::{flag_field, str_field};
use crate::model::{parts_view, MessageRecord, Part, PartView};
use crate::plugins::{url_file_path, url_file_path_of};
use crate::text::{opt_chars, push_str, starts_with};

verus! {

/// What can be done with a message picked in the timeline.
#[derive(PartialEq, Eq, Structural, Clone, Copy, Debug)]
pub enum MessageAction {
    Revert,
    Copy,
    Fork,
}

/// The actions in the order the menu lists them.
pub open spec fn actions() -> Seq<MessageAction> {
    seq![MessageAction::Revert, MessageAction::Copy, MessageAction::Fork]
}

pub open spec fn title_of(action: MessageAction) -> Seq<char> {
    match action {
        MessageAction::Revert => "Revert"@,
        MessageAction::Copy => "Copy"@,
        MessageAction::Fork => "Fork"@,
    }
}

pub open spec fn description_of(action: MessageAction) -> Seq<char> {
    match action {
        MessageAction::Revert => "undo messages and file changes"@,
        MessageAction::Copy => "message text to clipboard"@,
        MessageAction::Fork => "create a new session"@,
    }
}

impl MessageAction {
    pub fn title(self) -> (r: &'static str)
        ensures
            r@ == title_of(self),
    {
        match self {
            MessageAction::Revert => "Revert",
            MessageAction::Copy => "Copy",
            MessageAction::Fork => "Fork",
        }
    }

    pub fn description(self) -> (r: &'static str)
        ensures
            r@ == description_of(self),
    {
        match self {
            MessageAction::Revert => "undo messages and file changes",
            MessageAction::Copy => "message text to clipboard",
            MessageAction::Fork => "create a new session",
        }
    }
}

/// The action at a position of the menu, if there is one.
pub fn action_at(index: usize) -> (r: Option<MessageAction>)
    ensures
        r == (if index < actions().len() {
            Some(actions()[index as int])
        } else {
            None
        }),
{
    match index {
        0 => Some(MessageAction::Revert),
        1 => Some(MessageAction::Copy),
        2 => Some(MessageAction::Fork),
        _ => None,
    }
}

/// Whether a part is text that the user wrote: a text part the client did
/// not add on its own.
pub open spec fn is_user_text(part: PartView) -> bool {
    part.kind == "text"@ && !flag_field(part.data, "synthetic"@)
}

/// The text the user wrote in a message: its user text parts, joined.
pub open spec fn user_text_of(parts: Seq<PartView>) -> Seq<char>
    decreases parts.len(),
{
    if parts.len() == 0 {
        Seq::empty()
    } else {
        let rest = user_text_of(parts.drop_last());
        let part = parts.last();
        if is_user_text(part) {
            match part.text() {
                Some(t) => rest + t,
                None => rest,
            }
        } else {
            rest
        }
    }
}

/// The text the user wrote in a message, as copied or restored into the prompt.
pub fn user_text(message: &MessageRecord) -> (r: String)
    ensures
        r@ == user_text_of(message@.parts),
{
    let mut out = String::new();
    let mut i: usize = 0;
    while i < message.parts.len()
        invariant
            i <= message.parts@.len(),
            out@ == user_text_of(parts_view(message.parts@).take(i as int)),
        decreases message.parts@.len() - i,
    {
        let part = &message.parts[i];
        proof {
            assert(parts_view(message.parts@).take(i + 1).drop_last() =~= parts_view(
                message.parts@,
            ).take(i as int));
        }
        if crate::assoc::str_eq(part.kind.as_str(), "text") && !part.flag("synthetic") {
            match part.text() {
                Some(t) => push_str(&mut out, t),
                None => {},
            }
        }
        i += 1;
    }
    assert(parts_view(message.parts@).take(message.parts@.len() as int) =~= parts_view(
        message.parts@,
    ));
    out
}

/// What std's `Path::strip_prefix` leaves of `path` once the leading
/// components that make up `base` are taken off; nothing when `path` does
/// not start with them.
pub uninterp spec fn stripped_path_of(path: Seq<char>, base: Seq<char>) -> Option<Seq<char>>;

/// The path relative to `base` (std's `Path::strip_prefix`); its result is
/// named, not stated.
#[verifier::external_body]
fn path_strip_prefix(path: &str, base: &str) -> (r: Option<String>)
    ensures
        opt_chars(r) == stripped_path_of(path@, base@),
{
    std::path::Path::new(path).strip_prefix(base).ok().map(|rest| rest.to_string_lossy().into_owned())
}

/// A file that a message carried, as its part describes it.
pub struct FileAttachment {
    pub url: String,
    pub mime: String,
    pub filename: String,
}

pub struct FileAttachmentView {
    pub url: Seq<char>,
    pub mime: Seq<char>,
    pub filename: Seq<char>,
}

impl View for FileAttachment {
    type V = FileAttachmentView;

    open spec fn view(&self) -> FileAttachmentView {
        FileAttachmentView { url: self.url@, mime: self.mime@, filename: self.filename@ }
    }
}

/// The file a file part carries: its URL, its type (empty when unknown) and
/// its name (`attachment` when unknown); none for other parts or a part
/// without a URL.
pub open spec fn file_attachment_of(p: PartView) -> Option<FileAttachmentView> {
    if p.kind == "file"@ {
        match str_field(p.data, "url"@) {
            Some(url) => Some(
                FileAttachmentView {
                    url,
                    mime: match str_field(p.data, "mime"@) {
                        Some(m) => m,
                        None => Seq::empty(),
                    },
                    filename: match str_field(p.data, "filename"@) {
                        Some(f) => f,
                        None => "attachment"@,
                    },
                },
            ),
            None => None,
        }
    } else {
        None
    }
}

pub fn file_attachment(part: &Part) -> (r: Option<FileAttachment>)
    ensures
        match r {
            Some(a) => file_attachment_of(part@) == Some(a@),
            None => file_attachment_of(part@) is None,
        },
{
    proof {
        reveal_strlit("file");
        reveal_strlit("attachment");
    }
    if !crate::assoc::str_eq(part.kind.as_str(), "file") {
        return None;
    }
    let url = match part.str_field("url") {
        Some(u) => u.to_owned(),
        None => return None,
    };
    let mime = match part.str_field("mime") {
        Some(m) => m.to_owned(),
        None => String::new(),
    };
    let filename = match part.str_field("filename") {
        Some(f) => f.to_owned(),
        None => "attachment".to_owned(),
    };
    Some(FileAttachment { url, mime, filename })
}

/// Whether an attachment of this type restores as an image.
pub fn is_image_mime(mime: &str) -> (r: bool)
    ensures
        r == "image/"@.is_prefix_of(mime@),
{
    proof {
        reveal_strlit("image/");
    }
    starts_with(mime, "image/")
}

/// The workspace file that an attachment's URL names, relative to the
/// directory: what a restored prompt attaches for a file that is no image.
pub open spec fn restored_file_of(directory: Seq<char>, url: Seq<char>) -> Option<Seq<char>> {
    match url_file_path_of(url) {
        Some(path) => stripped_path_of(path, directory),
        None => None,
    }
}

pub fn restored_file(directory: &str, url: &str) -> (r: Option<String>)
    ensures
        opt_chars(r) == restored_file_of(directory@, url@),
{
    match url_file_path(url) {
        Some(path) => path_strip_prefix(path.as_str(), directory),
        None => None,
    }
}

/// The text the user wrote gathers the texts of the user's own text parts in
/// their order: a user text part adds its text at the end, any other part (a
/// tool call, a file, text the client added) adds nothing.
pub proof fn law_user_text_gathers_user_parts(parts: Seq<PartView>, p: PartView)
    ensures
        user_text_of(Seq::empty()) == Seq::<char>::empty(),
        is_user_text(p) ==> user_text_of(parts.push(p)) == user_text_of(parts) + p.text_or_empty(),
        !is_user_text(p) ==> user_text_of(parts.push(p)) == user_text_of(parts),
{
    assert(parts.push(p).drop_last() =~= parts);
    if is_user_text(p) && p.text() is None {
        assert(user_text_of(parts) + Seq::<char>::empty() =~= user_text_of(parts));
    }
}

} // verus!
