use vstd::prelude::*;

use pulldown_cmark::Event as E;
use pulldown_cmark::{CodeBlockKind, Options, Parser, Tag, TagEnd};
use crate::markdown::MdEvent::{
    Code, DisplayMath, End, FootnoteReference, HardBreak, Html, InlineHtml, InlineMath, Rule, SoftBreak, Start,
    TaskListMarker, Text,
};
use crate::markdown::{build, document_of, events_view, Document, MdEvent, MdEventView, MdTag, MdTagEnd};

verus! {

#[verifier::external_type_specification]
#[verifier::external_body]
pub struct ExCmarkTag<'a>(pulldown_cmark::Tag<'a>);

#[verifier::external_type_specification]
#[verifier::external_body]
pub struct ExCmarkTagEnd(pulldown_cmark::TagEnd);

/// The extensions markdown is read with, as pulldown-cmark's option bits:
/// tables, footnotes, strikethrough, task lists and math.
pub const MARKDOWN_EXTENSIONS: u32 = 1 << 1 | 1 << 2 | 1 << 3 | 1 << 4 | 1 << 10;

/// The events pulldown-cmark reads from a text with the extensions whose
/// option bits are given, each as the document builder takes it.
pub uninterp spec fn markdown_events_of(text: Seq<char>, options: u32) -> Seq<MdEventView>;

/// A pulldown-cmark start tag as the builder takes it: the tags it acts on
/// with what it reads of them, the others as `Other`.
#[verifier::external_body]
fn md_start(tag: Tag<'_>) -> MdEvent {
    Start(match tag {
        Tag::Heading { level, .. } => MdTag::Heading(level as u8),
        Tag::BlockQuote(_) => MdTag::BlockQuote,
        Tag::CodeBlock(CodeBlockKind::Indented) => MdTag::CodeBlock(String::new()),
        Tag::CodeBlock(CodeBlockKind::Fenced(l)) => MdTag::CodeBlock(l.into()),
        Tag::List(start) => MdTag::List(start),
        Tag::Table(_) => MdTag::Table,
        Tag::Emphasis => MdTag::Emphasis,
        Tag::Strong => MdTag::Strong,
        Tag::Strikethrough => MdTag::Strikethrough,
        Tag::Link { dest_url, .. } => MdTag::Link(dest_url.into()),
        _ => MdTag::Other,
    })
}

/// A pulldown-cmark end tag as the builder takes it.
#[verifier::external_body]
fn md_end(tag: TagEnd) -> MdEvent {
    End(match tag {
        TagEnd::Paragraph => MdTagEnd::Paragraph, TagEnd::Heading(_) => MdTagEnd::Heading,
        TagEnd::BlockQuote(_) => MdTagEnd::BlockQuote, TagEnd::CodeBlock => MdTagEnd::CodeBlock,
        TagEnd::Item => MdTagEnd::Item, TagEnd::List(_) => MdTagEnd::List,
        TagEnd::TableCell => MdTagEnd::TableCell, TagEnd::TableRow => MdTagEnd::TableRow,
        TagEnd::Table => MdTagEnd::Table, TagEnd::Emphasis => MdTagEnd::Emphasis,
        TagEnd::Strong => MdTagEnd::Strong, TagEnd::Strikethrough => MdTagEnd::Strikethrough,
        TagEnd::Link => MdTagEnd::Link, _ => MdTagEnd::Other,
    })
}

/// The events of a markdown text (pulldown-cmark's `Parser::new_ext` with
/// the extensions whose option bits are given), each converted one for one;
/// the events are named, not stated.
#[verifier::external_body]
fn markdown_events(text: &str, options: u32) -> (r: Vec<MdEvent>)
    ensures
        events_view(r@) == markdown_events_of(text@, options),
{
    Parser::new_ext(text, Options::from_bits_truncate(options)).map(|e| match e {
        E::Start(t) => md_start(t), E::End(t) => md_end(t),
        E::Text(t) => Text(t.into()), E::Code(t) => Code(t.into()),
        E::InlineMath(t) => InlineMath(t.into()), E::DisplayMath(t) => DisplayMath(t.into()),
        E::Html(t) => Html(t.into()), E::InlineHtml(t) => InlineHtml(t.into()),
        E::FootnoteReference(t) => FootnoteReference(t.into()), E::SoftBreak => SoftBreak,
        E::HardBreak => HardBreak, E::Rule => Rule, E::TaskListMarker(c) => TaskListMarker(c),
    }).collect()
}

/// Reads markdown into a document: pulldown-cmark parses the text and the
/// builder makes blocks of its events.
pub fn parse(text: &str) -> (d: Document)
    ensures
        d@ == document_of(markdown_events_of(text@, MARKDOWN_EXTENSIONS)),
{
    let events = markdown_events(text, MARKDOWN_EXTENSIONS);
    build(&events)
}

} // verus!
