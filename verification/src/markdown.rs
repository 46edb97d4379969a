use vstd::prelude::*;
use vstd::utf8::encode_utf8;

use core::ops::Range;

use crate::text::{opt_chars, ascii_lower, ascii_lowercase, concat, eq_ignore_ascii_case, push_str, starts_with, trim, trimmed};

verus! {

/// The state of a task list item's box.
#[derive(PartialEq, Eq, Structural, Clone, Copy, Debug)]
pub enum TaskState {
    Checked,
    Pending,
}

/// How a run of inline text is shown.
#[derive(Debug, PartialEq)]
pub struct InlineStyle {
    pub bold: bool,
    pub italic: bool,
    pub strike: bool,
    pub code: bool,
    pub kbd: bool,
    pub link: Option<String>,
    pub math: Option<String>,
    pub task: Option<TaskState>,
}

pub struct InlineStyleView {
    pub bold: bool,
    pub italic: bool,
    pub strike: bool,
    pub code: bool,
    pub kbd: bool,
    pub link: Option<Seq<char>>,
    pub math: Option<Seq<char>>,
    pub task: Option<TaskState>,
}

fn clone_opt(s: &Option<String>) -> (r: Option<String>)
    ensures
        opt_chars(r) == opt_chars(*s),
{
    match s {
        Some(s) => Some(s.clone()),
        None => None,
    }
}

impl View for InlineStyle {
    type V = InlineStyleView;

    open spec fn view(&self) -> InlineStyleView {
        InlineStyleView {
            bold: self.bold,
            italic: self.italic,
            strike: self.strike,
            code: self.code,
            kbd: self.kbd,
            link: opt_chars(self.link),
            math: opt_chars(self.math),
            task: self.task,
        }
    }
}

impl InlineStyleView {
    /// The style of text with no decoration at all.
    pub open spec fn plain() -> Self {
        InlineStyleView {
            bold: false,
            italic: false,
            strike: false,
            code: false,
            kbd: false,
            link: None,
            math: None,
            task: None,
        }
    }
}

impl InlineStyle {
    pub fn plain() -> (r: InlineStyle)
        ensures
            r@ == InlineStyleView::plain(),
    {
        InlineStyle {
            bold: false,
            italic: false,
            strike: false,
            code: false,
            kbd: false,
            link: None,
            math: None,
            task: None,
        }
    }

    /// Whether the style decorates nothing.
    pub fn is_plain(&self) -> (r: bool)
        ensures
            r == (self@ == InlineStyleView::plain()),
    {
        !self.bold && !self.italic && !self.strike && !self.code && !self.kbd && self.link.is_none()
            && self.math.is_none() && self.task.is_none()
    }
}

impl Clone for InlineStyle {
    fn clone(&self) -> (r: Self)
        ensures
            r@ == self@,
    {
        InlineStyle {
            bold: self.bold,
            italic: self.italic,
            strike: self.strike,
            code: self.code,
            kbd: self.kbd,
            link: clone_opt(&self.link),
            math: clone_opt(&self.math),
            task: self.task,
        }
    }
}

/// A styled run of an inline text, by byte offsets into it.
#[derive(Debug, PartialEq)]
pub struct Span {
    pub range: Range<usize>,
    pub style: InlineStyle,
}

pub struct SpanView {
    pub start: usize,
    pub end: usize,
    pub style: InlineStyleView,
}

impl View for Span {
    type V = SpanView;

    open spec fn view(&self) -> SpanView {
        SpanView { start: self.range.start, end: self.range.end, style: self.style@ }
    }
}

pub open spec fn spans_view(spans: Seq<Span>) -> Seq<SpanView> {
    spans.map_values(|s: Span| s@)
}

/// A run of text with the styled spans laid over it.
#[derive(Debug, PartialEq)]
pub struct Inline {
    pub text: String,
    pub spans: Vec<Span>,
}

pub struct InlineView {
    pub text: Seq<char>,
    pub spans: Seq<SpanView>,
}

impl View for Inline {
    type V = InlineView;

    open spec fn view(&self) -> InlineView {
        InlineView { text: self.text@, spans: spans_view(self.spans@) }
    }
}

impl InlineView {
    pub open spec fn empty() -> Self {
        InlineView { text: Seq::empty(), spans: Seq::empty() }
    }
}

impl Inline {
    pub fn new() -> (r: Inline)
        ensures
            r@ == InlineView::empty(),
    {
        let r = Inline { text: String::new(), spans: Vec::new() };
        assert(spans_view(r.spans@) =~= Seq::empty());
        r
    }
}

pub open spec fn inlines_view(items: Seq<Inline>) -> Seq<InlineView> {
    items.map_values(|i: Inline| i@)
}

pub open spec fn rows_view(rows: Seq<Vec<Inline>>) -> Seq<Seq<InlineView>> {
    rows.map_values(|r: Vec<Inline>| inlines_view(r@))
}

/// A block of a rendered document.
#[derive(Debug, PartialEq)]
pub enum Block {
    Paragraph { content: Inline, quoted: bool },
    Heading { level: u8, content: Inline },
    Code { language: String, content: String },
    Diagram { language: String, content: String },
    Math { content: String },
    List { start: Option<u64>, items: Vec<Inline> },
    Table { header: Vec<Inline>, rows: Vec<Vec<Inline>> },
    Rule,
}

pub enum BlockView {
    Paragraph { content: InlineView, quoted: bool },
    Heading { level: u8, content: InlineView },
    Code { language: Seq<char>, content: Seq<char> },
    Diagram { language: Seq<char>, content: Seq<char> },
    Math { content: Seq<char> },
    List { start: Option<u64>, items: Seq<InlineView> },
    Table { header: Seq<InlineView>, rows: Seq<Seq<InlineView>> },
    Rule,
}

impl View for Block {
    type V = BlockView;

    open spec fn view(&self) -> BlockView {
        match self {
            Block::Paragraph { content, quoted } => BlockView::Paragraph {
                content: content@,
                quoted: *quoted,
            },
            Block::Heading { level, content } => BlockView::Heading {
                level: *level,
                content: content@,
            },
            Block::Code { language, content } => BlockView::Code {
                language: language@,
                content: content@,
            },
            Block::Diagram { language, content } => BlockView::Diagram {
                language: language@,
                content: content@,
            },
            Block::Math { content } => BlockView::Math { content: content@ },
            Block::List { start, items } => BlockView::List {
                start: *start,
                items: inlines_view(items@),
            },
            Block::Table { header, rows } => BlockView::Table {
                header: inlines_view(header@),
                rows: rows_view(rows@),
            },
            Block::Rule => BlockView::Rule,
        }
    }
}

pub open spec fn blocks_view(blocks: Seq<Block>) -> Seq<BlockView> {
    blocks.map_values(|b: Block| b@)
}

/// A rendered markdown document: its blocks in order.
#[derive(Debug, PartialEq)]
pub struct Document {
    pub blocks: Vec<Block>,
}

impl View for Document {
    type V = Seq<BlockView>;

    open spec fn view(&self) -> Seq<BlockView> {
        blocks_view(self.blocks@)
    }
}

/// A table being read: the rows closed so far and the cells of the open row.
pub struct TableBuilder {
    pub rows: Vec<Vec<Inline>>,
    pub row: Vec<Inline>,
}

pub struct TableView {
    pub rows: Seq<Seq<InlineView>>,
    pub row: Seq<InlineView>,
}

impl View for TableBuilder {
    type V = TableView;

    open spec fn view(&self) -> TableView {
        TableView { rows: rows_view(self.rows@), row: inlines_view(self.row@) }
    }
}

/// The opening of a markdown element, as the parser reports it; elements that
/// do not change how the document is built are `Other`.
pub enum MdTag {
    Heading(u8),
    BlockQuote,
    /// A code block and its language (empty for an indented block).
    CodeBlock(String),
    /// A list and the number of its first item, when it is numbered.
    List(Option<u64>),
    Table,
    Emphasis,
    Strong,
    Strikethrough,
    /// A link and where it points.
    Link(String),
    Other,
}

pub enum MdTagView {
    Heading(u8),
    BlockQuote,
    CodeBlock(Seq<char>),
    List(Option<u64>),
    Table,
    Emphasis,
    Strong,
    Strikethrough,
    Link(Seq<char>),
    Other,
}

impl View for MdTag {
    type V = MdTagView;

    open spec fn view(&self) -> MdTagView {
        match self {
            MdTag::Heading(level) => MdTagView::Heading(*level),
            MdTag::BlockQuote => MdTagView::BlockQuote,
            MdTag::CodeBlock(language) => MdTagView::CodeBlock(language@),
            MdTag::List(start) => MdTagView::List(*start),
            MdTag::Table => MdTagView::Table,
            MdTag::Emphasis => MdTagView::Emphasis,
            MdTag::Strong => MdTagView::Strong,
            MdTag::Strikethrough => MdTagView::Strikethrough,
            MdTag::Link(url) => MdTagView::Link(url@),
            MdTag::Other => MdTagView::Other,
        }
    }
}

/// The closing of a markdown element.
#[derive(PartialEq, Eq, Structural, Clone, Copy, Debug)]
pub enum MdTagEnd {
    Paragraph,
    Heading,
    BlockQuote,
    CodeBlock,
    Item,
    List,
    TableCell,
    TableRow,
    Table,
    Emphasis,
    Strong,
    Strikethrough,
    Link,
    Other,
}

/// One event of a markdown parse.
pub enum MdEvent {
    Start(MdTag),
    End(MdTagEnd),
    Text(String),
    Code(String),
    InlineMath(String),
    DisplayMath(String),
    Html(String),
    InlineHtml(String),
    FootnoteReference(String),
    SoftBreak,
    HardBreak,
    Rule,
    TaskListMarker(bool),
}

pub enum MdEventView {
    Start(MdTagView),
    End(MdTagEnd),
    Text(Seq<char>),
    Code(Seq<char>),
    InlineMath(Seq<char>),
    DisplayMath(Seq<char>),
    Html(Seq<char>),
    InlineHtml(Seq<char>),
    FootnoteReference(Seq<char>),
    SoftBreak,
    HardBreak,
    Rule,
    TaskListMarker(bool),
}

impl View for MdEvent {
    type V = MdEventView;

    open spec fn view(&self) -> MdEventView {
        match self {
            MdEvent::Start(tag) => MdEventView::Start(tag@),
            MdEvent::End(tag) => MdEventView::End(*tag),
            MdEvent::Text(t) => MdEventView::Text(t@),
            MdEvent::Code(t) => MdEventView::Code(t@),
            MdEvent::InlineMath(t) => MdEventView::InlineMath(t@),
            MdEvent::DisplayMath(t) => MdEventView::DisplayMath(t@),
            MdEvent::Html(t) => MdEventView::Html(t@),
            MdEvent::InlineHtml(t) => MdEventView::InlineHtml(t@),
            MdEvent::FootnoteReference(t) => MdEventView::FootnoteReference(t@),
            MdEvent::SoftBreak => MdEventView::SoftBreak,
            MdEvent::HardBreak => MdEventView::HardBreak,
            MdEvent::Rule => MdEventView::Rule,
            MdEvent::TaskListMarker(checked) => MdEventView::TaskListMarker(*checked),
        }
    }
}

pub open spec fn events_view(events: Seq<MdEvent>) -> Seq<MdEventView> {
    events.map_values(|e: MdEvent| e@)
}

/// The number of bytes the UTF-8 form of the characters takes, as the
/// machine counts it.
pub open spec fn byte_len(s: Seq<char>) -> usize {
    encode_utf8(s).len() as usize
}

/// Languages whose code blocks are drawn as diagrams.
pub open spec fn is_diagram(language: Seq<char>) -> bool {
    language == "mermaid"@ || language == "dot"@ || language == "graphviz"@ || language == "plantuml"@
}

/// Inline HTML that opens a keyboard key.
pub open spec fn opens_kbd(html: Seq<char>) -> bool {
    "<kbd"@.is_prefix_of(ascii_lower(trimmed(html)))
}

/// Inline HTML that closes a keyboard key.
pub open spec fn closes_kbd(html: Seq<char>) -> bool {
    ascii_lower(html) == ascii_lower("</kbd>"@)
}

/// The state of a document being built from parse events.
pub struct Builder {
    pub document: Document,
    pub inline: Inline,
    pub style: InlineStyle,
    pub heading: Option<u8>,
    pub quoted: usize,
    pub code: Option<(String, String)>,
    pub list: Option<(Option<u64>, Vec<Inline>)>,
    pub table: Option<TableBuilder>,
}

pub struct BuilderView {
    pub blocks: Seq<BlockView>,
    pub inline: InlineView,
    pub style: InlineStyleView,
    pub heading: Option<u8>,
    pub quoted: usize,
    pub code: Option<(Seq<char>, Seq<char>)>,
    pub list: Option<(Option<u64>, Seq<InlineView>)>,
    pub table: Option<TableView>,
}

impl View for Builder {
    type V = BuilderView;

    open spec fn view(&self) -> BuilderView {
        BuilderView {
            blocks: self.document@,
            inline: self.inline@,
            style: self.style@,
            heading: self.heading,
            quoted: self.quoted,
            code: match self.code {
                Some((language, content)) => Some((language@, content@)),
                None => None,
            },
            list: match self.list {
                Some((start, items)) => Some((start, inlines_view(items@))),
                None => None,
            },
            table: match self.table {
                Some(t) => Some(t@),
                None => None,
            },
        }
    }
}

impl BuilderView {
    /// Nothing built yet.
    pub open spec fn empty() -> Self {
        BuilderView {
            blocks: Seq::empty(),
            inline: InlineView::empty(),
            style: InlineStyleView::plain(),
            heading: None,
            quoted: 0,
            code: None,
            list: None,
            table: None,
        }
    }

    /// Text added where it belongs: to the open code block, or to the inline
    /// text with a span in the current style when the style decorates it.
    pub open spec fn pushed_text(self, text: Seq<char>) -> Self {
        match self.code {
            Some((language, content)) => BuilderView { code: Some((language, content + text)), ..self },
            None => {
                let start = byte_len(self.inline.text);
                let joined = self.inline.text + text;
                let end = byte_len(joined);
                let spans = if start != end && self.style != InlineStyleView::plain() {
                    self.inline.spans.push(SpanView { start, end, style: self.style })
                } else {
                    self.inline.spans
                };
                BuilderView { inline: InlineView { text: joined, spans }, ..self }
            },
        }
    }

    pub open spec fn with_style(self, style: InlineStyleView) -> Self {
        BuilderView { style, ..self }
    }

    /// Inline math: its source between dollar signs, styled as math.
    pub open spec fn pushed_math(self, math: Seq<char>) -> Self {
        let inner = self.with_style(InlineStyleView { math: Some(math), ..self.style });
        let pushed = inner.pushed_text("$"@ + math + "$"@);
        pushed.with_style(InlineStyleView { math: self.style.math, ..pushed.style })
    }

    /// Display math: a block of its own, but inline where no block can
    /// start (in a list, a table or a heading).
    pub open spec fn pushed_display_math(self, math: Seq<char>) -> Self {
        if self.list.is_some() || self.table.is_some() || self.heading.is_some() {
            self.pushed_math(math)
        } else {
            let flushed = self.flushed_paragraph();
            BuilderView { blocks: flushed.blocks.push(BlockView::Math { content: math }), ..flushed }
        }
    }

    /// The inline text closed as a paragraph, unless it is empty or belongs
    /// to a list item.
    pub open spec fn flushed_paragraph(self) -> Self {
        if self.inline.text.len() == 0 || self.list.is_some() {
            self
        } else {
            BuilderView {
                blocks: self.blocks.push(
                    BlockView::Paragraph { content: self.inline, quoted: self.quoted > 0 },
                ),
                inline: InlineView::empty(),
                ..self
            }
        }
    }

    /// The open code block closed, as a diagram when its language draws one.
    pub open spec fn flushed_code(self) -> Self {
        match self.code {
            None => self,
            Some((language, content)) => BuilderView {
                blocks: self.blocks.push(
                    if is_diagram(language) {
                        BlockView::Diagram { language, content }
                    } else {
                        BlockView::Code { language, content }
                    },
                ),
                code: None,
                ..self
            },
        }
    }

    /// The open table closed: its first row is the header.
    pub open spec fn flushed_table(self) -> Self {
        match self.table {
            None => self,
            Some(t) => BuilderView {
                blocks: self.blocks.push(
                    BlockView::Table {
                        header: if t.rows.len() == 0 {
                            Seq::empty()
                        } else {
                            t.rows[0]
                        },
                        rows: if t.rows.len() == 0 {
                            t.rows
                        } else {
                            t.rows.drop_first()
                        },
                    },
                ),
                table: None,
                ..self
            },
        }
    }

    /// Whatever is still open at the end of the source, closed.
    pub open spec fn finished(self) -> Self {
        let closed = if self.code.is_some() {
            self.flushed_code()
        } else {
            self
        };
        if closed.inline.text.len() != 0 {
            closed.flushed_paragraph()
        } else {
            closed
        }
    }

    pub open spec fn started(self, tag: MdTagView) -> Self {
        match tag {
            MdTagView::Heading(level) => BuilderView { heading: Some(level), ..self },
            MdTagView::BlockQuote => BuilderView { quoted: (self.quoted + 1) as usize, ..self },
            MdTagView::CodeBlock(language) => BuilderView {
                code: Some((language, Seq::empty())),
                ..self
            },
            MdTagView::List(start) => BuilderView { list: Some((start, Seq::empty())), ..self },
            MdTagView::Table => BuilderView {
                table: Some(TableView { rows: Seq::empty(), row: Seq::empty() }),
                ..self
            },
            MdTagView::Emphasis => self.with_style(InlineStyleView { italic: true, ..self.style }),
            MdTagView::Strong => self.with_style(InlineStyleView { bold: true, ..self.style }),
            MdTagView::Strikethrough => self.with_style(
                InlineStyleView { strike: true, ..self.style },
            ),
            MdTagView::Link(url) => self.with_style(InlineStyleView { link: Some(url), ..self.style }),
            MdTagView::Other => self,
        }
    }

    pub open spec fn ended(self, tag: MdTagEnd) -> Self {
        match tag {
            MdTagEnd::Paragraph => self.flushed_paragraph(),
            MdTagEnd::Heading => BuilderView {
                blocks: self.blocks.push(
                    BlockView::Heading {
                        level: match self.heading {
                            Some(level) => level,
                            None => 1,
                        },
                        content: self.inline,
                    },
                ),
                inline: InlineView::empty(),
                heading: None,
                ..self
            },
            MdTagEnd::BlockQuote => BuilderView {
                quoted: if self.quoted == 0 {
                    0
                } else {
                    (self.quoted - 1) as usize
                },
                ..self
            },
            MdTagEnd::CodeBlock => self.flushed_code(),
            MdTagEnd::Item => match self.list {
                Some((start, items)) => if self.inline.text.len() != 0 {
                    BuilderView {
                        list: Some((start, items.push(self.inline))),
                        inline: InlineView::empty(),
                        ..self
                    }
                } else {
                    self
                },
                None => self,
            },
            MdTagEnd::List => match self.list {
                Some((start, items)) => BuilderView {
                    blocks: self.blocks.push(BlockView::List { start, items }),
                    list: None,
                    ..self
                },
                None => self,
            },
            MdTagEnd::TableCell => match self.table {
                Some(t) => BuilderView {
                    table: Some(TableView { row: t.row.push(self.inline), ..t }),
                    inline: InlineView::empty(),
                    ..self
                },
                None => self,
            },
            MdTagEnd::TableRow => match self.table {
                Some(t) => BuilderView {
                    table: Some(TableView { rows: t.rows.push(t.row), row: Seq::empty() }),
                    ..self
                },
                None => self,
            },
            MdTagEnd::Table => self.flushed_table(),
            MdTagEnd::Emphasis => self.with_style(InlineStyleView { italic: false, ..self.style }),
            MdTagEnd::Strong => self.with_style(InlineStyleView { bold: false, ..self.style }),
            MdTagEnd::Strikethrough => self.with_style(
                InlineStyleView { strike: false, ..self.style },
            ),
            MdTagEnd::Link => self.with_style(InlineStyleView { link: None, ..self.style }),
            MdTagEnd::Other => self,
        }
    }

    /// One parse event taken in.
    pub open spec fn stepped(self, event: MdEventView) -> Self {
        match event {
            MdEventView::Start(tag) => self.started(tag),
            MdEventView::End(tag) => self.ended(tag),
            MdEventView::InlineHtml(html) => if opens_kbd(html) {
                self.with_style(InlineStyleView { kbd: true, ..self.style })
            } else if closes_kbd(html) {
                self.with_style(InlineStyleView { kbd: false, ..self.style })
            } else {
                self.pushed_text(html)
            },
            MdEventView::Text(text) => self.pushed_text(text),
            MdEventView::Html(text) => self.pushed_text(text),
            MdEventView::Code(text) => {
                let inner = self.with_style(InlineStyleView { code: true, ..self.style });
                let pushed = inner.pushed_text(text);
                pushed.with_style(InlineStyleView { code: self.style.code, ..pushed.style })
            },
            MdEventView::InlineMath(math) => self.pushed_math(math),
            MdEventView::DisplayMath(math) => self.pushed_display_math(math),
            MdEventView::SoftBreak => self.pushed_text(" "@),
            MdEventView::HardBreak => self.pushed_text("\n"@),
            MdEventView::Rule => BuilderView { blocks: self.blocks.push(BlockView::Rule), ..self },
            MdEventView::TaskListMarker(checked) => {
                let state = if checked {
                    TaskState::Checked
                } else {
                    TaskState::Pending
                };
                let inner = self.with_style(InlineStyleView { task: Some(state), ..self.style });
                let pushed = inner.pushed_text(
                    if checked {
                        "[x] "@
                    } else {
                        "[ ] "@
                    },
                );
                pushed.with_style(InlineStyleView { task: None, ..pushed.style })
            },
            MdEventView::FootnoteReference(reference) => self.pushed_text(
                "["@ + reference + "]"@,
            ),
        }
    }
}

/// Whether taking in the event opens a block quote.
pub open spec fn opens_quote(event: MdEventView) -> bool {
    event matches MdEventView::Start(MdTagView::BlockQuote)
}

/// The builder after taking in the events one by one.
pub open spec fn run_events(start: BuilderView, events: Seq<MdEventView>) -> BuilderView
    decreases events.len(),
{
    if events.len() == 0 {
        start
    } else {
        run_events(start, events.drop_last()).stepped(events.last())
    }
}

/// The document that a sequence of parse events describes.
pub open spec fn document_of(events: Seq<MdEventView>) -> Seq<BlockView> {
    run_events(BuilderView::empty(), events).finished().blocks
}

fn is_diagram_language(language: &str) -> (r: bool)
    ensures
        r == is_diagram(language@),
{
    crate::assoc::str_eq(language, "mermaid") || crate::assoc::str_eq(language, "dot")
        || crate::assoc::str_eq(language, "graphviz") || crate::assoc::str_eq(language, "plantuml")
}

impl Builder {
    pub fn new() -> (b: Builder)
        ensures
            b@ == BuilderView::empty(),
    {
        let b = Builder {
            document: Document { blocks: Vec::new() },
            inline: Inline::new(),
            style: InlineStyle::plain(),
            heading: None,
            quoted: 0,
            code: None,
            list: None,
            table: None,
        };
        assert(b.document@ =~= Seq::empty());
        b
    }

    fn push_block(&mut self, block: Block)
        ensures
            final(self)@ == (BuilderView { blocks: old(self)@.blocks.push(block@), ..old(self)@ }),
    {
        self.document.blocks.push(block);
        assert(blocks_view(self.document.blocks@) =~= blocks_view(old(self).document.blocks@).push(
            block@,
        ));
    }

    fn take_inline(&mut self) -> (r: Inline)
        ensures
            r@ == old(self)@.inline,
            final(self)@ == (BuilderView { inline: InlineView::empty(), ..old(self)@ }),
    {
        let mut taken = Inline::new();
        std::mem::swap(&mut taken, &mut self.inline);
        taken
    }

    pub fn push_text(&mut self, text: &str)
        ensures
            final(self)@ == old(self)@.pushed_text(text@),
    {
        match self.code.take() {
            Some((language, mut content)) => {
                push_str(&mut content, text);
                self.code = Some((language, content));
                return;
            },
            None => {},
        }
        let start = self.inline.text.as_str().len();
        push_str(&mut self.inline.text, text);
        let end = self.inline.text.as_str().len();
        if start != end && !self.style.is_plain() {
            let span = Span { range: start..end, style: self.style.clone() };
            self.inline.spans.push(span);
            assert(spans_view(self.inline.spans@) =~= spans_view(old(self).inline.spans@).push(
                span@,
            ));
        }
    }

    pub fn push_math(&mut self, math: &str)
        ensures
            final(self)@ == old(self)@.pushed_math(math@),
    {
        let previous = self.style.math.take();
        self.style.math = Some(math.to_owned());
        let source = concat(concat("$", math).as_str(), "$");
        self.push_text(source.as_str());
        self.style.math = previous;
    }

    pub fn push_display_math(&mut self, math: &str)
        ensures
            final(self)@ == old(self)@.pushed_display_math(math@),
    {
        if self.list.is_some() || self.table.is_some() || self.heading.is_some() {
            self.push_math(math);
            return;
        }
        self.flush_paragraph();
        self.push_block(Block::Math { content: math.to_owned() });
    }

    pub fn flush_paragraph(&mut self)
        ensures
            final(self)@ == old(self)@.flushed_paragraph(),
    {
        if self.inline.text.as_str().is_empty() {
            return;
        }
        if self.list.is_some() {
            return;
        }
        let quoted = self.quoted > 0;
        let content = self.take_inline();
        self.push_block(Block::Paragraph { content, quoted });
    }

    pub fn flush_code(&mut self)
        ensures
            final(self)@ == old(self)@.flushed_code(),
    {
        match self.code.take() {
            None => {},
            Some((language, content)) => {
                let block = if is_diagram_language(language.as_str()) {
                    Block::Diagram { language, content }
                } else {
                    Block::Code { language, content }
                };
                self.push_block(block);
            },
        }
    }

    pub fn flush_table(&mut self)
        ensures
            final(self)@ == old(self)@.flushed_table(),
    {
        match self.table.take() {
            None => {},
            Some(table) => {
                let TableBuilder { mut rows, row: _ } = table;
                let ghost before = rows@;
                let header = if rows.len() == 0 {
                    Vec::new()
                } else {
                    rows.remove(0)
                };
                proof {
                    if before.len() == 0 {
                        assert(inlines_view(header@) =~= Seq::empty());
                    } else {
                        assert(rows_view(rows@) =~= rows_view(before).drop_first());
                    }
                }
                self.push_block(Block::Table { header, rows });
            },
        }
    }

    pub fn finish(&mut self)
        ensures
            final(self)@ == old(self)@.finished(),
    {
        if self.code.is_some() {
            self.flush_code();
        }
        if !self.inline.text.as_str().is_empty() {
            self.flush_paragraph();
        }
    }
}

impl Builder {
    pub fn start(&mut self, tag: &MdTag)
        requires
            tag@ == MdTagView::BlockQuote ==> old(self).quoted < usize::MAX,
        ensures
            final(self)@ == old(self)@.started(tag@),
    {
        match tag {
            MdTag::Heading(level) => self.heading = Some(*level),
            MdTag::BlockQuote => self.quoted = self.quoted + 1,
            MdTag::CodeBlock(language) => self.code = Some((language.clone(), String::new())),
            MdTag::List(start) => {
                self.list = Some((*start, Vec::new()));
                assert(inlines_view(Seq::<Inline>::empty()) =~= Seq::empty());
            },
            MdTag::Table => {
                self.table = Some(TableBuilder { rows: Vec::new(), row: Vec::new() });
                assert(inlines_view(Seq::<Inline>::empty()) =~= Seq::empty());
                assert(rows_view(Seq::<Vec<Inline>>::empty()) =~= Seq::empty());
            },
            MdTag::Emphasis => self.style.italic = true,
            MdTag::Strong => self.style.bold = true,
            MdTag::Strikethrough => self.style.strike = true,
            MdTag::Link(url) => self.style.link = Some(url.clone()),
            MdTag::Other => {},
        }
    }

    pub fn end(&mut self, tag: MdTagEnd)
        ensures
            final(self)@ == old(self)@.ended(tag),
    {
        match tag {
            MdTagEnd::Paragraph => self.flush_paragraph(),
            MdTagEnd::Heading => {
                let content = self.take_inline();
                let level = match self.heading.take() {
                    Some(level) => level,
                    None => 1,
                };
                self.push_block(Block::Heading { level, content });
            },
            MdTagEnd::BlockQuote => {
                if self.quoted > 0 {
                    self.quoted = self.quoted - 1;
                }
            },
            MdTagEnd::CodeBlock => self.flush_code(),
            MdTagEnd::Item => {
                if self.list.is_some() && !self.inline.text.as_str().is_empty() {
                    let content = self.take_inline();
                    match self.list.take() {
                        Some((start, mut items)) => {
                            let ghost before = items@;
                            items.push(content);
                            assert(inlines_view(items@) =~= inlines_view(before).push(content@));
                            self.list = Some((start, items));
                        },
                        None => {},
                    }
                }
            },
            MdTagEnd::List => {
                match self.list.take() {
                    Some((start, items)) => self.push_block(Block::List { start, items }),
                    None => {},
                }
            },
            MdTagEnd::TableCell => {
                if self.table.is_some() {
                    let content = self.take_inline();
                    match self.table.take() {
                        Some(mut table) => {
                            let ghost before = table.row@;
                            table.row.push(content);
                            assert(inlines_view(table.row@) =~= inlines_view(before).push(
                                content@,
                            ));
                            self.table = Some(table);
                        },
                        None => {},
                    }
                }
            },
            MdTagEnd::TableRow => {
                match self.table.take() {
                    Some(table) => {
                        let TableBuilder { mut rows, row } = table;
                        let ghost before = rows@;
                        rows.push(row);
                        assert(rows_view(rows@) =~= rows_view(before).push(inlines_view(row@)));
                        let fresh: Vec<Inline> = Vec::new();
                        assert(inlines_view(fresh@) =~= Seq::empty());
                        self.table = Some(TableBuilder { rows, row: fresh });
                    },
                    None => {},
                }
            },
            MdTagEnd::Table => self.flush_table(),
            MdTagEnd::Emphasis => self.style.italic = false,
            MdTagEnd::Strong => self.style.bold = false,
            MdTagEnd::Strikethrough => self.style.strike = false,
            MdTagEnd::Link => self.style.link = None,
            MdTagEnd::Other => {},
        }
    }

    /// Takes in one parse event.
    pub fn event(&mut self, event: &MdEvent)
        requires
            opens_quote(event@) ==> old(self).quoted < usize::MAX,
        ensures
            final(self)@ == old(self)@.stepped(event@),
    {
        match event {
            MdEvent::Start(tag) => self.start(tag),
            MdEvent::End(tag) => self.end(*tag),
            MdEvent::InlineHtml(html) => {
                let lowered = ascii_lowercase(trim(html.as_str()).as_str());
                if starts_with(lowered.as_str(), "<kbd") {
                    self.style.kbd = true;
                } else if eq_ignore_ascii_case(html.as_str(), "</kbd>") {
                    self.style.kbd = false;
                } else {
                    self.push_text(html.as_str());
                }
            },
            MdEvent::Text(text) => self.push_text(text.as_str()),
            MdEvent::Html(text) => self.push_text(text.as_str()),
            MdEvent::Code(text) => {
                let previous = self.style.code;
                self.style.code = true;
                self.push_text(text.as_str());
                self.style.code = previous;
            },
            MdEvent::InlineMath(math) => self.push_math(math.as_str()),
            MdEvent::DisplayMath(math) => self.push_display_math(math.as_str()),
            MdEvent::SoftBreak => self.push_text(" "),
            MdEvent::HardBreak => self.push_text("\n"),
            MdEvent::Rule => self.push_block(Block::Rule),
            MdEvent::TaskListMarker(checked) => {
                self.style.task = Some(
                    if *checked {
                        TaskState::Checked
                    } else {
                        TaskState::Pending
                    },
                );
                self.push_text(
                    if *checked {
                        "[x] "
                    } else {
                        "[ ] "
                    },
                );
                self.style.task = None;
            },
            MdEvent::FootnoteReference(reference) => {
                let marker = concat(concat("[", reference.as_str()).as_str(), "]");
                self.push_text(marker.as_str());
            },
        }
    }
}

/// The document that the parse events describe: each event taken in, in
/// order, and what is still open closed at the end.
pub fn build(events: &Vec<MdEvent>) -> (d: Document)
    ensures
        d@ == document_of(events_view(events@)),
{
    let mut builder = Builder::new();
    let mut i: usize = 0;
    while i < events.len()
        invariant
            i <= events@.len(),
            builder@ == run_events(BuilderView::empty(), events_view(events@).take(i as int)),
            builder.quoted <= i,
        decreases events@.len() - i,
    {
        let ghost before = builder@;
        builder.event(&events[i]);
        assert(events_view(events@).take(i + 1).drop_last() =~= events_view(events@).take(i as int));
        i += 1;
    }
    assert(events_view(events@).take(events@.len() as int) =~= events_view(events@));
    builder.finish();
    builder.document
}

/// Finishing closes the open code block, and leaves no inline text pending
/// unless a list still holds it.
pub proof fn law_finish_closes_open_blocks(b: BuilderView)
    ensures
        b.finished().code.is_none(),
        b.finished().inline.text.len() == 0 || b.list.is_some(),
{
}

/// Text taken in while a code block is open goes to the block verbatim and
/// changes nothing else.
pub proof fn law_code_block_keeps_text_verbatim(b: BuilderView, text: Seq<char>)
    requires
        b.code is Some,
    ensures
        b.pushed_text(text).code == (match b.code {
            Some((language, content)) => Some((language, content + text)),
            None => None,
        }),
        b.pushed_text(text).inline == b.inline,
        b.pushed_text(text).blocks == b.blocks,
{
}

proof fn lemma_styled_push(b: BuilderView, text: Seq<char>)
    requires
        b.code is None,
        text.len() > 0,
        encode_utf8(b.inline.text + text).len() <= usize::MAX,
        b.style != InlineStyleView::plain(),
    ensures
        b.pushed_text(text).inline.text == b.inline.text + text,
        b.pushed_text(text).inline.spans == b.inline.spans.push(
            SpanView {
                start: byte_len(b.inline.text),
                end: byte_len(b.inline.text + text),
                style: b.style,
            },
        ),
        byte_len(b.inline.text) < byte_len(b.inline.text + text),
        b.pushed_text(text).style == b.style,
{
    crate::editor::lemma_utf8_concat(b.inline.text, text);
    assert(encode_utf8(text).len() > 0) by {
        reveal_with_fuel(encode_utf8, 1);
    }
}

/// Inline decoration covers the text taken in while it is open: the start of
/// emphasis, strong text, strikethrough or a link turns on italic, bold,
/// strike or the link and keeps the rest of the style; non-empty text then
/// pushed outside a code block is appended with one new span over exactly
/// its bytes in that style; the end turns the decoration off again.
pub proof fn law_inline_decoration_styles_text(b: BuilderView, text: Seq<char>, url: Seq<char>)
    requires
        b.code is None,
        text.len() > 0,
        encode_utf8(b.inline.text + text).len() <= usize::MAX,
    ensures
        b.started(MdTagView::Emphasis).style == (InlineStyleView { italic: true, ..b.style }),
        b.started(MdTagView::Strong).style == (InlineStyleView { bold: true, ..b.style }),
        b.started(MdTagView::Strikethrough).style == (InlineStyleView { strike: true, ..b.style }),
        b.started(MdTagView::Link(url)).style == (InlineStyleView { link: Some(url), ..b.style }),
        b.started(MdTagView::Emphasis).pushed_text(text).inline.spans == b.inline.spans.push(
            SpanView {
                start: byte_len(b.inline.text),
                end: byte_len(b.inline.text + text),
                style: InlineStyleView { italic: true, ..b.style },
            },
        ),
        b.started(MdTagView::Strong).pushed_text(text).inline.spans.last().style.bold,
        b.started(MdTagView::Strikethrough).pushed_text(text).inline.spans.last().style.strike,
        b.started(MdTagView::Link(url)).pushed_text(text).inline.spans.last().style.link == Some(url),
        byte_len(b.inline.text) < byte_len(b.inline.text + text),
        b.started(MdTagView::Emphasis).ended(MdTagEnd::Emphasis).style == (InlineStyleView {
            italic: false,
            ..b.style
        }),
        b.started(MdTagView::Strong).ended(MdTagEnd::Strong).style == (InlineStyleView {
            bold: false,
            ..b.style
        }),
        b.started(MdTagView::Strikethrough).ended(MdTagEnd::Strikethrough).style == (
        InlineStyleView { strike: false, ..b.style }),
        b.started(MdTagView::Link(url)).ended(MdTagEnd::Link).style == (InlineStyleView {
            link: None,
            ..b.style
        }),
{
    lemma_styled_push(b.started(MdTagView::Emphasis), text);
    lemma_styled_push(b.started(MdTagView::Strong), text);
    lemma_styled_push(b.started(MdTagView::Strikethrough), text);
    lemma_styled_push(b.started(MdTagView::Link(url)), text);
}

/// Closing a block adds it after the blocks before it: a heading with the
/// level it was started at and the text taken in; a paragraph with its text,
/// quoted when inside a block quote, leaving no text pending; a code block
/// with its language and exactly the text taken in, drawn as a diagram for
/// mermaid, dot, graphviz and plantuml; a list with the items closed in it.
pub proof fn law_closing_blocks_adds_them(
    b: BuilderView,
    level: u8,
    language: Seq<char>,
    text: Seq<char>,
    start: Option<u64>,
)
    ensures
        b.started(MdTagView::Heading(level)).ended(MdTagEnd::Heading).blocks == b.blocks.push(
            BlockView::Heading { level, content: b.inline },
        ),
        b.inline.text.len() > 0 && b.list is None ==> b.ended(MdTagEnd::Paragraph).blocks
            == b.blocks.push(BlockView::Paragraph { content: b.inline, quoted: b.quoted > 0 })
            && b.ended(MdTagEnd::Paragraph).inline.text.len() == 0,
        b.quoted < usize::MAX ==> b.started(MdTagView::BlockQuote).quoted == b.quoted + 1,
        b.code is None ==> b.started(MdTagView::CodeBlock(language)).pushed_text(text).ended(
            MdTagEnd::CodeBlock,
        ).blocks == b.blocks.push(
            if language == "mermaid"@ || language == "dot"@ || language == "graphviz"@ || language
                == "plantuml"@ {
                BlockView::Diagram { language, content: text }
            } else {
                BlockView::Code { language, content: text }
            },
        ),
        b.inline.text.len() > 0 ==> b.started(MdTagView::List(start)).ended(MdTagEnd::Item).ended(
            MdTagEnd::List,
        ).blocks == b.blocks.push(BlockView::List { start, items: seq![b.inline] }),
{
    assert(Seq::<char>::empty() + text =~= text);
    assert(Seq::<InlineView>::empty().push(b.inline) =~= seq![b.inline]);
}

/// Inline events outside a code block add their text to the inline text:
/// text, raw HTML, inline code and footnote references (`[ref]`) as they
/// read, a soft break as a space, a hard break as a newline, a task marker as
/// `[x] ` or `[ ] `; inline code is styled as code, and the style after it is
/// what it was before; a rule adds a rule block and leaves the inline text.
pub proof fn law_inline_events_add_their_text(b: BuilderView, t: Seq<char>, checked: bool)
    requires
        b.code is None,
    ensures
        b.stepped(MdEventView::Text(t)).inline.text == b.inline.text + t,
        b.stepped(MdEventView::Text(t)).style == b.style,
        b.stepped(MdEventView::Html(t)).inline.text == b.inline.text + t,
        b.stepped(MdEventView::SoftBreak).inline.text == b.inline.text + seq![' '],
        b.stepped(MdEventView::HardBreak).inline.text == b.inline.text + seq!['\n'],
        b.stepped(MdEventView::Code(t)).inline.text == b.inline.text + t,
        b.stepped(MdEventView::Code(t)).style == b.style,
        b.stepped(MdEventView::FootnoteReference(t)).inline.text == b.inline.text + seq!['[']
            + t + seq![']'],
        b.stepped(MdEventView::TaskListMarker(checked)).inline.text == b.inline.text + (if checked {
            seq!['[', 'x', ']', ' ']
        } else {
            seq!['[', ' ', ']', ' ']
        }),
        b.stepped(MdEventView::Rule).blocks == b.blocks.push(BlockView::Rule),
        b.stepped(MdEventView::Rule).inline == b.inline,
        t.len() > 0 && encode_utf8(b.inline.text + t).len() <= usize::MAX ==> b.stepped(
            MdEventView::Code(t),
        ).inline.spans.last().style.code,
{
    reveal_strlit(" ");
    reveal_strlit("\n");
    reveal_strlit("[");
    reveal_strlit("]");
    reveal_strlit("[x] ");
    reveal_strlit("[ ] ");
    assert(" "@ =~= seq![' ']);
    assert("\n"@ =~= seq!['\n']);
    assert("[x] "@ =~= seq!['[', 'x', ']', ' ']);
    assert("[ ] "@ =~= seq!['[', ' ', ']', ' ']);
    assert("["@ =~= seq!['[']);
    assert("]"@ =~= seq![']']);
    assert(b.inline.text + ("["@ + t + "]"@) =~= b.inline.text + seq!['['] + t + seq![']']);
    if t.len() > 0 && encode_utf8(b.inline.text + t).len() <= usize::MAX {
        lemma_styled_push(b.with_style(InlineStyleView { code: true, ..b.style }), t);
    }
}

} // verus!
