use opencode_gpui::markdown::{build, Block, Builder, InlineStyle, MdEvent, MdTag, MdTagEnd, TaskState};

fn text(s: &str) -> MdEvent {
    MdEvent::Text(s.into())
}

fn paragraph_text(block: &Block) -> &str {
    match block {
        Block::Paragraph { content, .. } => content.text.as_str(),
        other => panic!("expected a paragraph, got {other:?}"),
    }
}

#[test]
fn paragraphs_headings_and_rules() {
    let document = build(&vec![
        MdEvent::Start(MdTag::Heading(2)),
        text("Title"),
        MdEvent::End(MdTagEnd::Heading),
        MdEvent::Start(MdTag::Other),
        text("one"),
        MdEvent::SoftBreak,
        text("two"),
        MdEvent::End(MdTagEnd::Paragraph),
        MdEvent::Rule,
    ]);
    assert_eq!(document.blocks.len(), 3);
    match &document.blocks[0] {
        Block::Heading { level, content } => {
            assert_eq!(*level, 2);
            assert_eq!(content.text, "Title");
        }
        other => panic!("expected a heading, got {other:?}"),
    }
    assert_eq!(paragraph_text(&document.blocks[1]), "one two");
    assert_eq!(document.blocks[2], Block::Rule);
}

#[test]
fn styled_text_gets_byte_spans() {
    let document = build(&vec![
        text("a "),
        MdEvent::Start(MdTag::Strong),
        text("βold"),
        MdEvent::End(MdTagEnd::Strong),
        MdEvent::Code("x".into()),
        MdEvent::End(MdTagEnd::Paragraph),
    ]);
    match &document.blocks[0] {
        Block::Paragraph { content, quoted } => {
            assert!(!quoted);
            assert_eq!(content.text, "a βoldx");
            assert_eq!(content.spans.len(), 2);
            assert_eq!(content.spans[0].range, 2..7);
            assert!(content.spans[0].style.bold);
            assert_eq!(content.spans[1].range, 7..8);
            assert!(content.spans[1].style.code);
            assert!(!content.spans[1].style.bold);
        }
        other => panic!("expected a paragraph, got {other:?}"),
    }
}

#[test]
fn code_blocks_and_diagrams() {
    let document = build(&vec![
        MdEvent::Start(MdTag::CodeBlock("rust".into())),
        text("fn main() {}\n"),
        MdEvent::End(MdTagEnd::CodeBlock),
        MdEvent::Start(MdTag::CodeBlock("mermaid".into())),
        text("graph TD"),
        MdEvent::End(MdTagEnd::CodeBlock),
        MdEvent::Start(MdTag::CodeBlock("".into())),
        text("unterminated"),
    ]);
    assert_eq!(document.blocks.len(), 3);
    assert_eq!(
        document.blocks[0],
        Block::Code {
            language: "rust".into(),
            content: "fn main() {}\n".into()
        }
    );
    assert_eq!(
        document.blocks[1],
        Block::Diagram {
            language: "mermaid".into(),
            content: "graph TD".into()
        }
    );
    assert_eq!(
        document.blocks[2],
        Block::Code {
            language: "".into(),
            content: "unterminated".into()
        }
    );
}

#[test]
fn lists_collect_items_and_tables_split_the_header() {
    let document = build(&vec![
        MdEvent::Start(MdTag::List(Some(3))),
        text("first"),
        MdEvent::End(MdTagEnd::Item),
        MdEvent::TaskListMarker(true),
        text("done"),
        MdEvent::End(MdTagEnd::Item),
        MdEvent::End(MdTagEnd::List),
        MdEvent::Start(MdTag::Table),
        text("h"),
        MdEvent::End(MdTagEnd::TableCell),
        MdEvent::End(MdTagEnd::TableRow),
        text("c"),
        MdEvent::End(MdTagEnd::TableCell),
        MdEvent::End(MdTagEnd::TableRow),
        MdEvent::End(MdTagEnd::Table),
    ]);
    match &document.blocks[0] {
        Block::List { start, items } => {
            assert_eq!(*start, Some(3));
            assert_eq!(items.len(), 2);
            assert_eq!(items[1].text, "[x] done");
            assert_eq!(items[1].spans[0].style.task, Some(TaskState::Checked));
        }
        other => panic!("expected a list, got {other:?}"),
    }
    match &document.blocks[1] {
        Block::Table { header, rows } => {
            assert_eq!(header.len(), 1);
            assert_eq!(header[0].text, "h");
            assert_eq!(rows.len(), 1);
            assert_eq!(rows[0][0].text, "c");
        }
        other => panic!("expected a table, got {other:?}"),
    }
}

#[test]
fn math_kbd_quotes_and_footnotes() {
    let document = build(&vec![
        MdEvent::Start(MdTag::BlockQuote),
        text("see"),
        MdEvent::FootnoteReference("1".into()),
        MdEvent::End(MdTagEnd::Paragraph),
        MdEvent::End(MdTagEnd::BlockQuote),
        MdEvent::InlineHtml(" <KBD>".into()),
        text("Ctrl"),
        MdEvent::InlineHtml("</kbd>".into()),
        MdEvent::InlineMath("x^2".into()),
        MdEvent::DisplayMath("y".into()),
    ]);
    match &document.blocks[0] {
        Block::Paragraph { content, quoted } => {
            assert!(quoted);
            assert_eq!(content.text, "see[1]");
        }
        other => panic!("expected a paragraph, got {other:?}"),
    }
    match &document.blocks[1] {
        Block::Paragraph { content, quoted } => {
            assert!(!quoted);
            assert_eq!(content.text, "Ctrl$x^2$");
            assert!(content.spans[0].style.kbd);
            assert_eq!(content.spans[1].style.math.as_deref(), Some("x^2"));
        }
        other => panic!("expected a paragraph, got {other:?}"),
    }
    assert_eq!(document.blocks[2], Block::Math { content: "y".into() });
}

#[test]
fn builder_steps_directly() {
    let mut builder = Builder::new();
    builder.push_text("plain");
    assert!(builder.inline.spans.is_empty());
    builder.flush_paragraph();
    assert_eq!(builder.document.blocks.len(), 1);
    builder.flush_paragraph();
    assert_eq!(builder.document.blocks.len(), 1);
    builder.push_display_math("z");
    builder.flush_code();
    builder.flush_table();
    builder.push_math("m");
    builder.finish();
    assert_eq!(builder.document.blocks.len(), 3);
    assert_eq!(paragraph_text(&builder.document.blocks[2]), "$m$");
    assert!(InlineStyle::plain().is_plain());
}

#[test]
fn parsing_markdown_text_builds_its_blocks() {
    let document = opencode_gpui::markdown_parse::parse("# Title\n\nsome *text*\n\n---\n");
    assert_eq!(document.blocks.len(), 3);
    match &document.blocks[0] {
        Block::Heading { level, content } => {
            assert_eq!(*level, 1);
            assert_eq!(content.text, "Title");
        }
        other => panic!("expected a heading, got {other:?}"),
    }
    assert_eq!(paragraph_text(&document.blocks[1]), "some text");
    assert_eq!(document.blocks[2], Block::Rule);
}
