use rustdown::events::{MdEvent, MdTag, TagKind};
use rustdown::markdown::{render_events, render_markdown};
use rustdown::render_markdown_to_writer;
use rustdown::style::{Color, Style, StyleChange, StyleMark, StyledText};

fn cs(s: &str) -> Vec<char> {
    s.chars().collect()
}

fn render(events: Vec<MdEvent>, preserve: bool) -> String {
    let mut out = StyledText::new();
    render_events(&events, preserve, &mut out);
    out.plain_text()
}

fn render_md(md: &str, preserve: bool) -> String {
    let mut out = StyledText::new();
    render_markdown(md, preserve, &mut out);
    out.plain_text()
}

fn heading(level: u32, text: &str) -> Vec<MdEvent> {
    vec![
        MdEvent::Start(MdTag::Heading(level)),
        MdEvent::Text(cs(text)),
        MdEvent::End(TagKind::Heading),
    ]
}

#[test]
fn heading_levels_one_and_two_are_underlined() {
    assert_eq!(render(heading(1, "Title"), false), "\nTitle\n=====\n\n");
    assert_eq!(render(heading(2, "Sub"), false), "\nSub\n---\n\n");
    assert_eq!(render(heading(1, "héllo"), false), "\nhéllo\n=====\n\n");
}

#[test]
fn heading_levels_three_to_six_keep_their_marks() {
    assert_eq!(render(heading(3, "C"), false), "\n### C\n\n");
    assert_eq!(render(heading(4, "D"), false), "\n#### D\n\n");
    assert_eq!(render(heading(5, "E"), false), "\n##### E\n\n");
    assert_eq!(render(heading(6, "F"), false), "\n###### F\n\n");
    assert_eq!(render(heading(7, "G"), false), "\nG\n\n");
}

#[test]
fn heading_soft_break_becomes_space() {
    let events = vec![
        MdEvent::Start(MdTag::Heading(1)),
        MdEvent::Text(cs("a")),
        MdEvent::SoftBreak,
        MdEvent::Text(cs("b")),
        MdEvent::End(TagKind::Heading),
    ];
    assert_eq!(render(events, false), "\na b\n===\n\n");
}

#[test]
fn heading_styles_are_recorded() {
    let mut out = StyledText::new();
    render_events(&heading(1, "Title"), false, &mut out);
    let cyan = Style { fg: Some(Color::Cyan), bold: true, intense: true, ..Style::plain() };
    assert_eq!(
        out.marks(),
        &[
            StyleMark { at: 1, change: StyleChange::Apply(cyan) },
            StyleMark { at: 7, change: StyleChange::Reset },
        ]
    );
}

#[test]
fn whole_document_heading_and_paragraph() {
    assert_eq!(render_md("# Title\n\nParagraph\n", false), "\nTitle\n=====\n\nParagraph\n\n");
}

#[test]
fn fenced_code_block_with_and_without_fences() {
    let md = "```rust extra\nfn main() {}\n```\n";
    assert_eq!(render_md(md, true), "\n```rust\nfn main() {}\n```\n\n");
    assert_eq!(render_md(md, false), "\n[rust]\n    fn main() {}\n\n");
}

#[test]
fn indented_code_block_has_no_label() {
    let events = vec![
        MdEvent::Start(MdTag::CodeBlock(None)),
        MdEvent::Text(cs("a\r\nb\n\nc")),
        MdEvent::End(TagKind::CodeBlock),
    ];
    assert_eq!(render(events, false), "\n    a\n    b\n    \n    c\n\n");
}

#[test]
fn code_block_with_empty_info_has_no_language() {
    let events = vec![
        MdEvent::Start(MdTag::CodeBlock(Some(cs("   ")))),
        MdEvent::Text(cs("x\n")),
        MdEvent::End(TagKind::CodeBlock),
    ];
    assert_eq!(render(events, true), "\n```\nx\n```\n\n");
}

#[test]
fn unordered_list_bullets_by_depth() {
    let md = "- a\n  - b\n    - c\n      - d\n";
    assert_eq!(render_md(md, false), "- a\n  * b\n    + c\n      + d\n\n\n\n");
}

#[test]
fn ordered_list_numbers_from_one() {
    assert_eq!(render_md("1. one\n2. two\n3. three\n", false), "1. one\n2. two\n3. three\n");
    assert_eq!(render_md("3. x\n4. y\n", false), "1. x\n2. y\n");
}

#[test]
fn ordered_list_nested_in_unordered() {
    let md = "- a\n  1. x\n  2. y\n";
    assert_eq!(render_md(md, false), "- a\n  1. x\n  2. y\n\n");
}

#[test]
fn task_list_checkboxes() {
    let out = render_md("- [x] done\n- [ ] todo\n", false);
    assert!(out.contains("\u{2611} "));
    assert!(out.contains("\u{2610} "));
    assert!(out.contains("done"));
    let events = vec![MdEvent::TaskListMarker(true), MdEvent::TaskListMarker(false)];
    assert_eq!(render(events, false), "\u{2611} \u{2610} ");
}

#[test]
fn link_shows_destination() {
    assert_eq!(render_md("[text](http://x.com)\n", false), "text (http://x.com)\n\n");
}

#[test]
fn link_without_destination_shows_text_only() {
    let events = vec![
        MdEvent::Start(MdTag::Link(Vec::new())),
        MdEvent::Text(cs("t")),
        MdEvent::End(TagKind::Link),
    ];
    assert_eq!(render(events, false), "t");
}

#[test]
fn image_shows_alt_and_location() {
    assert_eq!(
        render_md("![alt](img.png)\n", false),
        "\u{1f5bc}\u{fe0f}  [IMAGE: alt] (img.png)\n\n"
    );
}

#[test]
fn inline_code_keeps_backticks() {
    assert_eq!(render_md("a `x` b\n", false), "a `x` b\n\n");
}

#[test]
fn emphasis_keeps_text_and_styles_it() {
    let mut out = StyledText::new();
    let events = vec![
        MdEvent::Start(MdTag::Strong),
        MdEvent::Text(cs("b")),
        MdEvent::End(TagKind::Strong),
    ];
    render_events(&events, false, &mut out);
    assert_eq!(out.plain_text(), "b");
    let bold = Style { bold: true, ..Style::plain() };
    assert_eq!(out.marks()[0], StyleMark { at: 0, change: StyleChange::Apply(bold) });
}

#[test]
fn blockquote_lines_start_with_bar() {
    assert_eq!(render_md("> a\n> b\n", false), "\u{2502} a\n\u{2502} b\n\n");
}

#[test]
fn rule_is_sixty_box_lines() {
    let expected = format!("{}\n", "\u{2500}".repeat(60));
    assert_eq!(render_md("---\n", false), expected);
}

#[test]
fn table_cells_trimmed_and_padded() {
    let md = "| a | bb |\n|---|---|\n| 1 | 2222 |\n";
    assert_eq!(
        render_md(md, false),
        "| a   | bb   |\n| --- | ---- |\n| 1   | 2222 |\n\n"
    );
}

#[test]
fn table_cells_keep_inline_code() {
    let md = "| h |\n|---|\n| `c` |\n";
    assert_eq!(render_md(md, false), "| h   |\n| --- |\n| `c` |\n\n");
}

#[test]
fn table_short_rows_are_filled() {
    let events = vec![
        MdEvent::Start(MdTag::Table),
        MdEvent::Start(MdTag::TableRow),
        MdEvent::Start(MdTag::TableCell),
        MdEvent::Text(cs("  wide cell ")),
        MdEvent::End(TagKind::TableCell),
        MdEvent::Start(MdTag::TableCell),
        MdEvent::Text(cs("x")),
        MdEvent::End(TagKind::TableCell),
        MdEvent::End(TagKind::TableRow),
        MdEvent::Start(MdTag::TableRow),
        MdEvent::Start(MdTag::TableCell),
        MdEvent::Text(cs("y")),
        MdEvent::End(TagKind::TableCell),
        MdEvent::End(TagKind::TableRow),
        MdEvent::End(TagKind::Table),
    ];
    assert_eq!(render(events, false), "| wide cell | x   |\n| y         |     |\n\n");
}

#[test]
fn empty_table_writes_only_line_feed() {
    let events = vec![MdEvent::Start(MdTag::Table), MdEvent::End(TagKind::Table)];
    assert_eq!(render(events, false), "\n");
}

#[test]
fn footnote_reference_in_brackets() {
    let out = render_md("Hi[^1]\n\n[^1]: note\n", false);
    assert!(out.starts_with("Hi[^1]"));
    assert!(out.contains("note"));
}

#[test]
fn html_block_is_sanitized() {
    let out = render_md("<div>\u{1b}[31mhi\u{7}</div>\n", false);
    assert!(out.contains("<div>hi</div>"));
    assert!(!out.contains('\u{1b}'));
    let events = vec![MdEvent::Html(cs("a\u{1b}]0;t\u{7}b\u{1b}"))];
    assert_eq!(render(events, false), "ab");
}

#[test]
fn hard_and_soft_breaks() {
    let events = vec![
        MdEvent::Text(cs("a")),
        MdEvent::SoftBreak,
        MdEvent::Text(cs("b")),
        MdEvent::HardBreak,
        MdEvent::Text(cs("c")),
    ];
    assert_eq!(render(events, false), "a b\nc");
}

#[test]
fn paragraph_in_list_ends_with_single_line_feed() {
    let events = vec![
        MdEvent::Start(MdTag::List(None)),
        MdEvent::Start(MdTag::Item),
        MdEvent::Start(MdTag::Paragraph),
        MdEvent::Text(cs("p")),
        MdEvent::End(TagKind::Paragraph),
        MdEvent::End(TagKind::Item),
        MdEvent::End(TagKind::List),
    ];
    assert_eq!(render(events, false), "- p\n\n");
}

#[test]
fn rendering_appends_to_existing_output() {
    let mut out = StyledText::new();
    out.write_str("before|");
    render_markdown_to_writer("*x*\n", false, &mut out);
    assert_eq!(out.plain_text(), "before|x\n\n");
    assert_eq!(out.marks()[0].at, 7);
}

#[test]
fn math_and_inline_html_are_passed_over() {
    let events = vec![MdEvent::Math(cs("x^2")), MdEvent::InlineHtml(cs("<b>"))];
    assert_eq!(render(events, false), "");
}

#[test]
fn empty_ordered_items_are_numbered_from_one() {
    let mut events = vec![MdEvent::Start(MdTag::List(Some(5)))];
    for _ in 0..3 {
        events.push(MdEvent::Start(MdTag::Item));
        events.push(MdEvent::End(TagKind::Item));
    }
    events.push(MdEvent::End(TagKind::List));
    assert_eq!(render(events, false), "1. \n2. \n3. \n");
}

#[test]
fn empty_unordered_items_are_dashed() {
    let mut events = vec![MdEvent::Start(MdTag::List(None))];
    for _ in 0..2 {
        events.push(MdEvent::Start(MdTag::Item));
        events.push(MdEvent::End(TagKind::Item));
    }
    events.push(MdEvent::End(TagKind::List));
    assert_eq!(render(events, false), "- \n- \n");
}

#[test]
fn table_lines_have_equal_length() {
    let md = "| name | v |\n|---|---|\n| longer name | 12345678 |\n| x | |\n";
    let out = render_md(md, false);
    let lines: Vec<&str> = out.lines().filter(|l| !l.is_empty()).collect();
    assert_eq!(lines.len(), 4);
    let width = lines[0].chars().count();
    for l in &lines {
        assert_eq!(l.chars().count(), width);
    }
    assert_eq!(lines[1], "| ----------- | -------- |");
}

#[test]
fn style_marks_stay_within_text_in_order() {
    let md = "# T\n\n*a* **b** [l](u) `c`\n\n> q\n\n- [x] t\n\n---\n";
    let mut out = StyledText::new();
    render_markdown(md, false, &mut out);
    let len = out.text().len();
    let marks = out.marks();
    assert!(!marks.is_empty());
    for (i, m) in marks.iter().enumerate() {
        assert!(m.at <= len);
        if i > 0 {
            assert!(marks[i - 1].at <= m.at);
        }
    }
}

#[test]
fn table_cells_keep_bold_and_italic() {
    let md = "| **b** | *i* |\n|---|---|\n";
    let mut out = StyledText::new();
    render_markdown(md, false, &mut out);
    assert_eq!(out.plain_text(), "| b   | i   |\n| --- | --- |\n\n");
    let bold = Style { bold: true, ..Style::plain() };
    let italic = Style { italic: true, ..Style::plain() };
    assert_eq!(
        out.marks(),
        &[
            StyleMark { at: 2, change: StyleChange::Apply(bold) },
            StyleMark { at: 3, change: StyleChange::Reset },
            StyleMark { at: 8, change: StyleChange::Apply(italic) },
            StyleMark { at: 9, change: StyleChange::Reset },
        ]
    );
}

#[test]
fn table_cell_code_is_red() {
    let md = "| h |\n|---|\n| `c` |\n";
    let mut out = StyledText::new();
    render_markdown(md, false, &mut out);
    assert_eq!(out.plain_text(), "| h   |\n| --- |\n| `c` |\n\n");
    assert_eq!(
        out.marks(),
        &[
            StyleMark { at: 18, change: StyleChange::Apply(Style::fg(Color::Red)) },
            StyleMark { at: 21, change: StyleChange::Reset },
        ]
    );
}

#[test]
fn sibling_nested_ordered_lists_each_start_at_one() {
    let out = render_md("- a\n  1. b\n- c\n  1. d\n", false);
    assert!(out.contains("  1. b"));
    assert!(out.contains("  1. d"));
    assert!(!out.contains("2. d"));
}

#[test]
fn nested_ordered_list_numbers_its_own_items() {
    let events = vec![
        MdEvent::Start(MdTag::List(Some(1))),
        MdEvent::Start(MdTag::Item),
        MdEvent::Text(cs("a")),
        MdEvent::Start(MdTag::List(Some(1))),
        MdEvent::Start(MdTag::Item),
        MdEvent::Text(cs("b")),
        MdEvent::End(TagKind::Item),
        MdEvent::Start(MdTag::Item),
        MdEvent::Text(cs("c")),
        MdEvent::End(TagKind::Item),
        MdEvent::End(TagKind::List),
        MdEvent::End(TagKind::Item),
        MdEvent::Start(MdTag::Item),
        MdEvent::Text(cs("d")),
        MdEvent::End(TagKind::Item),
        MdEvent::End(TagKind::List),
    ];
    assert_eq!(render(events, false), "1. a\n  1. b\n  2. c\n\n2. d\n");
}

#[test]
fn html_only_events_render_their_stripped_pieces() {
    let events = vec![
        MdEvent::Start(MdTag::Other),
        MdEvent::Html(cs("<div>\n")),
        MdEvent::Html(cs("<p>\u{1b}[1mx\u{1c}</p>\n")),
        MdEvent::Html(cs("</div>\n")),
        MdEvent::End(TagKind::Other),
    ];
    let mut out = StyledText::new();
    render_events(&events, false, &mut out);
    assert_eq!(out.plain_text(), "<div>\n<p>x</p>\n</div>\n");
    assert!(out.marks().is_empty());
}

#[test]
fn html_only_document_renders_stripped_lines() {
    let out = render_md("<div>\n<p>\u{1b}[31mx</p>\n</div>\n", false);
    assert_eq!(out, "<div>\n<p>x</p>\n</div>\n");
}

#[test]
fn fences_setting_leaves_documents_without_code_blocks_alone() {
    let md = "# T\n\n- a\n  1. b\n\n| x | `y` |\n|---|---|\n\n> q *e*\n";
    let mut with = StyledText::new();
    render_markdown(md, true, &mut with);
    let mut without = StyledText::new();
    render_markdown(md, false, &mut without);
    assert_eq!(with.plain_text(), without.plain_text());
    assert_eq!(with.marks(), without.marks());
}
