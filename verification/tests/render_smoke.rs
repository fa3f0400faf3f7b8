use rustdown::render_markdown_to_writer;
use rustdown::style::StyledText;

fn as_string(w: &StyledText) -> String {
    w.plain_text()
}

#[test]
fn heading_renders_with_underline() {
    let md = "# Title\n\nParagraph\n";
    let mut w = StyledText::new();
    render_markdown_to_writer(md, false, &mut w);

    let s = as_string(&w);
    assert!(s.contains("Title\n"));
    assert!(s.contains("=====\n"));
}

#[test]
fn preserve_fences_keeps_backticks() {
    let md = "```rust\nfn main() {}\n```\n";

    let mut w = StyledText::new();
    render_markdown_to_writer(md, true, &mut w);

    let s = as_string(&w);
    assert!(s.contains("```rust\n"));
    assert!(s.contains("fn main() {}\n"));
    assert!(s.contains("```\n"));
}
