//! The renderer: a state machine that reads Markdown events one by one and
//! writes styled terminal text.

pub mod fences;
pub mod laws;
pub mod table;

use vstd::prelude::*;
use crate::events::{MdEvent, MdTag, SpecEvent, SpecTag, TagKind};
use crate::sanitize::stripped;
use crate::style::{
    Color, Style, StyledText, StyledView, fg, fg_bold, fg_bold_intense, plain, push_styled,
    styled_chars,
};
use crate::text::{decimal, ends_with_white_space, first_word, lines, prefixed_lines, repeat};
use crate::render::table::{cells_view, render_table, rows_view, table_view};
use crate::text::{first_word_of, ends_with_whitespace};

verus! {

/// The state of the renderer between two events.
#[verifier::ext_equal]
pub struct RenderState {
    /// The output so far.
    pub out: StyledView,
    /// The level of the heading being collected, if any.
    pub heading_level: Option<u32>,
    /// The text of the heading being collected.
    pub heading_buf: Seq<char>,
    /// How many lists are open.
    pub list_depth: usize,
    /// For each open list, how many of its items have been counted.
    pub list_item_number: Seq<usize>,
    /// For each open list, whether it is ordered.
    pub current_list_is_ordered: Seq<bool>,
    /// Whether the output so far ends in white space or a line break.
    pub last_was_space: bool,
    pub in_emphasis: bool,
    pub in_strong: bool,
    pub in_strikethrough: bool,
    pub in_code_block: bool,
    pub in_blockquote: bool,
    pub in_link: bool,
    /// The destination of the open link.
    pub link_url: Seq<char>,
    pub in_image: bool,
    /// The alternative text of the open image.
    pub image_alt: Seq<char>,
    /// The destination of the open image.
    pub image_url: Seq<char>,
    /// The text of the open code block.
    pub code_buf: Seq<char>,
    /// The language of the open code block.
    pub code_lang: Option<Seq<char>>,
    /// Whether code blocks are shown with their fences.
    pub preserve_code_fences: bool,
    pub in_table: bool,
    pub in_table_head: bool,
    /// The characters of the open table cell, each with its style.
    pub current_cell: Seq<(Style, char)>,
    /// The cells of the open table row.
    pub current_row: Seq<Seq<(Style, char)>>,
    /// The rows of the open table.
    pub table_rows: Seq<Seq<Seq<(Style, char)>>>,
    /// How many of the table's rows belong to its head.
    pub table_header_count: usize,
}

/// The bullet of an unordered list item at nesting depth `depth` (1 for a
/// top-level list): `-`, then `*`, then `+` for the third level and beyond.
pub open spec fn bullet(depth: usize) -> char {
    if depth <= 1 {
        '-'
    } else if depth == 2 {
        '*'
    } else {
        '+'
    }
}

/// The indentation of a list item at nesting depth `depth`: two spaces per
/// level below the top.
pub open spec fn indent(depth: usize) -> Seq<char> {
    repeat(' ', 2 * (if depth > 0 { depth - 1 } else { 0 }) as nat)
}

/// A heading of level `level` with text `text`, written after `out`: levels
/// 1 and 2 are underlined with `=` and `-` as long as the text, levels 3 to 6
/// keep their `#` marks, each level in its own colour.
pub open spec fn heading_text(out: StyledView, level: u32, text: Seq<char>) -> StyledView {
    let o = out.write(seq!['\n']);
    let o = if level == 1 {
        o.styled(fg_bold_intense(Color::Cyan), text.push('\n')).write(
            repeat('=', text.len()).push('\n'),
        )
    } else if level == 2 {
        o.styled(fg_bold_intense(Color::Blue), text.push('\n')).write(
            repeat('-', text.len()).push('\n'),
        )
    } else if level == 3 {
        o.styled(fg_bold(Color::Green), "### "@ + text.push('\n'))
    } else if level == 4 {
        o.styled(fg_bold(Color::Yellow), "#### "@ + text.push('\n'))
    } else if level == 5 {
        o.styled(fg(Color::Magenta), "##### "@ + text.push('\n'))
    } else if level == 6 {
        o.styled(fg(Color::White), "###### "@ + text.push('\n'))
    } else {
        o.write(text.push('\n'))
    };
    o.write(seq!['\n'])
}

/// The marker that opens an image's alternative text.
pub open spec fn image_marker() -> Seq<char> {
    "\u{1f5bc}\u{fe0f}  [IMAGE: "@
}

/// The language label of a code block with info string `info`: its first
/// word, if it has one.
pub open spec fn code_language(info: Option<Seq<char>>) -> Option<Seq<char>> {
    match info {
        Some(i) => if first_word(i).len() == 0 {
            None
        } else {
            Some(first_word(i))
        },
        None => None,
    }
}

/// A code block with text `code` and language `lang`, written after `out`:
/// with `fences`, between lines of three backticks (the first one followed by
/// the language), its lines as they are; without, a `[lang]` label when there
/// is a language, and its lines indented by four spaces.
pub open spec fn code_block_text(
    out: StyledView,
    code: Seq<char>,
    lang: Option<Seq<char>>,
    fences: bool,
) -> StyledView {
    let o = out.write(seq!['\n']);
    let st = fg_bold(Color::Green);
    let o = if fences {
        let l = match lang {
            Some(l) => l,
            None => Seq::empty(),
        };
        o.styled(st, "```"@ + l.push('\n')).write(prefixed_lines(lines(code), Seq::empty())).styled(
            st,
            "```\n"@,
        )
    } else {
        let o = match lang {
            Some(l) => o.styled(st, seq!['['] + l + "]\n"@),
            None => o,
        };
        o.write(prefixed_lines(lines(code), repeat(' ', 4)))
    };
    o.write(seq!['\n'])
}

/// The style of running text: bold, italic and struck through as the open
/// elements say, blue and underlined in a link, yellow in a block quote.
pub open spec fn text_style(s: RenderState) -> Style {
    Style {
        fg: if s.in_blockquote {
            Some(Color::Yellow)
        } else if s.in_link {
            Some(Color::Blue)
        } else {
            None
        },
        bold: s.in_strong,
        intense: false,
        italic: s.in_emphasis,
        underline: s.in_link,
        strikethrough: s.in_strikethrough,
    }
}

impl RenderState {
    /// The state before the first event, writing after `out`.
    pub open spec fn initial(out: StyledView, preserve_code_fences: bool) -> RenderState {
        RenderState {
            out,
            heading_level: None,
            heading_buf: Seq::empty(),
            list_depth: 0,
            list_item_number: Seq::empty(),
            current_list_is_ordered: Seq::empty(),
            last_was_space: true,
            in_emphasis: false,
            in_strong: false,
            in_strikethrough: false,
            in_code_block: false,
            in_blockquote: false,
            in_link: false,
            link_url: Seq::empty(),
            in_image: false,
            image_alt: Seq::empty(),
            image_url: Seq::empty(),
            code_buf: Seq::empty(),
            code_lang: None,
            preserve_code_fences,
            in_table: false,
            in_table_head: false,
            current_cell: Seq::empty(),
            current_row: Seq::empty(),
            table_rows: Seq::empty(),
            table_header_count: 0,
        }
    }

    /// Whether the list counters can grow by one more without overflow.
    pub open spec fn has_room(self) -> bool {
        &&& self.list_depth < usize::MAX
        &&& forall|i: int|
            0 <= i < self.list_item_number.len() ==> #[trigger] self.list_item_number[i]
                < usize::MAX
    }

    /// `s` written to the output.
    pub open spec fn write(self, s: Seq<char>) -> RenderState {
        RenderState { out: self.out.write(s), ..self }
    }

    /// A line feed unless the output already ends in white space.
    pub open spec fn ensure_newline(self) -> RenderState {
        if !self.last_was_space {
            RenderState { last_was_space: true, ..self.write(seq!['\n']) }
        } else {
            self
        }
    }

    pub open spec fn set_emphasis(self, on: bool) -> RenderState {
        RenderState { in_emphasis: on, ..self }
    }

    pub open spec fn set_strong(self, on: bool) -> RenderState {
        RenderState { in_strong: on, ..self }
    }

    pub open spec fn set_strikethrough(self, on: bool) -> RenderState {
        RenderState { in_strikethrough: on, ..self }
    }

    pub open spec fn start_heading(self, level: u32) -> RenderState {
        RenderState { heading_level: Some(level), heading_buf: Seq::empty(), ..self }
    }

    pub open spec fn push_heading_softbreak(self) -> RenderState {
        RenderState { heading_buf: self.heading_buf.push(' '), ..self }
    }

    /// A heading of level `level` with text `text`.
    pub open spec fn write_heading(self, level: u32, text: Seq<char>) -> RenderState {
        RenderState { out: heading_text(self.out, level, text), ..self }
    }

    pub open spec fn end_heading(self) -> RenderState {
        let s = match self.heading_level {
            Some(level) => self.write_heading(level, self.heading_buf),
            None => self,
        };
        RenderState { heading_level: None, heading_buf: Seq::empty(), ..s }
    }

    /// Opens a list, ordered when it has a `start` number, with a counter of
    /// its own that has counted no item yet.
    pub open spec fn start_list(self, start: Option<u64>) -> RenderState {
        let s = self.ensure_newline();
        let ordered = start is Some;
        RenderState {
            current_list_is_ordered: s.current_list_is_ordered.push(ordered),
            list_item_number: s.list_item_number.push(0),
            list_depth: (s.list_depth + 1) as usize,
            ..s
        }
    }

    /// Closes the innermost list, dropping its counter.
    pub open spec fn end_list(self) -> RenderState {
        let ordered = if self.current_list_is_ordered.len() > 0 {
            self.current_list_is_ordered.drop_last()
        } else {
            self.current_list_is_ordered
        };
        let numbers = if self.list_item_number.len() > 0 {
            self.list_item_number.drop_last()
        } else {
            self.list_item_number
        };
        RenderState {
            list_depth: if self.list_depth > 0 {
                (self.list_depth - 1) as usize
            } else {
                0
            },
            current_list_is_ordered: ordered,
            list_item_number: numbers,
            last_was_space: true,
            ..self
        }
    }

    pub open spec fn end_item(self) -> RenderState {
        RenderState { last_was_space: true, ..self.write(seq!['\n']) }
    }

    pub open spec fn start_link(self, url: Seq<char>) -> RenderState {
        RenderState { in_link: true, link_url: url, ..self }
    }

    pub open spec fn end_link(self) -> RenderState {
        let out = if self.link_url.len() > 0 {
            self.out.styled(fg(Color::Cyan), " ("@ + self.link_url.push(')'))
        } else {
            self.out
        };
        RenderState { out, in_link: false, link_url: Seq::empty(), last_was_space: false, ..self }
    }

    pub open spec fn start_image(self, url: Seq<char>) -> RenderState {
        RenderState { in_image: true, image_url: url, image_alt: Seq::empty(), ..self }
    }

    /// An image: its alternative text after a picture marker, then its
    /// location in parentheses.
    pub open spec fn render_image(self, url: Seq<char>, alt: Seq<char>) -> RenderState {
        let out = self.out.styled(fg(Color::Magenta), image_marker() + alt.push(']')).styled(
            fg(Color::Cyan),
            " ("@ + url.push(')'),
        );
        RenderState { out, last_was_space: false, ..self }
    }

    pub open spec fn end_image(self) -> RenderState {
        RenderState {
            in_image: false,
            image_url: Seq::empty(),
            image_alt: Seq::empty(),
            last_was_space: false,
            ..self.render_image(self.image_url, self.image_alt)
        }
    }

    pub open spec fn start_code_block(self, info: Option<Seq<char>>) -> RenderState {
        RenderState {
            in_code_block: true,
            code_buf: Seq::empty(),
            code_lang: code_language(info),
            ..self
        }.ensure_newline()
    }

    /// A code block with text `code` and language `lang`.
    pub open spec fn render_code_block(self, code: Seq<char>, lang: Option<Seq<char>>) -> RenderState {
        RenderState {
            out: code_block_text(self.out, code, lang, self.preserve_code_fences),
            last_was_space: true,
            ..self
        }
    }

    pub open spec fn end_code_block(self) -> RenderState {
        RenderState {
            in_code_block: false,
            ..RenderState { code_buf: Seq::empty(), code_lang: None, ..self }.render_code_block(
                self.code_buf,
                self.code_lang,
            )
        }
    }

    /// The bar that starts a block quote line, on a line of its own.
    pub open spec fn blockquote_bar(self) -> RenderState {
        let o = self.out.apply(fg(Color::Yellow));
        let o = if !self.last_was_space {
            o.write(seq!['\n'])
        } else {
            o
        };
        RenderState { out: o.write("\u{2502} "@).reset(), last_was_space: false, ..self }
    }

    pub open spec fn start_blockquote(self) -> RenderState {
        RenderState { in_blockquote: true, ..self }.blockquote_bar()
    }

    pub open spec fn end_blockquote(self) -> RenderState {
        RenderState { in_blockquote: false, ..self }
    }

    pub open spec fn start_table(self) -> RenderState {
        RenderState { in_table: true, in_table_head: false, ..self }.ensure_newline()
    }

    pub open spec fn start_table_head(self) -> RenderState {
        RenderState { in_table_head: true, current_row: Seq::empty(), ..self }
    }

    pub open spec fn start_table_row(self) -> RenderState {
        if !self.in_table_head {
            RenderState { current_row: Seq::empty(), ..self }
        } else {
            self
        }
    }

    pub open spec fn start_table_cell(self) -> RenderState {
        RenderState { current_cell: Seq::empty(), ..self }
    }

    pub open spec fn end_table_cell(self) -> RenderState {
        RenderState {
            current_row: self.current_row.push(self.current_cell),
            current_cell: Seq::empty(),
            ..self
        }
    }

    pub open spec fn end_table_row(self) -> RenderState {
        RenderState {
            table_rows: self.table_rows.push(self.current_row),
            current_row: Seq::empty(),
            last_was_space: true,
            ..self
        }
    }

    pub open spec fn end_table_head(self) -> RenderState {
        let s = if self.current_row.len() > 0 {
            RenderState {
                table_rows: self.table_rows.push(self.current_row),
                current_row: Seq::empty(),
                ..self
            }
        } else {
            self
        };
        RenderState {
            table_header_count: s.table_rows.len() as usize,
            in_table_head: false,
            ..s
        }
    }

    pub open spec fn end_table(self) -> RenderState {
        RenderState {
            out: table_view(self.out, self.table_rows, self.table_header_count).write(seq!['\n']),
            table_rows: Seq::empty(),
            table_header_count: 0,
            in_table: false,
            last_was_space: true,
            ..self
        }
    }

    /// Running text: collected in the open heading or image, added to the
    /// open table cell in the text style, or else written in the text style.
    pub open spec fn write_text(self, text: Seq<char>) -> RenderState {
        if self.heading_level is Some {
            RenderState { heading_buf: self.heading_buf + text, ..self }
        } else if self.in_image {
            RenderState { image_alt: self.image_alt + text, ..self }
        } else if self.in_table {
            RenderState { current_cell: self.current_cell + styled_chars(text_style(self), text), ..self }
        } else {
            RenderState {
                out: self.out.styled(text_style(self), text),
                last_was_space: ends_with_white_space(text),
                ..self
            }
        }
    }

    pub open spec fn write_event_text(self, text: Seq<char>) -> RenderState {
        if self.in_code_block {
            RenderState { code_buf: self.code_buf + text, ..self }
        } else if self.in_table {
            RenderState { current_cell: self.current_cell + styled_chars(text_style(self), text), ..self }
        } else {
            self.write_text(text)
        }
    }

    pub open spec fn inline_code(self, code: Seq<char>) -> RenderState {
        RenderState {
            out: self.out.styled(fg(Color::Red), seq!['`'] + code.push('`')),
            last_was_space: false,
            ..self
        }
    }

    pub open spec fn write_event_code(self, code: Seq<char>) -> RenderState {
        if self.in_table {
            RenderState {
                current_cell: self.current_cell + styled_chars(fg(Color::Red), seq!['`'] + code.push('`')),
                ..self
            }
        } else if !self.in_code_block {
            self.inline_code(code)
        } else {
            self
        }
    }

    pub open spec fn soft_break(self) -> RenderState {
        if self.heading_level is Some {
            self.push_heading_softbreak()
        } else if self.in_blockquote {
            self.blockquote_bar()
        } else {
            RenderState { last_was_space: true, ..self.write(seq![' ']) }
        }
    }

    pub open spec fn hard_break(self) -> RenderState {
        RenderState { last_was_space: true, ..self.write(seq!['\n']) }
    }

    pub open spec fn end_paragraph(self) -> RenderState {
        let s = if self.list_depth == 0 {
            self.write(seq!['\n', '\n'])
        } else {
            self.write(seq!['\n'])
        };
        RenderState { last_was_space: true, ..s }
    }

    /// Whether the innermost open list is ordered.
    pub open spec fn item_is_ordered(self) -> bool {
        let d1 = if self.list_depth > 0 { self.list_depth - 1 } else { 0int };
        if d1 < self.current_list_is_ordered.len() {
            self.current_list_is_ordered[d1]
        } else {
            false
        }
    }

    /// The list item numbers once the innermost ordered list has counted one
    /// more item.
    pub open spec fn bumped_numbers(self) -> Seq<usize> {
        let d = self.list_depth;
        if d > self.list_item_number.len() {
            self.list_item_number.push(1)
        } else if d > 0 {
            self.list_item_number.update(d - 1, (self.list_item_number[d - 1] + 1) as usize)
        } else {
            self.list_item_number
        }
    }

    /// The number of the current item of the innermost ordered list.
    pub open spec fn item_number(self) -> usize {
        let d1 = if self.list_depth > 0 { self.list_depth - 1 } else { 0int };
        if d1 < self.list_item_number.len() {
            self.list_item_number[d1]
        } else {
            1
        }
    }

    /// A line feed unless the output already ends in white space (the flag
    /// itself is left as it is).
    pub open spec fn break_line(self) -> RenderState {
        if !self.last_was_space {
            self.write(seq!['\n'])
        } else {
            self
        }
    }

    /// The marker of a list item on a line of its own, indented by its depth:
    /// its number and a dot in an ordered list, its bullet otherwise.
    pub open spec fn list_item_start(self) -> RenderState {
        let s = self.break_line();
        if self.item_is_ordered() {
            let s = RenderState { list_item_number: s.bumped_numbers(), ..s };
            RenderState {
                last_was_space: false,
                ..s.write(indent(s.list_depth) + decimal(s.item_number() as nat) + ". "@)
            }
        } else {
            RenderState {
                last_was_space: false,
                ..s.write(indent(s.list_depth) + seq![bullet(s.list_depth), ' '])
            }
        }
    }

    pub open spec fn rule(self) -> RenderState {
        RenderState {
            out: self.out.styled(fg(Color::White), repeat('\u{2500}', 60).push('\n')),
            last_was_space: true,
            ..self
        }
    }

    /// A task list checkbox, ticked when `checked`.
    pub open spec fn task_marker(self, checked: bool) -> RenderState {
        let st = if checked {
            fg(Color::Green)
        } else {
            fg(Color::White)
        };
        let mark = if checked {
            '\u{2611}'
        } else {
            '\u{2610}'
        };
        RenderState {
            out: self.out.styled(st, indent(self.list_depth) + seq![mark, ' ']),
            ..self
        }
    }

    /// Raw HTML, with terminal escapes stripped.
    pub open spec fn html(self, html: Seq<char>) -> RenderState {
        self.write(stripped(html))
    }

    pub open spec fn footnote_reference(self, name: Seq<char>) -> RenderState {
        RenderState {
            out: self.out.styled(fg_bold(Color::Blue), "[^"@ + name.push(']')),
            ..self
        }
    }

    /// The state after the start of an element.
    pub open spec fn start_tag(self, t: SpecTag) -> RenderState {
        match t {
            SpecTag::Paragraph => self,
            SpecTag::Heading(level) => self.start_heading(level),
            SpecTag::List(start) => self.start_list(start),
            SpecTag::Item => self.list_item_start(),
            SpecTag::Emphasis => self.set_emphasis(true),
            SpecTag::Strong => self.set_strong(true),
            SpecTag::Strikethrough => self.set_strikethrough(true),
            SpecTag::Link(url) => self.start_link(url),
            SpecTag::Image(url) => self.start_image(url),
            SpecTag::CodeBlock(info) => self.start_code_block(info),
            SpecTag::BlockQuote => self.start_blockquote(),
            SpecTag::Table => self.start_table(),
            SpecTag::TableHead => self.start_table_head(),
            SpecTag::TableRow => self.start_table_row(),
            SpecTag::TableCell => self.start_table_cell(),
            SpecTag::Other => self,
        }
    }

    /// The state after the end of an element.
    pub open spec fn end_tag(self, k: TagKind) -> RenderState {
        match k {
            TagKind::TableCell => self.end_table_cell(),
            TagKind::TableRow => self.end_table_row(),
            TagKind::TableHead => self.end_table_head(),
            TagKind::Table => self.end_table(),
            TagKind::Paragraph => self.end_paragraph(),
            TagKind::Heading => self.end_heading(),
            TagKind::List => self.end_list(),
            TagKind::Item => self.end_item(),
            TagKind::Emphasis => self.set_emphasis(false),
            TagKind::Strong => self.set_strong(false),
            TagKind::Strikethrough => self.set_strikethrough(false),
            TagKind::Link => self.end_link(),
            TagKind::Image => self.end_image(),
            TagKind::CodeBlock => self.end_code_block(),
            TagKind::BlockQuote => self.end_blockquote(),
            TagKind::Other => self,
        }
    }

    /// The state after event `e`.
    pub open spec fn step(self, e: SpecEvent) -> RenderState {
        match e {
            SpecEvent::Start(t) => self.start_tag(t),
            SpecEvent::End(k) => self.end_tag(k),
            SpecEvent::Text(t) => self.write_event_text(t),
            SpecEvent::Code(c) => self.write_event_code(c),
            SpecEvent::Html(h) => self.html(h),
            SpecEvent::SoftBreak => self.soft_break(),
            SpecEvent::HardBreak => self.hard_break(),
            SpecEvent::Rule => self.rule(),
            SpecEvent::FootnoteReference(name) => self.footnote_reference(name),
            SpecEvent::TaskListMarker(checked) => self.task_marker(checked),
            SpecEvent::Math(_) => self,
            SpecEvent::InlineHtml(_) => self,
        }
    }

    /// The state after the events `events`, one after another.
    pub open spec fn run(self, events: Seq<SpecEvent>) -> RenderState
        decreases events.len(),
    {
        if events.len() == 0 {
            self
        } else {
            self.step(events[0]).run(events.drop_first())
        }
    }
}

/// A heading's text written after `out`.
pub fn write_heading(out: &mut StyledText, level: u32, text: &[char])
    ensures
        final(out)@ == heading_text(old(out)@, level, text@),
{
    out.write_char('\n');
    if level == 1 {
        out.set_style(Style::fg_bold_intense(Color::Cyan));
        out.write_chars(text);
        out.write_char('\n');
        out.reset();
        out.write_repeat('=', text.len());
        out.write_char('\n');
    } else if level == 2 {
        out.set_style(Style::fg_bold_intense(Color::Blue));
        out.write_chars(text);
        out.write_char('\n');
        out.reset();
        out.write_repeat('-', text.len());
        out.write_char('\n');
    } else if level == 3 {
        out.set_style(Style::fg_bold(Color::Green));
        out.write_str("### ");
        out.write_chars(text);
        out.write_char('\n');
        out.reset();
    } else if level == 4 {
        out.set_style(Style::fg_bold(Color::Yellow));
        out.write_str("#### ");
        out.write_chars(text);
        out.write_char('\n');
        out.reset();
    } else if level == 5 {
        out.set_style(Style::fg(Color::Magenta));
        out.write_str("##### ");
        out.write_chars(text);
        out.write_char('\n');
        out.reset();
    } else if level == 6 {
        out.set_style(Style::fg(Color::White));
        out.write_str("###### ");
        out.write_chars(text);
        out.write_char('\n');
        out.reset();
    } else {
        out.write_chars(text);
        out.write_char('\n');
    }
    out.write_char('\n');
}

/// What an optional text holds.
pub open spec fn opt_view(o: Option<Vec<char>>) -> Option<Seq<char>> {
    match o {
        Some(v) => Some(v@),
        None => None,
    }
}

/// A code block written after `out`.
pub fn write_code_block(out: &mut StyledText, code: &[char], lang: &Option<Vec<char>>, fences: bool)
    ensures
        final(out)@ == code_block_text(old(out)@, code@, opt_view(*lang), fences),
{
    out.write_char('\n');
    let st = Style::fg_bold(Color::Green);
    if fences {
        out.set_style(st);
        out.write_str("```");
        match lang {
            Some(l) => out.write_chars(l.as_slice()),
            None => {},
        }
        out.write_char('\n');
        out.reset();
        let no_prefix: Vec<char> = Vec::new();
        out.write_prefixed_lines(code, no_prefix.as_slice());
        out.set_style(st);
        out.write_str("```\n");
        out.reset();
    } else {
        match lang {
            Some(l) => {
                out.set_style(st);
                out.write_char('[');
                out.write_chars(l.as_slice());
                out.write_str("]\n");
                out.reset();
            },
            None => {},
        }
        let mut prefix: Vec<char> = Vec::new();
        crate::text::push_repeat(&mut prefix, ' ', 4);
        out.write_prefixed_lines(code, prefix.as_slice());
    }
    out.write_char('\n');
}

/// The renderer: its state between events, and the output so far.
pub struct MarkdownRenderer {
    out: StyledText,
    heading_level: Option<u32>,
    heading_buf: Vec<char>,
    list_depth: usize,
    list_item_number: Vec<usize>,
    current_list_is_ordered: Vec<bool>,
    last_was_space: bool,
    in_emphasis: bool,
    in_strong: bool,
    in_strikethrough: bool,
    in_code_block: bool,
    in_blockquote: bool,
    in_link: bool,
    link_url: Vec<char>,
    in_image: bool,
    image_alt: Vec<char>,
    image_url: Vec<char>,
    code_buf: Vec<char>,
    code_lang: Option<Vec<char>>,
    preserve_code_fences: bool,
    in_table: bool,
    in_table_head: bool,
    current_cell: Vec<(Style, char)>,
    current_row: Vec<Vec<(Style, char)>>,
    table_rows: Vec<Vec<Vec<(Style, char)>>>,
    table_header_count: usize,
}

impl View for MarkdownRenderer {
    type V = RenderState;

    closed spec fn view(&self) -> RenderState {
        RenderState {
            out: self.out@,
            heading_level: self.heading_level,
            heading_buf: self.heading_buf@,
            list_depth: self.list_depth,
            list_item_number: self.list_item_number@,
            current_list_is_ordered: self.current_list_is_ordered@,
            last_was_space: self.last_was_space,
            in_emphasis: self.in_emphasis,
            in_strong: self.in_strong,
            in_strikethrough: self.in_strikethrough,
            in_code_block: self.in_code_block,
            in_blockquote: self.in_blockquote,
            in_link: self.in_link,
            link_url: self.link_url@,
            in_image: self.in_image,
            image_alt: self.image_alt@,
            image_url: self.image_url@,
            code_buf: self.code_buf@,
            code_lang: opt_view(self.code_lang),
            preserve_code_fences: self.preserve_code_fences,
            in_table: self.in_table,
            in_table_head: self.in_table_head,
            current_cell: self.current_cell@,
            current_row: cells_view(self.current_row@),
            table_rows: rows_view(self.table_rows@),
            table_header_count: self.table_header_count,
        }
    }
}

impl MarkdownRenderer {
    /// A renderer before the first event, writing after `out`.
    pub fn new(out: StyledText, preserve_code_fences: bool) -> (r: MarkdownRenderer)
        ensures
            r@ == RenderState::initial(out@, preserve_code_fences),
    {
        let r = MarkdownRenderer {
            out,
            heading_level: None,
            heading_buf: Vec::new(),
            list_depth: 0,
            list_item_number: Vec::new(),
            current_list_is_ordered: Vec::new(),
            last_was_space: true,
            in_emphasis: false,
            in_strong: false,
            in_strikethrough: false,
            in_code_block: false,
            in_blockquote: false,
            in_link: false,
            link_url: Vec::new(),
            in_image: false,
            image_alt: Vec::new(),
            image_url: Vec::new(),
            code_buf: Vec::new(),
            code_lang: None,
            preserve_code_fences,
            in_table: false,
            in_table_head: false,
            current_cell: Vec::new(),
            current_row: Vec::new(),
            table_rows: Vec::new(),
            table_header_count: 0,
        };
        assert(r@ =~= RenderState::initial(out@, preserve_code_fences));
        r
    }

    /// The output, once the events are over.
    pub fn into_output(self) -> (out: StyledText)
        ensures
            out@ == self@.out,
    {
        self.out
    }

    /// Starts a new line unless the output already ends in white space.
    pub fn ensure_newline(&mut self)
        ensures
            final(self)@ == old(self)@.ensure_newline(),
    {
        if !self.last_was_space {
            self.out.write_char('\n');
            self.last_was_space = true;
        }
    }

    /// Opens or closes emphasis.
    pub fn set_emphasis(&mut self, on: bool)
        ensures
            final(self)@ == old(self)@.set_emphasis(on),
    {
        self.in_emphasis = on;
    }

    /// Opens or closes strong emphasis.
    pub fn set_strong(&mut self, on: bool)
        ensures
            final(self)@ == old(self)@.set_strong(on),
    {
        self.in_strong = on;
    }

    /// Opens or closes strikethrough.
    pub fn set_strikethrough(&mut self, on: bool)
        ensures
            final(self)@ == old(self)@.set_strikethrough(on),
    {
        self.in_strikethrough = on;
    }

    /// Starts collecting a heading of level `level`.
    pub fn start_heading(&mut self, level: u32)
        ensures
            final(self)@ == old(self)@.start_heading(level),
    {
        self.heading_level = Some(level);
        self.heading_buf = Vec::new();
    }

    /// A line break inside a heading: a space.
    pub fn push_heading_softbreak(&mut self)
        ensures
            final(self)@ == old(self)@.push_heading_softbreak(),
    {
        self.heading_buf.push(' ');
    }

    /// Writes the collected heading.
    pub fn end_heading(&mut self)
        ensures
            final(self)@ == old(self)@.end_heading(),
    {
        let mut text: Vec<char> = Vec::new();
        std::mem::swap(&mut text, &mut self.heading_buf);
        if let Some(level) = self.heading_level {
            self.render_heading(level, text.as_slice());
        }
        self.heading_level = None;
    }

    /// Writes a heading of level `level` with text `text`.
    pub fn render_heading(&mut self, level: u32, text: &[char])
        ensures
            final(self)@ == old(self)@.write_heading(level, text@),
    {
        write_heading(&mut self.out, level, text);
    }

    /// Opens a list, ordered when it has a `start` number.
    pub fn start_list(&mut self, start: Option<u64>)
        requires
            old(self)@.has_room(),
        ensures
            final(self)@ == old(self)@.start_list(start),
    {
        self.ensure_newline();
        let is_ordered = start.is_some();
        self.current_list_is_ordered.push(is_ordered);
        self.list_item_number.push(0);
        self.list_depth = self.list_depth + 1;
    }

    /// Closes the innermost list.
    pub fn end_list(&mut self)
        ensures
            final(self)@ == old(self)@.end_list(),
    {
        self.list_depth = self.list_depth.saturating_sub(1);
        self.current_list_is_ordered.pop();
        self.list_item_number.pop();
        self.last_was_space = true;
    }

    /// Ends a list item with a line feed.
    pub fn end_item(&mut self)
        ensures
            final(self)@ == old(self)@.end_item(),
    {
        self.out.write_char('\n');
        self.last_was_space = true;
    }

    /// Opens a link to `dest_url`.
    pub fn start_link(&mut self, dest_url: &[char])
        ensures
            final(self)@ == old(self)@.start_link(dest_url@),
    {
        self.in_link = true;
        let mut url: Vec<char> = Vec::new();
        crate::text::push_chars(&mut url, dest_url);
        self.link_url = url;
    }

    /// Closes the link, showing its destination in parentheses.
    pub fn end_link(&mut self)
        ensures
            final(self)@ == old(self)@.end_link(),
    {
        if self.link_url.len() > 0 {
            self.out.set_style(Style::fg(Color::Cyan));
            self.out.write_str(" (");
            self.out.write_chars(self.link_url.as_slice());
            self.out.write_char(')');
            self.out.reset();
        }
        self.in_link = false;
        self.link_url = Vec::new();
        self.last_was_space = false;
    }

    /// Opens an image at `dest_url`; its text becomes the alternative text.
    pub fn start_image(&mut self, dest_url: &[char])
        ensures
            final(self)@ == old(self)@.start_image(dest_url@),
    {
        self.in_image = true;
        let mut url: Vec<char> = Vec::new();
        crate::text::push_chars(&mut url, dest_url);
        self.image_url = url;
        self.image_alt = Vec::new();
    }

    /// Writes an image: a picture marker and its alternative text, then its
    /// location.
    pub fn render_image(&mut self, url: &[char], alt: &[char])
        ensures
            final(self)@ == old(self)@.render_image(url@, alt@),
    {
        self.out.set_style(Style::fg(Color::Magenta));
        self.out.write_str("\u{1f5bc}\u{fe0f}  [IMAGE: ");
        self.out.write_chars(alt);
        self.out.write_char(']');
        self.out.reset();
        self.out.set_style(Style::fg(Color::Cyan));
        self.out.write_str(" (");
        self.out.write_chars(url);
        self.out.write_char(')');
        self.out.reset();
        self.last_was_space = false;
    }

    /// Closes the image and writes it.
    pub fn end_image(&mut self)
        ensures
            final(self)@ == old(self)@.end_image(),
    {
        let mut url: Vec<char> = Vec::new();
        std::mem::swap(&mut url, &mut self.image_url);
        let mut alt: Vec<char> = Vec::new();
        std::mem::swap(&mut alt, &mut self.image_alt);
        self.render_image(url.as_slice(), alt.as_slice());
        self.in_image = false;
        self.image_url = Vec::new();
        self.image_alt = Vec::new();
        self.last_was_space = false;
    }

    /// Opens a code block with info string `info` (`None` when indented).
    pub fn start_code_block(&mut self, info: Option<&[char]>)
        ensures
            final(self)@ == old(self)@.start_code_block(
                match info {
                    Some(i) => Some(i@),
                    None => None,
                },
            ),
    {
        self.in_code_block = true;
        self.code_buf = Vec::new();
        self.code_lang = match info {
            Some(i) => {
                let word = first_word_of(i);
                if word.len() == 0 {
                    None
                } else {
                    Some(word)
                }
            },
            None => None,
        };
        self.ensure_newline();
    }

    /// Closes the code block and writes it.
    pub fn end_code_block(&mut self)
        ensures
            final(self)@ == old(self)@.end_code_block(),
    {
        let mut code: Vec<char> = Vec::new();
        std::mem::swap(&mut code, &mut self.code_buf);
        let mut lang: Option<Vec<char>> = None;
        std::mem::swap(&mut lang, &mut self.code_lang);
        self.render_code_block(code.as_slice(), &lang);
        self.in_code_block = false;
    }

    /// Writes a code block with text `code` and language `lang`.
    pub fn render_code_block(&mut self, code: &[char], lang: &Option<Vec<char>>)
        ensures
            final(self)@ == old(self)@.render_code_block(code@, opt_view(*lang)),
    {
        write_code_block(&mut self.out, code, lang, self.preserve_code_fences);
        self.last_was_space = true;
    }

    /// Writes the bar that starts a block quote line, on a line of its own.
    pub fn render_blockquote_start(&mut self)
        ensures
            final(self)@ == old(self)@.blockquote_bar(),
    {
        self.out.set_style(Style::fg(Color::Yellow));
        if !self.last_was_space {
            self.out.write_char('\n');
        }
        self.out.write_str("\u{2502} ");
        self.out.reset();
        self.last_was_space = false;
    }

    /// Opens a block quote.
    pub fn start_blockquote(&mut self)
        ensures
            final(self)@ == old(self)@.start_blockquote(),
    {
        self.in_blockquote = true;
        self.render_blockquote_start();
    }

    /// Closes the block quote.
    pub fn end_blockquote(&mut self)
        ensures
            final(self)@ == old(self)@.end_blockquote(),
    {
        self.in_blockquote = false;
    }

    /// Opens a table.
    pub fn start_table(&mut self)
        ensures
            final(self)@ == old(self)@.start_table(),
    {
        self.in_table = true;
        self.in_table_head = false;
        self.ensure_newline();
    }

    /// Opens the head of the table.
    pub fn start_table_head(&mut self)
        ensures
            final(self)@ == old(self)@.start_table_head(),
    {
        self.in_table_head = true;
        self.current_row = Vec::new();
        assert(cells_view(self.current_row@) =~= Seq::<Seq<(Style, char)>>::empty());
    }

    /// Opens a table row.
    pub fn start_table_row(&mut self)
        ensures
            final(self)@ == old(self)@.start_table_row(),
    {
        if !self.in_table_head {
            self.current_row = Vec::new();
            assert(cells_view(self.current_row@) =~= Seq::<Seq<(Style, char)>>::empty());
        }
    }

    /// Opens a table cell.
    pub fn start_table_cell(&mut self)
        ensures
            final(self)@ == old(self)@.start_table_cell(),
    {
        self.current_cell = Vec::new();
    }

    /// Closes the cell, adding it to the row.
    pub fn end_table_cell(&mut self)
        ensures
            final(self)@ == old(self)@.end_table_cell(),
    {
        let mut cell: Vec<(Style, char)> = Vec::new();
        std::mem::swap(&mut cell, &mut self.current_cell);
        let ghost row = self.current_row@;
        self.current_row.push(cell);
        assert(cells_view(self.current_row@) =~= cells_view(row).push(cell@));
    }

    /// Closes the row, adding it to the table.
    pub fn end_table_row(&mut self)
        ensures
            final(self)@ == old(self)@.end_table_row(),
    {
        let mut row: Vec<Vec<(Style, char)>> = Vec::new();
        std::mem::swap(&mut row, &mut self.current_row);
        let ghost rows = self.table_rows@;
        self.table_rows.push(row);
        assert(rows_view(self.table_rows@) =~= rows_view(rows).push(cells_view(row@)));
        assert(cells_view(self.current_row@) =~= Seq::<Seq<(Style, char)>>::empty());
        self.last_was_space = true;
    }

    /// Closes the head; its row counts as the table's head.
    pub fn end_table_head(&mut self)
        ensures
            final(self)@ == old(self)@.end_table_head(),
    {
        if self.current_row.len() > 0 {
            let mut row: Vec<Vec<(Style, char)>> = Vec::new();
            std::mem::swap(&mut row, &mut self.current_row);
            let ghost rows = self.table_rows@;
            self.table_rows.push(row);
            assert(rows_view(self.table_rows@) =~= rows_view(rows).push(cells_view(row@)));
            assert(cells_view(self.current_row@) =~= Seq::<Seq<(Style, char)>>::empty());
        }
        self.table_header_count = self.table_rows.len();
        self.in_table_head = false;
    }

    /// Writes the collected table.
    pub fn render_table(&mut self)
        ensures
            final(self)@.out == table_view(old(self)@.out, old(self)@.table_rows, old(self)@.table_header_count),
            final(self)@ == (RenderState { out: final(self)@.out, ..old(self)@ }),
    {
        render_table(&mut self.out, &self.table_rows, self.table_header_count);
    }

    /// Closes the table and writes it.
    pub fn end_table(&mut self)
        ensures
            final(self)@ == old(self)@.end_table(),
    {
        self.render_table();
        self.table_rows = Vec::new();
        assert(rows_view(self.table_rows@) =~= Seq::<Seq<Seq<(Style, char)>>>::empty());
        self.table_header_count = 0;
        self.in_table = false;
        self.out.write_char('\n');
        self.last_was_space = true;
    }

    /// The style of running text in the current state.
    fn current_text_style(&self) -> (st: Style)
        ensures
            st == text_style(self@),
    {
        Style {
            fg: if self.in_blockquote {
                Some(Color::Yellow)
            } else if self.in_link {
                Some(Color::Blue)
            } else {
                None
            },
            bold: self.in_strong,
            intense: false,
            italic: self.in_emphasis,
            underline: self.in_link,
            strikethrough: self.in_strikethrough,
        }
    }

    /// Running text: into the open heading, image or cell (there in the text
    /// style), or written in the text style.
    pub fn write_text(&mut self, text: &[char])
        ensures
            final(self)@ == old(self)@.write_text(text@),
    {
        if self.heading_level.is_some() {
            crate::text::push_chars(&mut self.heading_buf, text);
            return;
        }
        if self.in_image {
            crate::text::push_chars(&mut self.image_alt, text);
            return;
        }
        let st = self.current_text_style();
        if self.in_table {
            push_styled(&mut self.current_cell, st, text);
            return;
        }
        self.out.set_style(st);
        self.out.write_chars(text);
        self.out.reset();
        self.last_was_space = ends_with_whitespace(text);
    }

    /// A text event: into the open code block or cell, else running text.
    pub fn write_event_text(&mut self, text: &[char])
        ensures
            final(self)@ == old(self)@.write_event_text(text@),
    {
        if self.in_code_block {
            crate::text::push_chars(&mut self.code_buf, text);
            return;
        }
        if self.in_table {
            let st = self.current_text_style();
            push_styled(&mut self.current_cell, st, text);
            return;
        }
        self.write_text(text)
    }

    /// Writes inline code between backticks.
    pub fn render_inline_code(&mut self, code: &[char])
        ensures
            final(self)@ == old(self)@.inline_code(code@),
    {
        self.out.set_style(Style::fg(Color::Red));
        self.out.write_char('`');
        self.out.write_chars(code);
        self.out.write_char('`');
        self.out.reset();
        self.last_was_space = false;
    }

    /// An inline code event: kept between backticks, in red, in a table cell;
    /// written anywhere else but in a code block.
    pub fn write_event_code(&mut self, code: &[char])
        ensures
            final(self)@ == old(self)@.write_event_code(code@),
    {
        if self.in_table {
            let mut quoted: Vec<char> = Vec::new();
            quoted.push('`');
            crate::text::push_chars(&mut quoted, code);
            quoted.push('`');
            assert(quoted@ =~= seq!['`'] + code@.push('`'));
            push_styled(&mut self.current_cell, Style::fg(Color::Red), quoted.as_slice());
            return;
        }
        if !self.in_code_block {
            self.render_inline_code(code);
        }
    }

    /// A soft line break: a space, or a new bar in a block quote.
    pub fn soft_break(&mut self)
        ensures
            final(self)@ == old(self)@.soft_break(),
    {
        if self.heading_level.is_some() {
            self.push_heading_softbreak();
        } else if self.in_blockquote {
            self.render_blockquote_start();
        } else {
            self.out.write_char(' ');
            self.last_was_space = true;
        }
    }

    /// A hard line break.
    pub fn hard_break(&mut self)
        ensures
            final(self)@ == old(self)@.hard_break(),
    {
        self.out.write_char('\n');
        self.last_was_space = true;
    }

    /// Ends a paragraph: a blank line, or a line feed inside a list.
    pub fn end_paragraph(&mut self)
        ensures
            final(self)@ == old(self)@.end_paragraph(),
    {
        if self.list_depth == 0 {
            self.out.write_char('\n');
            self.out.write_char('\n');
        } else {
            self.out.write_char('\n');
        }
        self.last_was_space = true;
    }

    /// Writes the indentation of a list item at the current depth.
    fn write_indent(&mut self)
        ensures
            final(self)@ == old(self)@.write(indent(old(self)@.list_depth)),
    {
        let d1 = self.list_depth.saturating_sub(1);
        self.out.write_repeat(' ', d1);
        self.out.write_repeat(' ', d1);
        assert(repeat(' ', d1 as nat) + repeat(' ', d1 as nat) =~= indent(self.list_depth));
    }

    /// Counts one more item in the innermost ordered list.
    fn bump_item_number(&mut self)
        requires
            old(self)@.has_room(),
        ensures
            final(self)@ == (RenderState { list_item_number: old(self)@.bumped_numbers(), ..old(self)@ }),
    {
        if self.list_depth > self.list_item_number.len() {
            self.list_item_number.push(1);
        } else if self.list_depth > 0 {
            let k = self.list_depth - 1;
            let n = self.list_item_number[k];
            self.list_item_number.set(k, n + 1);
        }
    }

    /// A line feed unless the output already ends in white space.
    fn break_line(&mut self)
        ensures
            final(self)@ == old(self)@.break_line(),
    {
        if !self.last_was_space {
            self.out.write_char('\n');
        }
    }

    /// The number of the current ordered item, indented, and a dot.
    fn write_number_marker(&mut self)
        ensures
            final(self)@ == old(self)@.write(
                indent(old(self)@.list_depth) + decimal(old(self)@.item_number() as nat) + ". "@,
            ),
    {
        let d1 = self.list_depth.saturating_sub(1);
        let num = if d1 < self.list_item_number.len() {
            self.list_item_number[d1]
        } else {
            1
        };
        self.write_indent();
        self.out.write_decimal(num);
        self.out.write_str(". ");
    }

    /// The bullet of the current unordered item, indented, and a space.
    fn write_bullet_marker(&mut self)
        ensures
            final(self)@ == old(self)@.write(
                indent(old(self)@.list_depth) + seq![bullet(old(self)@.list_depth), ' '],
            ),
    {
        let bullet = if self.list_depth <= 1 {
            '-'
        } else if self.list_depth == 2 {
            '*'
        } else {
            '+'
        };
        self.write_indent();
        self.out.write_char(bullet);
        self.out.write_char(' ');
    }

    /// Starts a list item with its marker.
    #[verifier::rlimit(50)]
    pub fn render_list_item_start(&mut self)
        requires
            old(self)@.has_room(),
        ensures
            final(self)@ == old(self)@.list_item_start(),
    {
        let ghost s0 = self@;
        let d1 = self.list_depth.saturating_sub(1);
        let is_ordered = if d1 < self.current_list_is_ordered.len() {
            self.current_list_is_ordered[d1]
        } else {
            false
        };
        assert(is_ordered == s0.item_is_ordered());
        self.break_line();
        let ghost s1 = self@;
        assert(s1 == s0.break_line());
        if is_ordered {
            self.bump_item_number();
            let ghost s2 = self@;
            self.write_number_marker();
            assert(self@.out == s2.out.write(
                indent(s2.list_depth) + decimal(s2.item_number() as nat) + ". "@,
            ));
        } else {
            self.write_bullet_marker();
        }
        self.last_was_space = false;
    }

    /// Writes a horizontal rule.
    pub fn render_rule(&mut self)
        ensures
            final(self)@ == old(self)@.rule(),
    {
        self.out.set_style(Style::fg(Color::White));
        self.out.write_repeat('\u{2500}', 60);
        self.out.write_char('\n');
        self.out.reset();
        self.last_was_space = true;
    }

    /// Writes a task list checkbox, ticked when `checked`.
    pub fn render_task_list_item(&mut self, checked: bool)
        ensures
            final(self)@ == old(self)@.task_marker(checked),
    {
        let mark = if checked {
            '\u{2611}'
        } else {
            '\u{2610}'
        };
        self.out.set_style(Style::fg(if checked { Color::Green } else { Color::White }));
        self.write_indent();
        self.out.write_char(mark);
        self.out.write_char(' ');
        self.out.reset();
    }

    /// Writes raw HTML, with terminal escapes and control characters stripped.
    pub fn write_html(&mut self, html: &[char])
        ensures
            final(self)@ == old(self)@.html(html@),
    {
        let sanitized = crate::sanitize::strip_escapes(html);
        self.out.write_chars(sanitized.as_slice());
    }

    /// Handles the start of an element.
    pub fn start_tag(&mut self, t: &MdTag)
        requires
            old(self)@.has_room(),
        ensures
            final(self)@ == old(self)@.start_tag(t@),
    {
        match t {
            MdTag::Paragraph => {},
            MdTag::Heading(level) => self.start_heading(*level),
            MdTag::List(start) => self.start_list(*start),
            MdTag::Item => self.render_list_item_start(),
            MdTag::Emphasis => self.set_emphasis(true),
            MdTag::Strong => self.set_strong(true),
            MdTag::Strikethrough => self.set_strikethrough(true),
            MdTag::Link(url) => self.start_link(url.as_slice()),
            MdTag::Image(url) => self.start_image(url.as_slice()),
            MdTag::CodeBlock(info) => {
                let i = match info {
                    Some(i) => Some(i.as_slice()),
                    None => None,
                };
                self.start_code_block(i);
            },
            MdTag::BlockQuote => self.start_blockquote(),
            MdTag::Table => self.start_table(),
            MdTag::TableHead => self.start_table_head(),
            MdTag::TableRow => self.start_table_row(),
            MdTag::TableCell => self.start_table_cell(),
            MdTag::Other => {},
        }
    }

    /// Handles the end of an element.
    pub fn end_tag(&mut self, k: TagKind)
        ensures
            final(self)@ == old(self)@.end_tag(k),
    {
        match k {
            TagKind::TableCell => self.end_table_cell(),
            TagKind::TableRow => self.end_table_row(),
            TagKind::TableHead => self.end_table_head(),
            TagKind::Table => self.end_table(),
            TagKind::Paragraph => self.end_paragraph(),
            TagKind::Heading => self.end_heading(),
            TagKind::List => self.end_list(),
            TagKind::Item => self.end_item(),
            TagKind::Emphasis => self.set_emphasis(false),
            TagKind::Strong => self.set_strong(false),
            TagKind::Strikethrough => self.set_strikethrough(false),
            TagKind::Link => self.end_link(),
            TagKind::Image => self.end_image(),
            TagKind::CodeBlock => self.end_code_block(),
            TagKind::BlockQuote => self.end_blockquote(),
            TagKind::Other => {},
        }
    }

    /// Handles one event.
    pub fn handle_event(&mut self, e: &MdEvent)
        requires
            old(self)@.has_room(),
        ensures
            final(self)@ == old(self)@.step(e@),
    {
        match e {
            MdEvent::Start(t) => self.start_tag(t),
            MdEvent::End(k) => self.end_tag(*k),
            MdEvent::Text(t) => self.write_event_text(t.as_slice()),
            MdEvent::Code(c) => self.write_event_code(c.as_slice()),
            MdEvent::Html(h) => self.write_html(h.as_slice()),
            MdEvent::SoftBreak => self.soft_break(),
            MdEvent::HardBreak => self.hard_break(),
            MdEvent::Rule => self.render_rule(),
            MdEvent::FootnoteReference(name) => self.write_footnote_reference(name.as_slice()),
            MdEvent::TaskListMarker(checked) => self.render_task_list_item(*checked),
            MdEvent::Math(_) => {},
            MdEvent::InlineHtml(_) => {},
        }
    }

    /// Writes a footnote reference as `[^name]`.
    pub fn write_footnote_reference(&mut self, name: &[char])
        ensures
            final(self)@ == old(self)@.footnote_reference(name@),
    {
        self.out.set_style(Style::fg_bold(Color::Blue));
        self.out.write_str("[^");
        self.out.write_chars(name);
        self.out.write_char(']');
        self.out.reset();
    }
}

} // verus!
