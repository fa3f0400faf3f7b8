//! What holds of the renderer whatever the events: headings, code blocks,
//! list markers and raw HTML come out as the documentation describes them,
//! the fence setting matters only for code blocks, and rendering only ever
//! appends to its output.

use vstd::prelude::*;
use crate::events::{SpecEvent, SpecTag, TagKind};
use crate::render::{bullet, code_block_text, code_language, indent, RenderState};
use crate::sanitize::{is_terminal_safe, law_stripped_is_terminal_safe, stripped};
use crate::render::fences::{lemma_end_tag_fences, lemma_start_tag_fences, same_but_fences};
use crate::render::table::{lemma_table_view, plain_rows, table_text};
use crate::style::{Color, Style, StyledView, extends, lemma_extends_trans};
use crate::text::{decimal, first_word, lines, prefixed_lines, repeat};

verus! {

/// The events of a heading of level `level` whose text is `text`.
pub open spec fn heading_events(level: u32, text: Seq<char>) -> Seq<SpecEvent> {
    seq![
        SpecEvent::Start(SpecTag::Heading(level)),
        SpecEvent::Text(text),
        SpecEvent::End(TagKind::Heading),
    ]
}

/// The events of a code block with info string `info` (`None` for an
/// indented block) and text `code`.
pub open spec fn code_block_events(info: Option<Seq<char>>, code: Seq<char>) -> Seq<SpecEvent> {
    seq![
        SpecEvent::Start(SpecTag::CodeBlock(info)),
        SpecEvent::Text(code),
        SpecEvent::End(TagKind::CodeBlock),
    ]
}

proof fn lemma_run_one(s: RenderState, events: Seq<SpecEvent>)
    requires
        events.len() == 1,
    ensures
        s.run(events) == s.step(events[0]),
{
    let a = events.drop_first();
    assert(a.len() == 0);
    assert(s.step(events[0]).run(a) == s.step(events[0]));
}

proof fn lemma_run_two(s: RenderState, events: Seq<SpecEvent>)
    requires
        events.len() == 2,
    ensures
        s.run(events) == s.step(events[0]).step(events[1]),
{
    let a = events.drop_first();
    assert(a[0] == events[1]);
    lemma_run_one(s.step(events[0]), a);
}

proof fn lemma_run_three(s: RenderState, events: Seq<SpecEvent>)
    requires
        events.len() == 3,
    ensures
        s.run(events) == s.step(events[0]).step(events[1]).step(events[2]),
{
    let a = events.drop_first();
    let b = a.drop_first();
    let c = b.drop_first();
    assert(c.len() == 0);
    assert(a[0] == events[1]);
    assert(b[0] == events[2]);
    let t1 = s.step(events[0]);
    let t2 = t1.step(a[0]);
    let t3 = t2.step(b[0]);
    assert(t3.run(c) == t3);
    assert(t2.run(b) == t3.run(c));
    assert(t1.run(a) == t2.run(b));
    assert(s.run(events) == t1.run(a));
}

/// A level 1 heading is its text on a line of its own, underlined with as
/// many `=` as the text has characters, between blank lines; a level 2
/// heading likewise with `-`.
pub proof fn law_heading_underlined(s: RenderState, level: u32, text: Seq<char>)
    requires
        level == 1 || level == 2,
        !s.in_code_block,
        !s.in_table,
    ensures
        s.run(heading_events(level, text)).out.text == s.out.text + seq!['\n'] + text + seq!['\n']
            + repeat(if level == 1 { '=' } else { '-' }, text.len()) + seq!['\n', '\n'],
{
    let evs = heading_events(level, text);
    lemma_run_three(s, evs);
    let s1 = s.step(evs[0]);
    let s2 = s1.step(evs[1]);
    assert(s2.heading_buf =~= text);
    assert(s2.step(evs[2]).out.text =~= s.out.text + seq!['\n'] + text + seq!['\n'] + repeat(
        if level == 1 {
            '='
        } else {
            '-'
        },
        text.len(),
    ) + seq!['\n', '\n']);
}

/// A heading of level 3 to 6 keeps as many `#` marks as its level, then a
/// space, then its text, between blank lines.
pub proof fn law_heading_marked(s: RenderState, level: u32, text: Seq<char>)
    requires
        3 <= level <= 6,
        !s.in_code_block,
        !s.in_table,
    ensures
        s.run(heading_events(level, text)).out.text == s.out.text + seq!['\n'] + repeat(
            '#',
            level as nat,
        ) + seq![' '] + text + seq!['\n', '\n'],
{
    let evs = heading_events(level, text);
    lemma_run_three(s, evs);
    let s1 = s.step(evs[0]);
    let s2 = s1.step(evs[1]);
    assert(s2.heading_buf =~= text);
    reveal_strlit("### ");
    reveal_strlit("#### ");
    reveal_strlit("##### ");
    reveal_strlit("###### ");
    assert(s2.step(evs[2]).out.text =~= s.out.text + seq!['\n'] + repeat('#', level as nat) + seq![
        ' ',
    ] + text + seq!['\n', '\n']);
}

/// A code block that starts where the output ends in white space is its
/// text written after the output.
proof fn lemma_code_block_out(s: RenderState, info: Option<Seq<char>>, code: Seq<char>)
    requires
        s.last_was_space,
    ensures
        s.run(code_block_events(info, code)).out == code_block_text(
            s.out,
            code,
            code_language(info),
            s.preserve_code_fences,
        ),
{
    let evs = code_block_events(info, code);
    lemma_run_three(s, evs);
    let s1 = s.step(evs[0]);
    assert(s1 == s.start_code_block(info));
    assert(s1.out == s.out);
    assert(s1.in_code_block);
    assert(s1.code_lang == code_language(info));
    assert(s1.code_buf.len() == 0);
    let s2 = s1.step(evs[1]);
    assert(s2 == s1.write_event_text(code));
    assert(s2.code_buf =~= code);
    let s3 = s2.step(evs[2]);
    assert(s3 == s2.end_code_block());
}

/// With fences kept, a code block is a line of three backticks followed by
/// the first word of its info string, its lines as they are, and a closing
/// line of three backticks, after a blank line and before another.
pub proof fn law_code_block_fenced(s: RenderState, info: Seq<char>, code: Seq<char>)
    requires
        s.preserve_code_fences,
        s.last_was_space,
    ensures
        s.run(code_block_events(Some(info), code)).out.text == s.out.text + seq!['\n', '`', '`', '`']
            + first_word(info) + seq!['\n'] + prefixed_lines(lines(code), Seq::empty()) + seq![
            '`',
            '`',
            '`',
            '\n',
            '\n',
        ],
{
    lemma_code_block_out(s, Some(info), code);
    let l = match code_language(Some(info)) {
        Some(l) => l,
        None => Seq::<char>::empty(),
    };
    assert(l =~= first_word(info));
    let o = s.out;
    let st = crate::style::fg_bold(crate::style::Color::Green);
    let body = prefixed_lines(lines(code), Seq::empty());
    let t = code_block_text(o, code, code_language(Some(info)), true);
    assert(t.text =~= o.text + seq!['\n'] + ("```"@ + l.push('\n')) + body + "```\n"@ + seq!['\n']);
    assert(("```"@ + l.push('\n')) =~= seq!['`', '`', '`'] + l + seq!['\n']) by {
        reveal_strlit("```");
    }
    assert("```\n"@ =~= seq!['`', '`', '`', '\n']) by {
        reveal_strlit("```\n");
    }
    assert(t.text =~= s.out.text + seq!['\n', '`', '`', '`'] + first_word(info) + seq!['\n'] + body
        + seq!['`', '`', '`', '\n', '\n']);
}

/// Without fences, a code block is its language in brackets on a line of its
/// own (when its info string has a first word), then its lines indented by
/// four spaces, after a blank line and before another.
pub proof fn law_code_block_indented(s: RenderState, info: Option<Seq<char>>, code: Seq<char>)
    requires
        !s.preserve_code_fences,
        s.last_was_space,
    ensures
        s.run(code_block_events(info, code)).out.text == s.out.text + seq!['\n'] + (
        match info {
            Some(i) => if first_word(i).len() > 0 {
                seq!['['] + first_word(i) + seq![']', '\n']
            } else {
                Seq::empty()
            },
            None => Seq::empty(),
        }) + prefixed_lines(lines(code), repeat(' ', 4)) + seq!['\n'],
{
    lemma_code_block_out(s, info, code);
    reveal_strlit("]\n");
    let label = match info {
        Some(i) => if first_word(i).len() > 0 {
            seq!['['] + first_word(i) + seq![']', '\n']
        } else {
            Seq::empty()
        },
        None => Seq::empty(),
    };
    let t = code_block_text(s.out, code, code_language(info), false);
    assert(t.text =~= s.out.text + seq!['\n'] + label + prefixed_lines(lines(code), repeat(' ', 4))
        + seq!['\n']);
}

/// The events of a link to `url` whose text is `text`.
pub open spec fn link_events(url: Seq<char>, text: Seq<char>) -> Seq<SpecEvent> {
    seq![
        SpecEvent::Start(SpecTag::Link(url)),
        SpecEvent::Text(text),
        SpecEvent::End(TagKind::Link),
    ]
}

/// The events of an image at `url` whose alternative text is `alt`.
pub open spec fn image_events(url: Seq<char>, alt: Seq<char>) -> Seq<SpecEvent> {
    seq![
        SpecEvent::Start(SpecTag::Image(url)),
        SpecEvent::Text(alt),
        SpecEvent::End(TagKind::Image),
    ]
}

/// A link in running text shows its text followed by its destination in
/// parentheses.
pub proof fn law_link_shows_url(s: RenderState, url: Seq<char>, text: Seq<char>)
    requires
        url.len() > 0,
        s.heading_level is None,
        !s.in_image,
        !s.in_table,
        !s.in_code_block,
    ensures
        s.run(link_events(url, text)).out.text == s.out.text + text + seq![' ', '('] + url + seq![')'],
{
    let evs = link_events(url, text);
    lemma_run_three(s, evs);
    let s2 = s.step(evs[0]).step(evs[1]);
    assert(s2.link_url == url);
    assert(s2.out.text == s.out.text + text);
    assert(" ("@ =~= seq![' ', '(']) by {
        reveal_strlit(" (");
    }
    assert(s2.step(evs[2]).out.text =~= s.out.text + text + seq![' ', '('] + url + seq![')']);
}

/// An image shows as a picture marker, `[IMAGE: `, its alternative text and
/// `]`, followed by its location in parentheses.
pub proof fn law_image_shows_alt_and_url(s: RenderState, url: Seq<char>, alt: Seq<char>)
    requires
        s.heading_level is None,
        !s.in_table,
        !s.in_code_block,
    ensures
        s.run(image_events(url, alt)).out.text == s.out.text + crate::render::image_marker() + alt
            + seq![']', ' ', '('] + url + seq![')'],
{
    let evs = image_events(url, alt);
    lemma_run_three(s, evs);
    let s2 = s.step(evs[0]).step(evs[1]);
    assert(s2.image_alt =~= alt);
    assert(s2.image_url == url);
    assert(s2.out == s.out);
    assert(" ("@ =~= seq![' ', '(']) by {
        reveal_strlit(" (");
    }
    assert(s2.step(evs[2]).out.text =~= s.out.text + crate::render::image_marker() + alt + seq![
        ']',
        ' ',
        '(',
    ] + url + seq![')']);
}

/// An item of an unordered list, starting where the output ends in white
/// space, shows two spaces per nesting level below the top, then the bullet
/// of its level (`-` at the top, `*` at the second level, `+` from the third
/// level on), then a space.
pub proof fn law_unordered_item_marker(s: RenderState)
    requires
        s.last_was_space,
        !s.item_is_ordered(),
    ensures
        s.step(SpecEvent::Start(SpecTag::Item)).out.text == s.out.text + repeat(
            ' ',
            2 * (if s.list_depth > 0 { s.list_depth - 1 } else { 0 }) as nat,
        ) + seq![
            if s.list_depth <= 1 {
                '-'
            } else if s.list_depth == 2 {
                '*'
            } else {
                '+'
            },
            ' ',
        ],
{
    assert(s.break_line() == s);
}

/// An item of an ordered list, starting where the output ends in white
/// space, shows two spaces per nesting level below the top, then its number
/// in decimal, a dot and a space.
pub proof fn law_ordered_item_marker(s: RenderState)
    requires
        s.last_was_space,
        s.item_is_ordered(),
    ensures
        s.step(SpecEvent::Start(SpecTag::Item)).out.text == s.out.text + indent(s.list_depth)
            + decimal(RenderState { list_item_number: s.bumped_numbers(), ..s }.item_number() as nat)
            + seq!['.', ' '],
{
    assert(s.break_line() == s);
    assert(". "@ =~= seq!['.', ' ']) by {
        reveal_strlit(". ");
    }
}

/// Every open list has its own counter: as many counters as open lists, and
/// as many as the nesting depth.
pub open spec fn lists_consistent(s: RenderState) -> bool {
    &&& s.list_item_number.len() == s.list_depth
    &&& s.current_list_is_ordered.len() == s.list_depth
}

/// Each event keeps one counter per open list: opening a list adds one,
/// closing it drops it again.
pub proof fn law_step_keeps_lists_consistent(s: RenderState, e: SpecEvent)
    requires
        lists_consistent(s),
        s.has_room(),
    ensures
        lists_consistent(s.step(e)),
{
    match e {
        SpecEvent::Start(t) => lemma_start_tag_keeps_lists_consistent(s, t),
        SpecEvent::End(k) => lemma_end_tag_keeps_lists_consistent(s, k),
        _ => {},
    }
}

proof fn lemma_start_tag_keeps_lists_consistent(s: RenderState, t: SpecTag)
    requires
        lists_consistent(s),
        s.has_room(),
    ensures
        lists_consistent(s.start_tag(t)),
{
    match t {
        SpecTag::Item => {
            assert(s.start_tag(t) == s.list_item_start());
            assert(s.break_line().list_item_number == s.list_item_number);
            assert(s.break_line().list_depth == s.list_depth);
            assert(s.break_line().bumped_numbers().len() == s.list_item_number.len());
        },
        SpecTag::List(start) => {
            assert(s.start_tag(t) == s.start_list(start));
        },
        _ => {},
    }
}

proof fn lemma_end_tag_keeps_lists_consistent(s: RenderState, k: TagKind)
    requires
        lists_consistent(s),
    ensures
        lists_consistent(s.end_tag(k)),
{
    match k {
        TagKind::List => {
            assert(s.end_tag(k) == s.end_list());
        },
        _ => {},
    }
}

/// The first item of an ordered list whose counter has counted nothing yet.
proof fn lemma_first_ordered_item(t: RenderState)
    requires
        t.list_depth > 0,
        t.list_item_number.len() == t.list_depth,
        t.list_item_number[t.list_depth - 1] == 0,
        t.item_is_ordered(),
        t.last_was_space,
    ensures
        t.list_item_start().out.text == t.out.text + indent(t.list_depth) + seq!['1', '.', ' '],
{
    assert(t.break_line() == t);
    let u = RenderState { list_item_number: t.bumped_numbers(), ..t };
    assert(u.item_number() == 1);
    assert(decimal(1) =~= seq!['1']);
    assert(". "@ =~= seq!['.', ' ']) by {
        reveal_strlit(". ");
    }
    assert(t.list_item_start().out == u.out.write(
        indent(u.list_depth) + decimal(u.item_number() as nat) + ". "@,
    ));
    assert(t.list_item_start().out.text =~= t.out.text + indent(t.list_depth) + seq!['1', '.', ' ']);
}

/// An ordered list, opened with one counter per open list, numbers its first
/// item 1, whatever number it starts at and whatever the lists around it
/// have counted: its marker is its indentation, then `1. `.
pub proof fn law_ordered_list_first_item_is_one(s: RenderState, start: u64)
    requires
        lists_consistent(s),
        s.list_depth < usize::MAX,
    ensures
        s.run(seq![SpecEvent::Start(SpecTag::List(Some(start))), SpecEvent::Start(SpecTag::Item)]).out.text
            == s.ensure_newline().out.text + indent((s.list_depth + 1) as usize) + seq!['1', '.', ' '],
{
    let evs = seq![SpecEvent::Start(SpecTag::List(Some(start))), SpecEvent::Start(SpecTag::Item)];
    lemma_run_two(s, evs);
    let n = s.ensure_newline();
    let t = s.step(evs[0]);
    assert(t == s.start_list(Some(start)));
    assert(t.list_depth == s.list_depth + 1);
    assert(t.out == n.out);
    assert(t.last_was_space);
    assert(t.list_item_number == n.list_item_number.push(0));
    assert(t.current_list_is_ordered == n.current_list_is_ordered.push(true));
    assert(t.item_is_ordered());
    lemma_first_ordered_item(t);
    assert(t.step(evs[1]) == t.list_item_start());
}

/// Running the events `a` and then `b` is running `a + b`.
pub proof fn lemma_run_concat(s: RenderState, a: Seq<SpecEvent>, b: Seq<SpecEvent>)
    ensures
        s.run(a + b) == s.run(a).run(b),
    decreases a.len(),
{
    if a.len() > 0 {
        assert((a + b)[0] == a[0]);
        assert((a + b).drop_first() =~= a.drop_first() + b);
        lemma_run_concat(s.step(a[0]), a.drop_first(), b);
    } else {
        assert(a + b =~= b);
    }
}

/// `count` empty list items, one after another.
pub open spec fn empty_items(count: nat) -> Seq<SpecEvent>
    decreases count,
{
    if count == 0 {
        Seq::empty()
    } else {
        empty_items((count - 1) as nat) + seq![
            SpecEvent::Start(SpecTag::Item),
            SpecEvent::End(TagKind::Item),
        ]
    }
}

/// A top-level list of `count` empty items: ordered when it has a `start`.
pub open spec fn flat_list_events(start: Option<u64>, count: nat) -> Seq<SpecEvent> {
    seq![SpecEvent::Start(SpecTag::List(start))] + empty_items(count) + seq![
        SpecEvent::End(TagKind::List),
    ]
}

/// The markers of the first `count` items of a top-level list, each on its
/// own line: `1. `, `2. `, ... when it is ordered, `- ` otherwise.
pub open spec fn flat_list_text(ordered: bool, count: nat) -> Seq<char>
    decreases count,
{
    if count == 0 {
        Seq::empty()
    } else {
        flat_list_text(ordered, (count - 1) as nat) + if ordered {
            decimal(count) + seq!['.', ' ', '\n']
        } else {
            seq!['-', ' ', '\n']
        }
    }
}

/// An empty list item.
pub open spec fn item_pair() -> Seq<SpecEvent> {
    seq![SpecEvent::Start(SpecTag::Item), SpecEvent::End(TagKind::Item)]
}

/// An empty item of an open top-level list shows its marker on a line of its
/// own, and counts one more item when the list is ordered.
proof fn lemma_item_pair(u: RenderState)
    requires
        u.list_depth == 1,
        u.current_list_is_ordered.len() == 1,
        u.last_was_space,
        u.current_list_is_ordered[0] ==> u.list_item_number.len() == 1 && u.list_item_number[0]
            < usize::MAX,
    ensures
        u.run(item_pair()).list_depth == 1,
        u.run(item_pair()).current_list_is_ordered == u.current_list_is_ordered,
        u.run(item_pair()).last_was_space,
        u.current_list_is_ordered[0] ==> u.run(item_pair()).list_item_number == seq![
            (u.list_item_number[0] + 1) as usize,
        ],
        u.current_list_is_ordered[0] ==> u.run(item_pair()).out.text == u.out.text + decimal(
            (u.list_item_number[0] + 1) as nat,
        ) + seq!['.', ' ', '\n'],
        !u.current_list_is_ordered[0] ==> u.run(item_pair()).list_item_number
            == u.list_item_number,
        !u.current_list_is_ordered[0] ==> u.run(item_pair()).out.text == u.out.text + seq![
            '-',
            ' ',
            '\n',
        ],
{
    let pair = item_pair();
    lemma_run_two(u, pair);
    let u1 = u.step(pair[0]);
    assert(u1 == u.list_item_start());
    assert(u.item_is_ordered() == u.current_list_is_ordered[0]);
    assert(u.break_line() == u);
    assert(indent(1) =~= Seq::<char>::empty());
    if u.current_list_is_ordered[0] {
        assert(u.bumped_numbers() =~= seq![(u.list_item_number[0] + 1) as usize]);
        assert(". "@ =~= seq!['.', ' ']) by {
            reveal_strlit(". ");
        }
        assert(u1.out.text =~= u.out.text + decimal((u.list_item_number[0] + 1) as nat) + seq![
            '.',
            ' ',
        ]);
    } else {
        assert(u1.out.text =~= u.out.text + seq!['-', ' ']);
    }
    let u2 = u1.step(pair[1]);
    assert(u2 == u1.end_item());
}

/// The markers of `count` empty items of an open top-level list come one
/// after another, numbered from one more than the count so far.
proof fn lemma_flat_items(t: RenderState, ordered: bool, count: nat)
    requires
        count < usize::MAX,
        t.list_depth == 1,
        t.current_list_is_ordered == seq![ordered],
        t.last_was_space,
        ordered ==> t.list_item_number == seq![0usize],
    ensures
        t.run(empty_items(count)).list_depth == 1,
        t.run(empty_items(count)).current_list_is_ordered == seq![ordered],
        t.run(empty_items(count)).last_was_space,
        ordered ==> t.run(empty_items(count)).list_item_number == seq![count as usize],
        t.run(empty_items(count)).out.text == t.out.text + flat_list_text(ordered, count),
    decreases count,
{
    if count == 0 {
        assert(empty_items(0) =~= Seq::<SpecEvent>::empty());
        assert(t.out.text + flat_list_text(ordered, 0) =~= t.out.text);
    } else {
        let c = (count - 1) as nat;
        lemma_flat_items(t, ordered, c);
        let u = t.run(empty_items(c));
        lemma_run_concat(t, empty_items(c), item_pair());
        assert(empty_items(count) == empty_items(c) + item_pair());
        lemma_item_pair(u);
        assert(t.run(empty_items(count)).out.text =~= t.out.text + flat_list_text(ordered, count));
    }
}

/// A top-level list of empty items, opened where the output ends in white
/// space, shows each item's marker on its own line: the numbers 1, 2, 3 and
/// so on, each followed by a dot, when the list is ordered (whatever number
/// the list starts at), and a dash otherwise.
pub proof fn law_flat_list_markers(s: RenderState, start: Option<u64>, count: nat)
    requires
        count < usize::MAX,
        s.list_depth == 0,
        s.current_list_is_ordered.len() == 0,
        s.list_item_number.len() == 0,
        s.last_was_space,
    ensures
        s.run(flat_list_events(start, count)).out.text == s.out.text + flat_list_text(
            start is Some,
            count,
        ),
{
    let ordered = start is Some;
    let first = seq![SpecEvent::Start(SpecTag::List(start))];
    let last = seq![SpecEvent::End(TagKind::List)];
    let t = s.step(first[0]);
    lemma_run_one(s, first);
    assert(t.current_list_is_ordered =~= seq![ordered]);
    if ordered {
        assert(t.list_item_number =~= seq![0usize]);
    }
    assert(t.out == s.out);
    lemma_flat_items(t, ordered, count);
    let u = t.run(empty_items(count));
    lemma_run_concat(s, first, empty_items(count));
    lemma_run_concat(s, first + empty_items(count), last);
    lemma_run_one(u, last);
    assert(u.step(last[0]).out == u.out);
}

/// Raw HTML reaches the output with terminal escapes and control characters
/// stripped, so what it adds is safe for the terminal.
pub proof fn law_html_sanitized(s: RenderState, html: Seq<char>)
    ensures
        s.step(SpecEvent::Html(html)).out.text == s.out.text + stripped(html),
        is_terminal_safe(stripped(html)),
{
    law_stripped_is_terminal_safe(html);
}

proof fn lemma_item_extends(s: RenderState)
    ensures
        extends(s.out, s.list_item_start().out),
{
    let b = s.break_line();
    assert(extends(s.out, b.out));
    let n = s.list_item_start();
    if s.item_is_ordered() {
        let c = RenderState { list_item_number: b.bumped_numbers(), ..b };
        assert(n.out == c.out.write(indent(c.list_depth) + decimal(c.item_number() as nat) + ". "@));
    } else {
        assert(n.out == b.out.write(indent(b.list_depth) + seq![bullet(b.list_depth), ' ']));
    }
    assert(extends(b.out, n.out));
    lemma_extends_trans(s.out, b.out, n.out);
}

proof fn lemma_start_tag_extends(s: RenderState, t: SpecTag)
    ensures
        extends(s.out, s.start_tag(t).out),
{
    match t {
        SpecTag::Item => lemma_item_extends(s),
        SpecTag::List(start) => {
            assert(s.start_tag(t).out == s.ensure_newline().out);
        },
        SpecTag::CodeBlock(info) => {
            assert(s.start_tag(t).out == s.start_code_block(info).out);
        },
        SpecTag::BlockQuote => {
            assert(s.start_tag(t).out == s.start_blockquote().out);
        },
        SpecTag::Table => {
            assert(s.start_tag(t).out == s.start_table().out);
        },
        _ => {},
    }
}

proof fn lemma_end_tag_extends(s: RenderState, k: TagKind)
    ensures
        extends(s.out, s.end_tag(k).out),
{
    match k {
        TagKind::Heading => {
            match s.heading_level {
                Some(level) => {
                    let o = s.out;
                    let t = s.heading_buf;
                    assert(extends(o, crate::render::heading_text(o, level, t)));
                },
                None => {},
            }
        },
        TagKind::CodeBlock => {
            let o = s.out;
            assert(extends(
                o,
                crate::render::code_block_text(o, s.code_buf, s.code_lang, s.preserve_code_fences),
            ));
        },
        TagKind::Table => {
            let o = s.out;
            let t = crate::render::table::table_view(o, s.table_rows, s.table_header_count);
            lemma_table_view(o, s.table_rows, s.table_header_count);
            lemma_extends_trans(o, t, t.write(seq!['\n']));
        },
        _ => {},
    }
}

/// Each event only adds to the output: what was written before stays as it
/// was, and so do the style changes made before.
pub proof fn law_step_extends(s: RenderState, e: SpecEvent)
    ensures
        extends(s.out, s.step(e).out),
{
    match e {
        SpecEvent::Start(t) => lemma_start_tag_extends(s, t),
        SpecEvent::End(k) => lemma_end_tag_extends(s, k),
        _ => {},
    }
}

/// Rendering only appends: the output a renderer starts from is kept, text
/// and style changes, at the head of what it writes.
pub proof fn law_run_extends(s: RenderState, events: Seq<SpecEvent>)
    ensures
        extends(s.out, s.run(events).out),
    decreases events.len(),
{
    if events.len() > 0 {
        let t = s.step(events[0]);
        law_step_extends(s, events[0]);
        law_run_extends(t, events.drop_first());
        lemma_extends_trans(s.out, t.out, s.run(events).out);
    }
}

/// Every event of `events` is raw HTML, or the start or end of an element
/// the renderer does not tell apart (such as an HTML block).
pub open spec fn html_only(events: Seq<SpecEvent>) -> bool {
    forall|i: int|
        0 <= i < events.len() ==> (#[trigger] events[i] is Html || events[i] == SpecEvent::Start(
            SpecTag::Other,
        ) || events[i] == SpecEvent::End(TagKind::Other))
}

/// The raw HTML of `events`, each piece with its terminal escapes stripped,
/// one after another.
pub open spec fn html_text(events: Seq<SpecEvent>) -> Seq<char>
    decreases events.len(),
{
    if events.len() == 0 {
        Seq::empty()
    } else {
        let first = match events[0] {
            SpecEvent::Html(h) => stripped(h),
            _ => Seq::empty(),
        };
        first + html_text(events.drop_first())
    }
}

/// A document of raw HTML alone renders to its pieces of HTML, each stripped
/// of terminal escapes, one after another: no style change is made, nothing
/// else is written, and what is written is safe for the terminal.
pub proof fn law_html_only_renders_stripped(s: RenderState, events: Seq<SpecEvent>)
    requires
        html_only(events),
    ensures
        s.run(events) == (RenderState { out: s.out.write(html_text(events)), ..s }),
        is_terminal_safe(html_text(events)),
    decreases events.len(),
{
    if events.len() == 0 {
        assert(s.out.write(Seq::empty()) =~= s.out);
        assert(s.run(events) =~= (RenderState { out: s.out.write(html_text(events)), ..s }));
    } else {
        let e = events[0];
        let rest = events.drop_first();
        assert(html_only(rest)) by {
            assert forall|i: int| 0 <= i < rest.len() implies (#[trigger] rest[i] is Html || rest[i]
                == SpecEvent::Start(SpecTag::Other) || rest[i] == SpecEvent::End(TagKind::Other)) by {
                assert(rest[i] == events[i + 1]);
            }
        }
        let first = match e {
            SpecEvent::Html(h) => stripped(h),
            _ => Seq::empty(),
        };
        let t = s.step(e);
        assert(t == (RenderState { out: s.out.write(first), ..s })) by {
            match e {
                SpecEvent::Html(h) => {},
                _ => {
                    assert(s.out.write(first) =~= s.out);
                },
            }
        }
        law_html_only_renders_stripped(t, rest);
        assert(t.out.write(html_text(rest)) =~= s.out.write(html_text(events)));
        assert(t.run(rest) =~= (RenderState { out: s.out.write(html_text(events)), ..s }));
        match e {
            SpecEvent::Html(h) => law_stripped_is_terminal_safe(h),
            _ => {},
        }
        assert forall|i: int| 0 <= i < html_text(events).len() implies #[trigger] html_text(
            events,
        )[i] != crate::sanitize::esc() && !crate::sanitize::is_dropped_control(
            html_text(events)[i],
        ) by {
            if i < first.len() {
                assert(html_text(events)[i] == first[i]);
            } else {
                assert(html_text(events)[i] == html_text(rest)[i - first.len()]);
            }
        }
    }
}

/// Every event but the end of a code block takes two states that differ only
/// in the fence setting to two states that differ only in it.
#[verifier::spinoff_prover]
#[verifier::rlimit(60)]
proof fn lemma_step_fences(a: RenderState, b: RenderState, e: SpecEvent)
    requires
        same_but_fences(a, b),
        e != SpecEvent::End(TagKind::CodeBlock),
    ensures
        same_but_fences(a.step(e), b.step(e)),
{
    match e {
        SpecEvent::Start(t) => lemma_start_tag_fences(a, b, t),
        SpecEvent::End(k) => lemma_end_tag_fences(a, b, k),
        SpecEvent::Text(t) => assert(same_but_fences(a.write_event_text(t), b.write_event_text(t))),
        SpecEvent::Code(c) => assert(same_but_fences(a.write_event_code(c), b.write_event_code(c))),
        SpecEvent::Html(h) => assert(same_but_fences(a.html(h), b.html(h))),
        SpecEvent::SoftBreak => assert(same_but_fences(a.soft_break(), b.soft_break())),
        SpecEvent::HardBreak => assert(same_but_fences(a.hard_break(), b.hard_break())),
        SpecEvent::Rule => assert(same_but_fences(a.rule(), b.rule())),
        SpecEvent::FootnoteReference(n) => {
            assert(same_but_fences(a.footnote_reference(n), b.footnote_reference(n)));
        },
        SpecEvent::TaskListMarker(c) => assert(same_but_fences(a.task_marker(c), b.task_marker(c))),
        _ => {},
    }
}

/// No event of `events` closes a code block.
pub open spec fn closes_no_code_block(events: Seq<SpecEvent>) -> bool {
    forall|i: int| 0 <= i < events.len() ==> #[trigger] events[i] != SpecEvent::End(TagKind::CodeBlock)
}

/// Over events that close no code block, two states that differ only in
/// whether code blocks keep their fences go through states that differ only
/// in that.
pub proof fn law_run_fences(a: RenderState, b: RenderState, events: Seq<SpecEvent>)
    requires
        same_but_fences(a, b),
        closes_no_code_block(events),
    ensures
        same_but_fences(a.run(events), b.run(events)),
    decreases events.len(),
{
    if events.len() > 0 {
        assert(events[0] != SpecEvent::End(TagKind::CodeBlock));
        lemma_step_fences(a, b, events[0]);
        let rest = events.drop_first();
        assert forall|i: int| 0 <= i < rest.len() implies #[trigger] rest[i] != SpecEvent::End(
            TagKind::CodeBlock,
        ) by {
            assert(rest[i] == events[i + 1]);
        }
        law_run_fences(a.step(events[0]), b.step(events[0]), rest);
    }
}

/// A document without code blocks renders the same with or without preserved
/// fences: the same text and the same style changes.
pub proof fn law_fences_only_change_code_blocks(out: StyledView, events: Seq<SpecEvent>)
    requires
        closes_no_code_block(events),
    ensures
        RenderState::initial(out, true).run(events).out == RenderState::initial(out, false).run(
            events,
        ).out,
{
    law_run_fences(RenderState::initial(out, true), RenderState::initial(out, false), events);
}

/// An item's marker depends only on the innermost open list: when that list
/// is unordered, the item shows (on a line of its own) two spaces per nesting
/// level below the top, the bullet of its level (`-` at the top, `*` at the
/// second level, `+` from the third level on) and a space, whatever the lists
/// around it are; no counter changes.
pub proof fn law_item_of_unordered_list(s: RenderState)
    requires
        lists_consistent(s),
        s.list_depth > 0,
        !s.current_list_is_ordered[s.list_depth - 1],
    ensures
        s.step(SpecEvent::Start(SpecTag::Item)).out.text == s.out.text + (if s.last_was_space {
            Seq::empty()
        } else {
            seq!['\n']
        }) + repeat(' ', 2 * (s.list_depth - 1) as nat) + seq![
            if s.list_depth == 1 {
                '-'
            } else if s.list_depth == 2 {
                '*'
            } else {
                '+'
            },
            ' ',
        ],
        s.step(SpecEvent::Start(SpecTag::Item)).out.marks == s.out.marks,
        s.step(SpecEvent::Start(SpecTag::Item)).list_item_number == s.list_item_number,
{
    let b = s.break_line();
    assert(!b.item_is_ordered());
    let n = s.step(SpecEvent::Start(SpecTag::Item));
    assert(n.out == b.out.write(indent(b.list_depth) + seq![bullet(b.list_depth), ' ']));
    assert(n.out.text =~= s.out.text + (if s.last_was_space {
        Seq::empty()
    } else {
        seq!['\n']
    }) + repeat(' ', 2 * (s.list_depth - 1) as nat) + seq![bullet(s.list_depth), ' ']);
}

/// An item's number depends only on the innermost open list: when that list
/// is ordered, the item shows (on a line of its own) two spaces per nesting
/// level below the top, one more than the number of items that list has
/// counted, a dot and a space, and that list's counter goes up by one while
/// the other lists' counters stay.
pub proof fn law_item_of_ordered_list(s: RenderState)
    requires
        lists_consistent(s),
        s.list_depth > 0,
        s.current_list_is_ordered[s.list_depth - 1],
        s.list_item_number[s.list_depth - 1] < usize::MAX,
    ensures
        s.step(SpecEvent::Start(SpecTag::Item)).out.text == s.out.text + (if s.last_was_space {
            Seq::empty()
        } else {
            seq!['\n']
        }) + repeat(' ', 2 * (s.list_depth - 1) as nat) + decimal(
            (s.list_item_number[s.list_depth - 1] + 1) as nat,
        ) + seq!['.', ' '],
        s.step(SpecEvent::Start(SpecTag::Item)).list_item_number == s.list_item_number.update(
            s.list_depth - 1,
            (s.list_item_number[s.list_depth - 1] + 1) as usize,
        ),
{
    let b = s.break_line();
    assert(b.item_is_ordered());
    let c = RenderState { list_item_number: b.bumped_numbers(), ..b };
    assert(c.item_number() == s.list_item_number[s.list_depth - 1] + 1);
    assert(". "@ =~= seq!['.', ' ']) by {
        reveal_strlit(". ");
    }
    let n = s.step(SpecEvent::Start(SpecTag::Item));
    assert(n.out == c.out.write(indent(c.list_depth) + decimal(c.item_number() as nat) + ". "@));
    assert(n.out.text =~= s.out.text + (if s.last_was_space {
        Seq::empty()
    } else {
        seq!['\n']
    }) + repeat(' ', 2 * (s.list_depth - 1) as nat) + decimal(
        (s.list_item_number[s.list_depth - 1] + 1) as nat,
    ) + seq!['.', ' ']);
}

/// The end of a table writes the rows collected since the table began, then
/// a line feed, and leaves the renderer outside any table with no rows
/// collected, so that a following table shows only its own rows.
pub proof fn law_end_table_writes_its_rows_and_forgets_them(s: RenderState)
    ensures
        s.step(SpecEvent::End(TagKind::Table)).out.text == s.out.text + table_text(
            plain_rows(s.table_rows),
            s.table_header_count,
        ) + seq!['\n'],
        s.step(SpecEvent::End(TagKind::Table)).table_rows.len() == 0,
        s.step(SpecEvent::End(TagKind::Table)).table_header_count == 0,
        !s.step(SpecEvent::End(TagKind::Table)).in_table,
{
    lemma_table_view(s.out, s.table_rows, s.table_header_count);
}

/// After a code block the renderer is out of it: text that follows the block
/// (outside headings, images and tables) is written after the block.
pub proof fn law_text_after_code_block(s: RenderState, info: Option<Seq<char>>, code: Seq<char>, t: Seq<char>)
    requires
        s.heading_level is None,
        !s.in_image,
        !s.in_table,
    ensures
        !s.run(code_block_events(info, code)).in_code_block,
        s.run(code_block_events(info, code)).step(SpecEvent::Text(t)).out.text == s.run(
            code_block_events(info, code),
        ).out.text + t,
{
    lemma_run_three(s, code_block_events(info, code));
}

/// After an image the renderer is out of it: text that follows the image is
/// written after the image's marker, alternative text and location.
pub proof fn law_text_after_image(s: RenderState, url: Seq<char>, alt: Seq<char>, t: Seq<char>)
    requires
        s.heading_level is None,
        !s.in_table,
        !s.in_code_block,
    ensures
        !s.run(image_events(url, alt)).in_image,
        s.run(image_events(url, alt)).step(SpecEvent::Text(t)).out.text == s.out.text
            + crate::render::image_marker() + alt + seq![']', ' ', '('] + url + seq![')'] + t,
{
    law_image_shows_alt_and_url(s, url, alt);
    lemma_run_three(s, image_events(url, alt));
}

/// After a block quote the renderer is out of it: outside a heading, a soft
/// break writes a single space with no quote bar, and running text is written
/// without the quote's yellow, in the style its emphasis and links give it.
pub proof fn law_after_block_quote(s: RenderState, t: Seq<char>)
    requires
        s.heading_level is None,
    ensures
        s.step(SpecEvent::End(TagKind::BlockQuote)).out == s.out,
        s.step(SpecEvent::End(TagKind::BlockQuote)).step(SpecEvent::SoftBreak).out == s.out.write(
            seq![' '],
        ),
        (!s.in_image && !s.in_table && !s.in_code_block) ==> s.step(
            SpecEvent::End(TagKind::BlockQuote),
        ).step(SpecEvent::Text(t)).out == s.out.styled(
            Style {
                fg: if s.in_link {
                    Some(Color::Blue)
                } else {
                    None
                },
                bold: s.in_strong,
                intense: false,
                italic: s.in_emphasis,
                underline: s.in_link,
                strikethrough: s.in_strikethrough,
            },
            t,
        ),
{
}

} // verus!
