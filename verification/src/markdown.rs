//! Markdown to styled terminal text: the document is parsed into events, and
//! the renderer handles them one after another.

use vstd::prelude::*;
use crate::events::{
    events_view, markdown_events, parse_events, MdEvent, SpecEvent, SpecTag, TagKind,
    RENDER_OPTIONS,
};
use crate::render::{MarkdownRenderer, RenderState};
use crate::style::{StyledText, StyledView};

verus! {

/// The list counters of `s` are all at most `k`.
pub open spec fn counters_at_most(s: RenderState, k: int) -> bool {
    &&& s.list_depth <= k
    &&& forall|i: int| 0 <= i < s.list_item_number.len() ==> #[trigger] s.list_item_number[i] <= k
}

/// The start of a list or a list item raises the list counters by one at
/// most.
proof fn lemma_start_tag_counters(s: RenderState, t: SpecTag, k: int)
    requires
        counters_at_most(s, k),
    ensures
        counters_at_most(s.start_tag(t), k + 1),
{
    match t {
        SpecTag::List(start) => {
            let n = s.start_list(start);
            assert forall|i: int| 0 <= i < n.list_item_number.len() implies #[trigger] n.list_item_number[i]
                <= k + 1 by {
                if i < s.list_item_number.len() {
                    assert(s.list_item_number[i] <= k);
                }
            }
        },
        SpecTag::Item => {
            let b = s.break_line();
            let n = s.list_item_start();
            assert(b.list_item_number == s.list_item_number);
            assert forall|i: int| 0 <= i < n.list_item_number.len() implies #[trigger] n.list_item_number[i]
                <= k + 1 by {
                if i < s.list_item_number.len() {
                    assert(s.list_item_number[i] <= k);
                }
            }
        },
        _ => {},
    }
}

/// The end of an element never raises the list counters.
proof fn lemma_end_tag_counters(s: RenderState, t: TagKind, k: int)
    requires
        counters_at_most(s, k),
    ensures
        counters_at_most(s.end_tag(t), k),
{
}

/// One event raises the list counters by one at most.
proof fn lemma_step_counters(s: RenderState, e: SpecEvent, k: int)
    requires
        counters_at_most(s, k),
    ensures
        counters_at_most(s.step(e), k + 1),
{
    match e {
        SpecEvent::Start(t) => lemma_start_tag_counters(s, t, k),
        SpecEvent::End(t) => lemma_end_tag_counters(s, t, k),
        _ => {},
    }
}

/// The styled text that the events `events` render to after `out`.
pub open spec fn rendered_after(out: StyledView, events: Seq<SpecEvent>, preserve_fences: bool) -> StyledView {
    RenderState::initial(out, preserve_fences).run(events).out
}

/// Renders the events `events` after the output `output` holds.
pub fn render_events(events: &Vec<MdEvent>, preserve_fences: bool, output: &mut StyledText)
    ensures
        final(output)@ == rendered_after(old(output)@, events_view(events@), preserve_fences),
{
    let ghost evs = events_view(events@);
    let mut out = StyledText::new();
    std::mem::swap(&mut out, output);
    let mut r = MarkdownRenderer::new(out, preserve_fences);
    let ghost start = r@;
    let n = events.len();
    let mut i: usize = 0;
    assert(evs.skip(0) =~= evs);
    while i < n
        invariant
            n == events@.len(),
            evs == events_view(events@),
            i <= n,
            start.run(evs) == r@.run(evs.skip(i as int)),
            counters_at_most(r@, i as int),
        decreases n - i,
    {
        assert(evs[i as int] == events@[i as int]@);
        assert(evs.skip(i as int).drop_first() =~= evs.skip(i + 1));
        proof {
            lemma_step_counters(r@, evs[i as int], i as int);
        }
        r.handle_event(&events[i]);
        i = i + 1;
    }
    *output = r.into_output();
}

/// Renders the Markdown document `md` after the output `output` holds, with
/// code blocks between their fences when `preserve_fences`. The document is
/// parsed with strikethrough, tables, footnotes and task lists.
pub fn render_markdown(md: &str, preserve_fences: bool, output: &mut StyledText)
    ensures
        final(output)@ == rendered_after(
            old(output)@,
            markdown_events(md@, RENDER_OPTIONS),
            preserve_fences,
        ),
{
    let events = parse_events(md, RENDER_OPTIONS);
    render_events(&events, preserve_fences, output);
}

} // verus!
