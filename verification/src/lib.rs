//! Terminal rendering of Markdown: the rules that decide what text and which
//! colours a Markdown document becomes on a terminal.

pub mod events;
pub mod markdown;
pub mod render;
pub mod sanitize;
pub mod style;
pub mod text;

use vstd::prelude::*;
use crate::events::{markdown_events, RENDER_OPTIONS};
use crate::markdown::rendered_after;
use crate::style::StyledText;

verus! {

/// Renders the Markdown document `md` into `output`: the same renderer the
/// command line uses, with the output handed in.
pub fn render_markdown_to_writer(md: &str, preserve_fences: bool, output: &mut StyledText)
    ensures
        final(output)@ == rendered_after(
            old(output)@,
            markdown_events(md@, RENDER_OPTIONS),
            preserve_fences,
        ),
{
    markdown::render_markdown(md, preserve_fences, output)
}

} // verus!
