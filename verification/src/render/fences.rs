//! Whether code blocks keep their fences matters only where a code block
//! ends.

use vstd::prelude::*;
use crate::events::{SpecTag, TagKind};
use crate::render::RenderState;

verus! {

/// `a` and `b` agree on everything but whether code blocks keep their fences.
pub open spec fn same_but_fences(a: RenderState, b: RenderState) -> bool {
    &&& a.out == b.out
    &&& a.heading_level == b.heading_level
    &&& a.heading_buf == b.heading_buf
    &&& a.list_depth == b.list_depth
    &&& a.list_item_number == b.list_item_number
    &&& a.current_list_is_ordered == b.current_list_is_ordered
    &&& a.last_was_space == b.last_was_space
    &&& a.in_emphasis == b.in_emphasis
    &&& a.in_strong == b.in_strong
    &&& a.in_strikethrough == b.in_strikethrough
    &&& a.in_code_block == b.in_code_block
    &&& a.in_blockquote == b.in_blockquote
    &&& a.in_link == b.in_link
    &&& a.link_url == b.link_url
    &&& a.in_image == b.in_image
    &&& a.image_alt == b.image_alt
    &&& a.image_url == b.image_url
    &&& a.code_buf == b.code_buf
    &&& a.code_lang == b.code_lang
    &&& a.in_table == b.in_table
    &&& a.in_table_head == b.in_table_head
    &&& a.current_cell == b.current_cell
    &&& a.current_row == b.current_row
    &&& a.table_rows == b.table_rows
    &&& a.table_header_count == b.table_header_count
}

#[verifier::spinoff_prover]
proof fn lemma_item_fences(a: RenderState, b: RenderState)
    requires
        same_but_fences(a, b),
    ensures
        same_but_fences(a.list_item_start(), b.list_item_start()),
{
}

#[verifier::spinoff_prover]
#[verifier::rlimit(60)]
pub proof fn lemma_start_tag_fences(a: RenderState, b: RenderState, t: SpecTag)
    requires
        same_but_fences(a, b),
    ensures
        same_but_fences(a.start_tag(t), b.start_tag(t)),
{
    match t {
        SpecTag::Item => lemma_item_fences(a, b),
        SpecTag::Heading(level) => assert(same_but_fences(a.start_heading(level), b.start_heading(level))),
        SpecTag::List(start) => assert(same_but_fences(a.start_list(start), b.start_list(start))),
        SpecTag::Link(url) => assert(same_but_fences(a.start_link(url), b.start_link(url))),
        SpecTag::Image(url) => assert(same_but_fences(a.start_image(url), b.start_image(url))),
        SpecTag::CodeBlock(info) => assert(same_but_fences(a.start_code_block(info), b.start_code_block(info))),
        SpecTag::BlockQuote => assert(same_but_fences(a.start_blockquote(), b.start_blockquote())),
        SpecTag::Table => assert(same_but_fences(a.start_table(), b.start_table())),
        SpecTag::TableHead => assert(same_but_fences(a.start_table_head(), b.start_table_head())),
        SpecTag::TableRow => assert(same_but_fences(a.start_table_row(), b.start_table_row())),
        SpecTag::TableCell => assert(same_but_fences(a.start_table_cell(), b.start_table_cell())),
        _ => {},
    }
}

#[verifier::spinoff_prover]
#[verifier::rlimit(60)]
pub proof fn lemma_end_tag_fences(a: RenderState, b: RenderState, k: TagKind)
    requires
        same_but_fences(a, b),
        k != TagKind::CodeBlock,
    ensures
        same_but_fences(a.end_tag(k), b.end_tag(k)),
{
    match k {
        TagKind::TableCell => assert(same_but_fences(a.end_table_cell(), b.end_table_cell())),
        TagKind::TableRow => assert(same_but_fences(a.end_table_row(), b.end_table_row())),
        TagKind::TableHead => assert(same_but_fences(a.end_table_head(), b.end_table_head())),
        TagKind::Table => assert(same_but_fences(a.end_table(), b.end_table())),
        TagKind::Paragraph => assert(same_but_fences(a.end_paragraph(), b.end_paragraph())),
        TagKind::Heading => assert(same_but_fences(a.end_heading(), b.end_heading())),
        TagKind::List => assert(same_but_fences(a.end_list(), b.end_list())),
        TagKind::Item => assert(same_but_fences(a.end_item(), b.end_item())),
        TagKind::Link => assert(same_but_fences(a.end_link(), b.end_link())),
        TagKind::Image => assert(same_but_fences(a.end_image(), b.end_image())),
        TagKind::BlockQuote => assert(same_but_fences(a.end_blockquote(), b.end_blockquote())),
        _ => {},
    }
}

} // verus!
