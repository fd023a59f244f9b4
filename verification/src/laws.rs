//! Library-wide laws, stated and proved over the same spec functions that the
//! executable functions' contracts use.
use vstd::prelude::*;
use crate::node::{
    HistoryEntry, Node, NodeAbs, NodeAbsData, HistorySummaryPayload, is_summary_node,
    is_tool_result_node,
};
use crate::text::{is_blank, contains_seq, matches_at};
use crate::render::{
    ToolResultAbs, render_tool_result_spec, render_tool_results_spec, tool_results_sel,
    user_section_spec, agent_section_spec, render_exchange_spec,
};
use crate::summary::{
    rendered_summary_spec, end_part_spec, join_nl, renders_list, synth_ctx,
};
use crate::compact::{
    first_marker_at, marker_outcome, renderable_marker, compacted_from, checkpoint_at,
};
use crate::node::HistoryEndExchange;

verus! {

/// Rendering is a function of the payload and the extra tool-result nodes
/// alone: any two renderings of the same inputs are character-identical.
pub proof fn lemma_rendering_idempotent(
    p: HistorySummaryPayload,
    extra: Seq<NodeAbs>,
    s1: Seq<char>,
    s2: Seq<char>,
)
    requires
        s1 == rendered_summary_spec(p, extra),
        s2 == rendered_summary_spec(p, extra),
    ensures
        s1 == s2,
{
}

/// When the marker cannot be rendered, processing it preserves the merged node
/// list exactly: no node is added, removed, or retyped.
pub proof fn lemma_fallback_preserves_nodes(e1: HistoryEntry, m: Seq<Node>, p: int)
    requires
        first_marker_at(m, p),
        !renderable_marker(m[p]),
        marker_outcome(e1, m, p),
    ensures
        e1.request_nodes@ == m,
{
}

/// A compaction at checkpoint `k` cuts a history of length `n` down to
/// exactly `n - k` entries, and nothing before the checkpoint survives.
pub proof fn lemma_checkpoint_truncation(
    h0: Seq<HistoryEntry>,
    h1: Seq<HistoryEntry>,
    k: int,
)
    requires
        compacted_from(h0, h1, k),
    ensures
        h1.len() == h0.len() - k,
        checkpoint_at(h0, k),
{
}

/// When the marker was rendered, the surviving node list holds no summary
/// marker and no tool-result node.
pub proof fn lemma_no_duplication_on_success(e1: HistoryEntry, m: Seq<Node>, p: int)
    requires
        first_marker_at(m, p),
        renderable_marker(m[p]),
        marker_outcome(e1, m, p),
    ensures
        forall|i: int|
            0 <= i < e1.request_nodes@.len() ==> !is_summary_node(#[trigger] e1.request_nodes@[i])
                && !is_tool_result_node(e1.request_nodes@[i]),
{
}

/// The selected tool result described by a tool-result node.
pub open spec fn tr_abs_of(d: NodeAbsData) -> ToolResultAbs
    recommends
        d is ToolResult,
{
    match d {
        NodeAbsData::ToolResult { tool_use_id, content, is_error } => ToolResultAbs {
            id: tool_use_id,
            content,
            is_error,
        },
        _ => arbitrary(),
    }
}

proof fn lemma_contains_left(a: Seq<char>, b: Seq<char>, x: Seq<char>)
    requires
        contains_seq(b, x),
    ensures
        contains_seq(a + b, x),
{
    let i = choose|i: int| matches_at(b, x, i);
    let n: int = a.len() as int;
    assert((a + b).subrange(n + i, n + i + x.len() as int) =~= b.subrange(i, i + x.len() as int));
    assert(matches_at(a + b, x, n + i));
}

proof fn lemma_contains_right(a: Seq<char>, b: Seq<char>, x: Seq<char>)
    requires
        contains_seq(a, x),
    ensures
        contains_seq(a + b, x),
{
    let i = choose|i: int| matches_at(a, x, i);
    assert((a + b).subrange(i, i + x.len() as int) =~= a.subrange(i, i + x.len() as int));
    assert(matches_at(a + b, x, i));
}

proof fn lemma_contains_trans(s: Seq<char>, t: Seq<char>, u: Seq<char>)
    requires
        contains_seq(s, t),
        contains_seq(t, u),
    ensures
        contains_seq(s, u),
{
    let i = choose|i: int| matches_at(s, t, i);
    let j = choose|j: int| matches_at(t, u, j);
    assert(t == s.subrange(i, i + t.len() as int));
    assert(s.subrange(i + j, i + j + u.len() as int) =~= t.subrange(j, j + u.len() as int));
    assert(matches_at(s, u, i + j));
}

proof fn lemma_join_nl_contains_last(parts: Seq<Seq<char>>)
    requires
        parts.len() > 0,
    ensures
        contains_seq(join_nl(parts), parts.last()),
{
    let j = join_nl(parts);
    if parts.len() == 1 {
        assert(j.subrange(0, parts.last().len() as int) =~= parts.last());
        assert(matches_at(j, parts.last(), 0));
    } else {
        let pos: int = join_nl(parts.drop_last()).len() as int + 1;
        assert(j.subrange(pos, pos + parts.last().len() as int) =~= parts.last());
        assert(matches_at(j, parts.last(), pos));
    }
}

proof fn lemma_render_trs_contains(l: Seq<ToolResultAbs>, idx: int)
    requires
        0 <= idx < l.len(),
    ensures
        contains_seq(render_tool_results_spec(l), render_tool_result_spec(l[idx])),
    decreases l.len(),
{
    let block = render_tool_result_spec(l[idx]);
    if idx == l.len() - 1 {
        assert(block.subrange(0, block.len() as int) =~= block);
        assert(matches_at(block, block, 0));
        lemma_contains_left(render_tool_results_spec(l.drop_last()), block, block);
    } else {
        lemma_render_trs_contains(l.drop_last(), idx);
        lemma_contains_right(
            render_tool_results_spec(l.drop_last()),
            render_tool_result_spec(l.last()),
            block,
        );
    }
}

proof fn lemma_sel_index(ns: Seq<NodeAbs>, j: int)
    requires
        0 <= j < ns.len(),
        ns[j].data is ToolResult,
        !is_blank(tr_abs_of(ns[j].data).id),
    ensures
        exists|idx: int|
            0 <= idx < tool_results_sel(ns).len() && #[trigger] tool_results_sel(ns)[idx]
                == tr_abs_of(ns[j].data),
    decreases ns.len(),
{
    if j == ns.len() - 1 {
        let idx = tool_results_sel(ns.drop_last()).len() as int;
        assert(tool_results_sel(ns)[idx] == tr_abs_of(ns[j].data));
    } else {
        lemma_sel_index(ns.drop_last(), j);
        let idx = choose|idx: int|
            0 <= idx < tool_results_sel(ns.drop_last()).len()
                && #[trigger] tool_results_sel(ns.drop_last())[idx] == tr_abs_of(ns[j].data);
        assert(tool_results_sel(ns)[idx] == tr_abs_of(ns[j].data));
    }
}

/// Tool results handed in beside the payload are folded into the rendered
/// `{end_part_full}` text: each extra tool-result node with a non-blank
/// identifier appears there as its own rendered block, which carries that
/// identifier and the node's content.
pub proof fn lemma_tail_tool_results_folded(
    ends: Seq<HistoryEndExchange>,
    extra: Seq<NodeAbs>,
    j: int,
)
    requires
        0 <= j < extra.len(),
        extra[j].data is ToolResult,
        !is_blank(tr_abs_of(extra[j].data).id),
    ensures
        contains_seq(end_part_spec(ends, extra), render_tool_result_spec(tr_abs_of(extra[j].data))),
{
    let tr = tr_abs_of(extra[j].data);
    let block = render_tool_result_spec(tr);
    let ctx = synth_ctx(extra);
    lemma_sel_index(extra, j);
    let idx = choose|idx: int|
        0 <= idx < tool_results_sel(extra).len() && #[trigger] tool_results_sel(extra)[idx] == tr;
    lemma_render_trs_contains(ctx.tool_results, idx);
    let open_user = "<exchange>\n  <user_request_or_tool_results>\n"@ + (if is_blank(
        ctx.user_message,
    ) {
        Seq::<char>::empty()
    } else {
        crate::text::trim_end_newlines_spec(ctx.user_message) + "\n"@
    });
    lemma_contains_left(open_user, render_tool_results_spec(ctx.tool_results), block);
    lemma_contains_right(
        open_user + render_tool_results_spec(ctx.tool_results),
        "  </user_request_or_tool_results>\n"@,
        block,
    );
    assert(user_section_spec(ctx) =~= open_user + render_tool_results_spec(ctx.tool_results)
        + "  </user_request_or_tool_results>\n"@);
    lemma_contains_right(user_section_spec(ctx), agent_section_spec(ctx), block);
    lemma_contains_right(
        user_section_spec(ctx) + agent_section_spec(ctx),
        "</exchange>"@,
        block,
    );
    let synth_block = render_exchange_spec(ctx);
    assert(contains_seq(synth_block, block));
    let parts = renders_list(ends).push(synth_block);
    lemma_join_nl_contains_last(parts);
    assert(parts.last() == synth_block);
    lemma_contains_trans(end_part_spec(ends, extra), synth_block, block);
}

} // verus!
