//! Template substitution and the public rendering entry point for a
//! history-summary payload.
use vstd::prelude::*;
use crate::node::{Node, NodeAbs, nodes_abs, HistorySummaryPayload, HistoryEndExchange};
use crate::render::{
    build_exchange_render_ctx, build_ctx_parts, render_exchange_full, render_exchange_spec,
    exchange_ctx_spec, build_ctx_spec, CtxAbs,
};
use crate::text::{
    is_blank, blank, clone_chars, push_all, push_str, contains_chars, replace_chars, contains_seq,
    replace_spec, dec_spec, dec_chars, chars_to_string,
};

verus! {

/// One placeholder substitution: literal find-and-replace, applied only when
/// the token occurs in the template.
pub open spec fn subst_spec(t: Seq<char>, k: Seq<char>, v: Seq<char>) -> Seq<char> {
    if contains_seq(t, k) {
        replace_spec(t, k, v)
    } else {
        t
    }
}

/// Substitutions applied for each pair in order, each once.
pub open spec fn subst_list_spec(t: Seq<char>, pairs: Seq<(Seq<char>, Seq<char>)>) -> Seq<char>
    decreases pairs.len(),
{
    if pairs.len() == 0 {
        t
    } else {
        subst_list_spec(subst_spec(t, pairs.first().0, pairs.first().1), pairs.drop_first())
    }
}

fn subst_token(t: &Vec<char>, k: &Vec<char>, v: &Vec<char>) -> (r: Vec<char>)
    requires
        k@.len() > 0,
    ensures
        r@ == subst_spec(t@, k@, v@),
{
    if contains_chars(t, k) {
        replace_chars(t, k, v)
    } else {
        clone_chars(t)
    }
}

pub open spec fn pairs_abs(l: Seq<(Vec<char>, Vec<char>)>) -> Seq<(Seq<char>, Seq<char>)> {
    l.map_values(|p: (Vec<char>, Vec<char>)| (p.0@, p.1@))
}

/// Fills a template: each key of `repl` whose token occurs in the template is
/// replaced by its value, in order, once per key. Keys are placeholder tokens
/// and therefore never empty.
pub fn replace_placeholders(template: &Vec<char>, repl: &Vec<(Vec<char>, Vec<char>)>) -> (r: Vec<
    char,
>)
    requires
        forall|i: int| 0 <= i < repl@.len() ==> (#[trigger] repl@[i]).0@.len() > 0,
    ensures
        r@ == subst_list_spec(template@, pairs_abs(repl@)),
{
    proof {
        assert(pairs_abs(repl@).skip(0) =~= pairs_abs(repl@));
    }
    let mut t = clone_chars(template);
    let mut i: usize = 0;
    while i < repl.len()
        invariant
            0 <= i <= repl@.len(),
            forall|j: int| 0 <= j < repl@.len() ==> (#[trigger] repl@[j]).0@.len() > 0,
            subst_list_spec(t@, pairs_abs(repl@).skip(i as int)) == subst_list_spec(
                template@,
                pairs_abs(repl@),
            ),
        decreases repl@.len() - i,
    {
        let ghost rest = pairs_abs(repl@).skip(i as int);
        proof {
            assert(rest.first() == (repl@[i as int].0@, repl@[i as int].1@));
            assert(rest.drop_first() =~= pairs_abs(repl@).skip(i + 1));
        }
        t = subst_token(&t, &repl[i].0, &repl[i].1);
        i += 1;
    }
    proof {
        assert(pairs_abs(repl@).skip(repl@.len() as int) =~= Seq::<(Seq<char>, Seq<char>)>::empty());
    }
    t
}

/// The rendered block of one preserved exchange.
pub open spec fn exchange_render(e: HistoryEndExchange) -> Seq<char> {
    render_exchange_spec(exchange_ctx_spec(e))
}

pub open spec fn renders_list(ends: Seq<HistoryEndExchange>) -> Seq<Seq<char>> {
    ends.map_values(|e: HistoryEndExchange| exchange_render(e))
}

/// Blocks joined with a single newline between them.
pub open spec fn join_nl(parts: Seq<Seq<char>>) -> Seq<char>
    decreases parts.len(),
{
    if parts.len() == 0 {
        Seq::empty()
    } else if parts.len() == 1 {
        parts[0]
    } else {
        join_nl(parts.drop_last()) + seq!['\n'] + parts.last()
    }
}

/// The context of the synthetic exchange that carries extra tool results:
/// the extra nodes stand as its request nodes, everything else is empty.
pub open spec fn synth_ctx(extra: Seq<NodeAbs>) -> CtxAbs {
    build_ctx_spec(extra, Seq::empty(), Seq::empty(), Seq::empty())
}

/// The `{end_part_full}` text: every preserved tail exchange rendered in order,
/// followed, when extra tool results are present, by one synthetic exchange
/// holding them, all joined with single newlines.
pub open spec fn end_part_spec(ends: Seq<HistoryEndExchange>, extra: Seq<NodeAbs>) -> Seq<char> {
    if extra.len() == 0 {
        join_nl(renders_list(ends))
    } else {
        join_nl(renders_list(ends).push(render_exchange_spec(synth_ctx(extra))))
    }
}

/// The fully rendered summary text for a payload and extra tool-result nodes:
/// the template with each recognized placeholder substituted once, in order.
pub open spec fn rendered_summary_spec(p: HistorySummaryPayload, extra: Seq<NodeAbs>) -> Seq<char> {
    let t1 = subst_spec(p.message_template@, "{summary}"@, p.summary_text@);
    let t2 = subst_spec(t1, "{summarization_request_id}"@, p.summarization_request_id@);
    let t3 = subst_spec(
        t2,
        "{beginning_part_dropped_num_exchanges}"@,
        dec_spec(p.history_beginning_dropped_num_exchanges as int),
    );
    let t4 = subst_spec(t3, "{middle_part_abridged}"@, p.history_middle_abridged_text@);
    let t5 = subst_spec(t4, "{end_part_full}"@, end_part_spec(p.history_end@, extra));
    subst_spec(t5, "{abridged_history}"@, p.history_middle_abridged_text@)
}

/// The `{end_part_full}` text, as characters.
fn render_end_part(ends: &Vec<HistoryEndExchange>, extra: &Vec<Node>) -> (r: Vec<char>)
    ensures
        r@ == end_part_spec(ends@, nodes_abs(extra@)),
{
    let mut out: Vec<char> = Vec::new();
    let mut i: usize = 0;
    while i < ends.len()
        invariant
            0 <= i <= ends@.len(),
            out@ == join_nl(renders_list(ends@.take(i as int))),
        decreases ends@.len() - i,
    {
        let ghost r1 = renders_list(ends@.take(i + 1));
        proof {
            assert(r1.drop_last() =~= renders_list(ends@.take(i as int)));
            assert(r1.last() == exchange_render(ends@[i as int]));
        }
        let ctx = build_exchange_render_ctx(&ends[i]);
        let block = render_exchange_full(&ctx);
        if i > 0 {
            out.push('\n');
        }
        push_all(&mut out, &block);
        proof {
            if i == 0 {
                assert(out@ =~= join_nl(r1));
            } else {
                assert(out@ =~= join_nl(r1));
            }
        }
        i += 1;
    }
    proof {
        assert(ends@.take(ends@.len() as int) =~= ends@);
    }
    if extra.len() > 0 {
        let ghost parts = renders_list(ends@).push(render_exchange_spec(synth_ctx(nodes_abs(extra@))));
        proof {
            assert(parts.drop_last() =~= renders_list(ends@));
            assert(nodes_abs(Seq::<Node>::empty()) =~= Seq::<NodeAbs>::empty());
        }
        let empty_msg: Vec<char> = Vec::new();
        let empty_nodes: Vec<Node> = Vec::new();
        let empty_text: Vec<char> = Vec::new();
        let ctx = build_ctx_parts(extra, &empty_msg, &empty_nodes, &empty_text);
        let block = render_exchange_full(&ctx);
        if ends.len() > 0 {
            out.push('\n');
        }
        push_all(&mut out, &block);
        proof {
            if ends@.len() == 0 {
                assert(out@ =~= join_nl(parts));
            } else {
                assert(out@ =~= join_nl(parts));
            }
        }
    }
    out
}

/// Renders a summary payload, or nothing when its template is blank, as
/// characters.
pub(crate) fn render_summary_chars(p: &HistorySummaryPayload, extra_tool_results: &Vec<Node>) -> (r:
    Option<Vec<char>>)
    ensures
        r is Some <==> !is_blank(p.message_template@),
        r matches Some(s) ==> s@ == rendered_summary_spec(*p, nodes_abs(extra_tool_results@)),
{
    if blank(&p.message_template) {
        return None;
    }
    let end_full = render_end_part(&p.history_end, extra_tool_results);
    let dropped = dec_chars(p.history_beginning_dropped_num_exchanges);
    proof {
        reveal_strlit("{summary}");
        reveal_strlit("{summarization_request_id}");
        reveal_strlit("{beginning_part_dropped_num_exchanges}");
        reveal_strlit("{middle_part_abridged}");
        reveal_strlit("{end_part_full}");
        reveal_strlit("{abridged_history}");
    }
    let mut k1: Vec<char> = Vec::new();
    push_str(&mut k1, "{summary}");
    let mut k2: Vec<char> = Vec::new();
    push_str(&mut k2, "{summarization_request_id}");
    let mut k3: Vec<char> = Vec::new();
    push_str(&mut k3, "{beginning_part_dropped_num_exchanges}");
    let mut k4: Vec<char> = Vec::new();
    push_str(&mut k4, "{middle_part_abridged}");
    let mut k5: Vec<char> = Vec::new();
    push_str(&mut k5, "{end_part_full}");
    let mut k6: Vec<char> = Vec::new();
    push_str(&mut k6, "{abridged_history}");
    let t1 = subst_token(&p.message_template, &k1, &p.summary_text);
    let t2 = subst_token(&t1, &k2, &p.summarization_request_id);
    let t3 = subst_token(&t2, &k3, &dropped);
    let t4 = subst_token(&t3, &k4, &p.history_middle_abridged_text);
    let t5 = subst_token(&t4, &k5, &end_full);
    let t6 = subst_token(&t5, &k6, &p.history_middle_abridged_text);
    Some(t6)
}

/// Renders a summary payload with any extra tool-result nodes folded in as one
/// synthetic trailing exchange; yields nothing exactly when the payload's
/// message template is blank.
pub fn render_history_summary_node_value(p: &HistorySummaryPayload, extra_tool_results: &Vec<
    Node,
>) -> (r: Option<String>)
    ensures
        r is Some <==> !is_blank(p.message_template@),
        r matches Some(s) ==> s@ == rendered_summary_spec(*p, nodes_abs(extra_tool_results@)),
{
    match render_summary_chars(p, extra_tool_results) {
        Some(v) => Some(chars_to_string(&v)),
        None => None,
    }
}

} // verus!
