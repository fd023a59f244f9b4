//! The exchange renderer: normalizes one preserved exchange into a render
//! context and renders it as a fixed nested-tag text block.
use vstd::prelude::*;
use crate::node::{Node, NodeData, NodeAbs, NodeAbsData, nodes_abs, HistoryEndExchange};
use crate::text::{
    is_blank, trim_spec, trim_end_newlines_spec, blank, trim, trim_end_newlines, clone_chars,
    push_all, push_str,
};

verus! {

/// One tool result selected for rendering.
pub struct ToolResultCtx {
    pub id: Vec<char>,
    pub content: Vec<char>,
    pub is_error: bool,
}

/// One tool use selected for rendering.
pub struct ToolUseCtx {
    pub name: Vec<char>,
    pub id: Vec<char>,
    pub input: Vec<char>,
}

/// Normalized view of one exchange, built fresh for each rendering.
pub struct ExchangeRenderCtx {
    pub user_message: Vec<char>,
    pub tool_results: Vec<ToolResultCtx>,
    pub thinking: Vec<char>,
    pub response_text: Vec<char>,
    pub tool_uses: Vec<ToolUseCtx>,
    pub has_response: bool,
}

/// Abstraction of a selected tool result.
pub struct ToolResultAbs {
    pub id: Seq<char>,
    pub content: Seq<char>,
    pub is_error: bool,
}

/// Abstraction of a selected tool use.
pub struct ToolUseAbs {
    pub name: Seq<char>,
    pub id: Seq<char>,
    pub input: Seq<char>,
}

/// Abstraction of a render context.
pub struct CtxAbs {
    pub user_message: Seq<char>,
    pub tool_results: Seq<ToolResultAbs>,
    pub thinking: Seq<char>,
    pub response_text: Seq<char>,
    pub tool_uses: Seq<ToolUseAbs>,
    pub has_response: bool,
}

pub open spec fn ctx_abs(c: ExchangeRenderCtx) -> CtxAbs {
    CtxAbs {
        user_message: c.user_message@,
        tool_results: c.tool_results@.map_values(
            |t: ToolResultCtx| ToolResultAbs { id: t.id@, content: t.content@, is_error: t.is_error },
        ),
        thinking: c.thinking@,
        response_text: c.response_text@,
        tool_uses: c.tool_uses@.map_values(
            |t: ToolUseCtx| ToolUseAbs { name: t.name@, id: t.id@, input: t.input@ },
        ),
        has_response: c.has_response,
    }
}

/// The `content` of every text node, in order.
pub open spec fn text_fragments(ns: Seq<NodeAbs>) -> Seq<Seq<char>>
    decreases ns.len(),
{
    if ns.len() == 0 {
        Seq::empty()
    } else {
        text_fragments(ns.drop_last()) + (match ns.last().data {
            NodeAbsData::Text { content } => seq![content],
            _ => Seq::empty(),
        })
    }
}

/// The non-blank `summary` of every thinking node, in order.
pub open spec fn thinking_fragments(ns: Seq<NodeAbs>) -> Seq<Seq<char>>
    decreases ns.len(),
{
    if ns.len() == 0 {
        Seq::empty()
    } else {
        thinking_fragments(ns.drop_last()) + (match ns.last().data {
            NodeAbsData::Thinking { summary } => if !is_blank(summary) {
                seq![summary]
            } else {
                Seq::empty()
            },
            _ => Seq::empty(),
        })
    }
}

/// Every tool-result node whose identifier is not blank, in order.
pub open spec fn tool_results_sel(ns: Seq<NodeAbs>) -> Seq<ToolResultAbs>
    decreases ns.len(),
{
    if ns.len() == 0 {
        Seq::empty()
    } else {
        tool_results_sel(ns.drop_last()) + (match ns.last().data {
            NodeAbsData::ToolResult { tool_use_id, content, is_error } => if !is_blank(
                tool_use_id,
            ) {
                seq![ToolResultAbs { id: tool_use_id, content, is_error }]
            } else {
                Seq::empty()
            },
            _ => Seq::empty(),
        })
    }
}

/// Every tool-use node whose identifier and name are both non-blank, in order.
pub open spec fn tool_uses_sel(ns: Seq<NodeAbs>) -> Seq<ToolUseAbs>
    decreases ns.len(),
{
    if ns.len() == 0 {
        Seq::empty()
    } else {
        tool_uses_sel(ns.drop_last()) + (match ns.last().data {
            NodeAbsData::ToolUse { tool_name, tool_use_id, input_json } => if !is_blank(
                tool_use_id,
            ) && !is_blank(tool_name) {
                seq![ToolUseAbs { name: tool_name, id: tool_use_id, input: input_json }]
            } else {
                Seq::empty()
            },
            _ => Seq::empty(),
        })
    }
}

/// The content of the last finished-main-text node with non-blank content.
pub open spec fn last_finished(ns: Seq<NodeAbs>) -> Option<Seq<char>>
    decreases ns.len(),
{
    if ns.len() == 0 {
        None
    } else {
        match ns.last().data {
            NodeAbsData::MainTextFinished { content } => if !is_blank(content) {
                Some(content)
            } else {
                last_finished(ns.drop_last())
            },
            _ => last_finished(ns.drop_last()),
        }
    }
}

/// The concatenation of every non-blank raw streaming response, in order.
pub open spec fn raw_concat(ns: Seq<NodeAbs>) -> Seq<char>
    decreases ns.len(),
{
    if ns.len() == 0 {
        Seq::empty()
    } else {
        raw_concat(ns.drop_last()) + (match ns.last().data {
            NodeAbsData::RawResponse { content } => if !is_blank(content) {
                content
            } else {
                Seq::empty()
            },
            _ => Seq::empty(),
        })
    }
}

/// Line-join normalization, processing fragments left to right onto `acc`:
/// trailing newlines are dropped from a fragment, fragments left empty are
/// skipped, and the rest are joined with a single newline.
pub open spec fn join_norm_from(acc: Seq<char>, frags: Seq<Seq<char>>) -> Seq<char>
    decreases frags.len(),
{
    if frags.len() == 0 {
        acc
    } else {
        let t = trim_end_newlines_spec(frags.first());
        let acc2 = if t.len() == 0 {
            acc
        } else if acc.len() == 0 {
            t
        } else {
            acc + seq!['\n'] + t
        };
        join_norm_from(acc2, frags.drop_first())
    }
}

pub open spec fn join_norm(frags: Seq<Seq<char>>) -> Seq<char> {
    join_norm_from(Seq::empty(), frags)
}

/// The normalized user message: joined text-node contents, or the exchange's
/// plain request message when the joined text is blank.
pub open spec fn user_message_spec(req_nodes: Seq<NodeAbs>, req_msg: Seq<char>) -> Seq<char> {
    let joined = join_norm(text_fragments(req_nodes));
    if is_blank(joined) {
        req_msg
    } else {
        joined
    }
}

/// The normalized response text: the last non-blank finished text if any, else
/// the concatenated raw responses, both trimmed; when that is empty, the
/// exchange's plain response text, trimmed.
pub open spec fn response_text_spec(resp_nodes: Seq<NodeAbs>, resp_text: Seq<char>) -> Seq<char> {
    let base = match last_finished(resp_nodes) {
        Some(c) => trim_spec(c),
        None => trim_spec(raw_concat(resp_nodes)),
    };
    if base.len() == 0 {
        trim_spec(resp_text)
    } else {
        base
    }
}

/// The whole normalized render context for one exchange.
pub open spec fn build_ctx_spec(
    req_nodes: Seq<NodeAbs>,
    req_msg: Seq<char>,
    resp_nodes: Seq<NodeAbs>,
    resp_text: Seq<char>,
) -> CtxAbs {
    let thinking = join_norm(thinking_fragments(resp_nodes));
    let response_text = response_text_spec(resp_nodes, resp_text);
    let tool_uses = tool_uses_sel(resp_nodes);
    CtxAbs {
        user_message: user_message_spec(req_nodes, req_msg),
        tool_results: tool_results_sel(req_nodes),
        thinking,
        response_text,
        tool_uses,
        has_response: thinking.len() > 0 || response_text.len() > 0 || tool_uses.len() > 0,
    }
}

/// The context described by one exchange record.
pub open spec fn exchange_ctx_spec(ex: HistoryEndExchange) -> CtxAbs {
    build_ctx_spec(
        nodes_abs(ex.request_nodes@),
        ex.request_message@,
        nodes_abs(ex.response_nodes@),
        ex.response_text@,
    )
}

pub open spec fn frags_abs(s: Seq<Vec<char>>) -> Seq<Seq<char>> {
    s.map_values(|v: Vec<char>| v@)
}

/// Joins text fragments with line-join normalization.
pub fn normalize_joined_lines(lines: &Vec<Vec<char>>) -> (r: Vec<char>)
    ensures
        r@ == join_norm(frags_abs(lines@)),
{
    proof {
        assert(frags_abs(lines@).skip(0) =~= frags_abs(lines@));
    }
    let mut out: Vec<char> = Vec::new();
    let mut i: usize = 0;
    while i < lines.len()
        invariant
            0 <= i <= lines@.len(),
            join_norm_from(out@, frags_abs(lines@).skip(i as int)) == join_norm(frags_abs(lines@)),
        decreases lines@.len() - i,
    {
        let ghost rest = frags_abs(lines@).skip(i as int);
        proof {
            assert(rest.first() == lines@[i as int]@);
            assert(rest.drop_first() =~= frags_abs(lines@).skip(i + 1));
        }
        let t = trim_end_newlines(&lines[i]);
        if t.len() == 0 {
        } else if out.len() == 0 {
            out = t;
        } else {
            let ghost acc = out@;
            out.push('\n');
            push_all(&mut out, &t);
            proof {
                assert(out@ =~= acc + seq!['\n'] + t@);
            }
        }
        i += 1;
    }
    proof {
        assert(frags_abs(lines@).skip(lines@.len() as int) =~= Seq::<Seq<char>>::empty());
    }
    out
}

/// The user message of an exchange: joined text-node contents, or the plain
/// request message when the joined text is blank.
pub fn extract_user_message_from_request_nodes(nodes: &Vec<Node>, fallback_request_message: &Vec<char>) -> (r: Vec<char>)
    ensures
        r@ == user_message_spec(nodes_abs(nodes@), fallback_request_message@),
{
    let mut frags: Vec<Vec<char>> = Vec::new();
    let mut i: usize = 0;
    while i < nodes.len()
        invariant
            0 <= i <= nodes@.len(),
            frags_abs(frags@) == text_fragments(nodes_abs(nodes@.take(i as int))),
        decreases nodes@.len() - i,
    {
        let ghost a1 = nodes_abs(nodes@.take(i + 1));
        proof {
            assert(a1.drop_last() =~= nodes_abs(nodes@.take(i as int)));
            assert(a1.last() == crate::node::node_abs(nodes@[i as int]));
        }
        match &nodes[i].data {
            NodeData::Text { content } => {
                frags.push(clone_chars(content));
                proof {
                    assert(frags_abs(frags@) =~= text_fragments(a1));
                }
            },
            _ => {
                proof {
                    assert(frags_abs(frags@) =~= text_fragments(a1));
                }
            },
        }
        i += 1;
    }
    proof {
        assert(nodes@.take(nodes@.len() as int) =~= nodes@);
    }
    let joined = normalize_joined_lines(&frags);
    if !blank(&joined) {
        joined
    } else {
        clone_chars(fallback_request_message)
    }
}

/// Builds the render context from an exchange's four parts.
pub(crate) fn build_ctx_parts(
    req_nodes: &Vec<Node>,
    req_msg: &Vec<char>,
    resp_nodes: &Vec<Node>,
    resp_text: &Vec<char>,
) -> (c: ExchangeRenderCtx)
    ensures
        ctx_abs(c) == build_ctx_spec(
            nodes_abs(req_nodes@),
            req_msg@,
            nodes_abs(resp_nodes@),
            resp_text@,
        ),
{
    let user_message = extract_user_message_from_request_nodes(req_nodes, req_msg);

    let mut tool_results: Vec<ToolResultCtx> = Vec::new();
    let mut i: usize = 0;
    while i < req_nodes.len()
        invariant
            0 <= i <= req_nodes@.len(),
            tool_results@.map_values(
                |t: ToolResultCtx| ToolResultAbs {
                    id: t.id@,
                    content: t.content@,
                    is_error: t.is_error,
                },
            ) == tool_results_sel(nodes_abs(req_nodes@.take(i as int))),
        decreases req_nodes@.len() - i,
    {
        let ghost a1 = nodes_abs(req_nodes@.take(i + 1));
        proof {
            assert(a1.drop_last() =~= nodes_abs(req_nodes@.take(i as int)));
            assert(a1.last() == crate::node::node_abs(req_nodes@[i as int]));
        }
        match &req_nodes[i].data {
            NodeData::ToolResult { tool_use_id, content, content_nodes: _, is_error } => {
                if !blank(tool_use_id) {
                    tool_results.push(
                        ToolResultCtx {
                            id: clone_chars(tool_use_id),
                            content: clone_chars(content),
                            is_error: *is_error,
                        },
                    );
                }
                proof {
                    assert(tool_results@.map_values(
                        |t: ToolResultCtx| ToolResultAbs {
                            id: t.id@,
                            content: t.content@,
                            is_error: t.is_error,
                        },
                    ) =~= tool_results_sel(a1));
                }
            },
            _ => {
                proof {
                    assert(tool_results@.map_values(
                        |t: ToolResultCtx| ToolResultAbs {
                            id: t.id@,
                            content: t.content@,
                            is_error: t.is_error,
                        },
                    ) =~= tool_results_sel(a1));
                }
            },
        }
        i += 1;
    }

    let mut th_frags: Vec<Vec<char>> = Vec::new();
    let mut j: usize = 0;
    while j < resp_nodes.len()
        invariant
            0 <= j <= resp_nodes@.len(),
            frags_abs(th_frags@) == thinking_fragments(nodes_abs(resp_nodes@.take(j as int))),
        decreases resp_nodes@.len() - j,
    {
        let ghost a1 = nodes_abs(resp_nodes@.take(j + 1));
        proof {
            assert(a1.drop_last() =~= nodes_abs(resp_nodes@.take(j as int)));
            assert(a1.last() == crate::node::node_abs(resp_nodes@[j as int]));
        }
        match &resp_nodes[j].data {
            NodeData::Thinking { summary } => {
                if !blank(summary) {
                    th_frags.push(clone_chars(summary));
                }
                proof {
                    assert(frags_abs(th_frags@) =~= thinking_fragments(a1));
                }
            },
            _ => {
                proof {
                    assert(frags_abs(th_frags@) =~= thinking_fragments(a1));
                }
            },
        }
        j += 1;
    }
    let thinking = normalize_joined_lines(&th_frags);

    let mut finished: Option<Vec<char>> = None;
    let mut raw: Vec<char> = Vec::new();
    let mut m: usize = 0;
    while m < resp_nodes.len()
        invariant
            0 <= m <= resp_nodes@.len(),
            match finished {
                Some(f) => last_finished(nodes_abs(resp_nodes@.take(m as int))) == Some(f@),
                None => last_finished(nodes_abs(resp_nodes@.take(m as int))) is None,
            },
            raw@ == raw_concat(nodes_abs(resp_nodes@.take(m as int))),
        decreases resp_nodes@.len() - m,
    {
        let ghost a1 = nodes_abs(resp_nodes@.take(m + 1));
        proof {
            assert(a1.drop_last() =~= nodes_abs(resp_nodes@.take(m as int)));
            assert(a1.last() == crate::node::node_abs(resp_nodes@[m as int]));
        }
        match &resp_nodes[m].data {
            NodeData::MainTextFinished { content } => {
                if !blank(content) {
                    finished = Some(clone_chars(content));
                }
                proof {
                    assert(raw@ =~= raw_concat(a1));
                }
            },
            NodeData::RawResponse { content } => {
                if !blank(content) {
                    push_all(&mut raw, content);
                }
                proof {
                    assert(raw@ =~= raw_concat(a1));
                }
            },
            _ => {
                proof {
                    assert(raw@ =~= raw_concat(a1));
                }
            },
        }
        m += 1;
    }
    let base = match &finished {
        Some(f) => trim(f),
        None => trim(&raw),
    };
    let response_text = if base.len() == 0 {
        trim(resp_text)
    } else {
        base
    };

    let mut tool_uses: Vec<ToolUseCtx> = Vec::new();
    let mut u: usize = 0;
    while u < resp_nodes.len()
        invariant
            0 <= u <= resp_nodes@.len(),
            tool_uses@.map_values(
                |t: ToolUseCtx| ToolUseAbs { name: t.name@, id: t.id@, input: t.input@ },
            ) == tool_uses_sel(nodes_abs(resp_nodes@.take(u as int))),
        decreases resp_nodes@.len() - u,
    {
        let ghost a1 = nodes_abs(resp_nodes@.take(u + 1));
        proof {
            assert(a1.drop_last() =~= nodes_abs(resp_nodes@.take(u as int)));
            assert(a1.last() == crate::node::node_abs(resp_nodes@[u as int]));
        }
        match &resp_nodes[u].data {
            NodeData::ToolUse { tool_name, tool_use_id, input_json } => {
                if !blank(tool_use_id) && !blank(tool_name) {
                    tool_uses.push(
                        ToolUseCtx {
                            name: clone_chars(tool_name),
                            id: clone_chars(tool_use_id),
                            input: clone_chars(input_json),
                        },
                    );
                }
                proof {
                    assert(tool_uses@.map_values(
                        |t: ToolUseCtx| ToolUseAbs { name: t.name@, id: t.id@, input: t.input@ },
                    ) =~= tool_uses_sel(a1));
                }
            },
            _ => {
                proof {
                    assert(tool_uses@.map_values(
                        |t: ToolUseCtx| ToolUseAbs { name: t.name@, id: t.id@, input: t.input@ },
                    ) =~= tool_uses_sel(a1));
                }
            },
        }
        u += 1;
    }

    let has_response = thinking.len() > 0 || response_text.len() > 0 || tool_uses.len() > 0;
    proof {
        assert(req_nodes@.take(req_nodes@.len() as int) =~= req_nodes@);
        assert(resp_nodes@.take(resp_nodes@.len() as int) =~= resp_nodes@);
    }
    ExchangeRenderCtx { user_message, tool_results, thinking, response_text, tool_uses, has_response }
}

/// Builds the normalized render context for one preserved exchange.
pub fn build_exchange_render_ctx(ex: &HistoryEndExchange) -> (c: ExchangeRenderCtx)
    ensures
        ctx_abs(c) == exchange_ctx_spec(*ex),
{
    build_ctx_parts(&ex.request_nodes, &ex.request_message, &ex.response_nodes, &ex.response_text)
}

/// The rendered block for one selected tool result.
pub open spec fn render_tool_result_spec(tr: ToolResultAbs) -> Seq<char> {
    "    <tool_result tool_use_id=\""@ + trim_spec(tr.id) + "\" is_error=\""@ + (if tr.is_error {
        "true"@
    } else {
        "false"@
    }) + "\">\n"@ + (if is_blank(tr.content) {
        Seq::empty()
    } else {
        trim_end_newlines_spec(tr.content) + "\n"@
    }) + "    </tool_result>\n"@
}

pub open spec fn render_tool_results_spec(l: Seq<ToolResultAbs>) -> Seq<char>
    decreases l.len(),
{
    if l.len() == 0 {
        Seq::empty()
    } else {
        render_tool_results_spec(l.drop_last()) + render_tool_result_spec(l.last())
    }
}

/// The rendered block for one selected tool use.
pub open spec fn render_tool_use_spec(tu: ToolUseAbs) -> Seq<char> {
    "    <tool_use name=\""@ + trim_spec(tu.name) + "\" tool_use_id=\""@ + trim_spec(tu.id)
        + "\">\n"@ + (if is_blank(tu.input) {
        Seq::empty()
    } else {
        trim_end_newlines_spec(tu.input) + "\n"@
    }) + "    </tool_use>\n"@
}

pub open spec fn render_tool_uses_spec(l: Seq<ToolUseAbs>) -> Seq<char>
    decreases l.len(),
{
    if l.len() == 0 {
        Seq::empty()
    } else {
        render_tool_uses_spec(l.drop_last()) + render_tool_use_spec(l.last())
    }
}

/// The user half of a rendered exchange.
pub open spec fn user_section_spec(c: CtxAbs) -> Seq<char> {
    "<exchange>\n  <user_request_or_tool_results>\n"@ + (if is_blank(c.user_message) {
        Seq::empty()
    } else {
        trim_end_newlines_spec(c.user_message) + "\n"@
    }) + render_tool_results_spec(c.tool_results) + "  </user_request_or_tool_results>\n"@
}

/// The agent half of a rendered exchange, empty when there is no response.
pub open spec fn agent_section_spec(c: CtxAbs) -> Seq<char> {
    if !c.has_response {
        Seq::empty()
    } else {
        "  <agent_response_or_tool_uses>\n"@ + (if is_blank(c.thinking) {
            Seq::empty()
        } else {
            "    <thinking>\n"@ + trim_end_newlines_spec(c.thinking) + "\n"@ + "    </thinking>\n"@
        }) + (if is_blank(c.response_text) {
            Seq::empty()
        } else {
            trim_end_newlines_spec(c.response_text) + "\n"@
        }) + render_tool_uses_spec(c.tool_uses) + "  </agent_response_or_tool_uses>\n"@
    }
}

/// The full rendered exchange block.
pub open spec fn render_exchange_spec(c: CtxAbs) -> Seq<char> {
    user_section_spec(c) + agent_section_spec(c) + "</exchange>"@
}

fn render_tool_result_block(out: &mut Vec<char>, tr: &ToolResultCtx)
    ensures
        final(out)@ == old(out)@ + render_tool_result_spec(
            ToolResultAbs { id: tr.id@, content: tr.content@, is_error: tr.is_error },
        ),
{
    let ghost acc = out@;
    push_str(out, "    <tool_result tool_use_id=\"");
    let tid = trim(&tr.id);
    push_all(out, &tid);
    push_str(out, "\" is_error=\"");
    if tr.is_error {
        push_str(out, "true");
    } else {
        push_str(out, "false");
    }
    push_str(out, "\">\n");
    if !blank(&tr.content) {
        let tc = trim_end_newlines(&tr.content);
        push_all(out, &tc);
        push_str(out, "\n");
    }
    push_str(out, "    </tool_result>\n");
    proof {
        assert(out@ =~= acc + render_tool_result_spec(
            ToolResultAbs { id: tr.id@, content: tr.content@, is_error: tr.is_error },
        ));
    }
}

fn render_tool_use_block(out: &mut Vec<char>, tu: &ToolUseCtx)
    ensures
        final(out)@ == old(out)@ + render_tool_use_spec(
            ToolUseAbs { name: tu.name@, id: tu.id@, input: tu.input@ },
        ),
{
    let ghost acc = out@;
    push_str(out, "    <tool_use name=\"");
    let tn = trim(&tu.name);
    push_all(out, &tn);
    push_str(out, "\" tool_use_id=\"");
    let ti = trim(&tu.id);
    push_all(out, &ti);
    push_str(out, "\">\n");
    if !blank(&tu.input) {
        let tin = trim_end_newlines(&tu.input);
        push_all(out, &tin);
        push_str(out, "\n");
    }
    push_str(out, "    </tool_use>\n");
    proof {
        assert(out@ =~= acc + render_tool_use_spec(
            ToolUseAbs { name: tu.name@, id: tu.id@, input: tu.input@ },
        ));
    }
}

fn render_user_section(out: &mut Vec<char>, ctx: &ExchangeRenderCtx)
    ensures
        final(out)@ == old(out)@ + user_section_spec(ctx_abs(*ctx)),
{
    let ghost ca = ctx_abs(*ctx);
    let ghost acc = out@;
    push_str(out, "<exchange>\n  <user_request_or_tool_results>\n");
    if !blank(&ctx.user_message) {
        let t = trim_end_newlines(&ctx.user_message);
        push_all(out, &t);
        push_str(out, "\n");
    }
    let ghost before_trs = out@;
    let mut i: usize = 0;
    while i < ctx.tool_results.len()
        invariant
            0 <= i <= ctx.tool_results@.len(),
            out@ == before_trs + render_tool_results_spec(ca.tool_results.take(i as int)),
        decreases ctx.tool_results@.len() - i,
    {
        proof {
            assert(ca.tool_results[i as int] == (ToolResultAbs {
                id: ctx.tool_results@[i as int].id@,
                content: ctx.tool_results@[i as int].content@,
                is_error: ctx.tool_results@[i as int].is_error,
            }));
            assert(ca.tool_results.take(i + 1).drop_last() =~= ca.tool_results.take(i as int));
        }
        render_tool_result_block(out, &ctx.tool_results[i]);
        proof {
            assert(out@ =~= before_trs + render_tool_results_spec(ca.tool_results.take(i + 1)));
        }
        i += 1;
    }
    proof {
        assert(ca.tool_results.take(ca.tool_results.len() as int) =~= ca.tool_results);
    }
    push_str(out, "  </user_request_or_tool_results>\n");
    proof {
        assert(out@ =~= acc + user_section_spec(ca));
    }
}

#[verifier::rlimit(60)]
fn render_agent_section(out: &mut Vec<char>, ctx: &ExchangeRenderCtx)
    requires
        ctx.has_response,
    ensures
        final(out)@ == old(out)@ + agent_section_spec(ctx_abs(*ctx)),
{
    let ghost ca = ctx_abs(*ctx);
    let ghost acc = out@;
    push_str(out, "  <agent_response_or_tool_uses>\n");
    if !blank(&ctx.thinking) {
        push_str(out, "    <thinking>\n");
        let tt = trim_end_newlines(&ctx.thinking);
        push_all(out, &tt);
        push_str(out, "\n");
        push_str(out, "    </thinking>\n");
    }
    if !blank(&ctx.response_text) {
        let rt = trim_end_newlines(&ctx.response_text);
        push_all(out, &rt);
        push_str(out, "\n");
    }
    let ghost before_tus = out@;
    proof {
        assert(before_tus =~= acc + "  <agent_response_or_tool_uses>\n"@ + (if is_blank(
            ca.thinking,
        ) {
            Seq::<char>::empty()
        } else {
            "    <thinking>\n"@ + trim_end_newlines_spec(ca.thinking) + "\n"@
                + "    </thinking>\n"@
        }) + (if is_blank(ca.response_text) {
            Seq::<char>::empty()
        } else {
            trim_end_newlines_spec(ca.response_text) + "\n"@
        }));
    }
    let mut u: usize = 0;
    while u < ctx.tool_uses.len()
        invariant
            0 <= u <= ctx.tool_uses@.len(),
            out@ == before_tus + render_tool_uses_spec(ca.tool_uses.take(u as int)),
        decreases ctx.tool_uses@.len() - u,
    {
        proof {
            assert(ca.tool_uses[u as int] == (ToolUseAbs {
                name: ctx.tool_uses@[u as int].name@,
                id: ctx.tool_uses@[u as int].id@,
                input: ctx.tool_uses@[u as int].input@,
            }));
            assert(ca.tool_uses.take(u + 1).drop_last() =~= ca.tool_uses.take(u as int));
        }
        render_tool_use_block(out, &ctx.tool_uses[u]);
        proof {
            assert(out@ =~= before_tus + render_tool_uses_spec(ca.tool_uses.take(u + 1)));
        }
        u += 1;
    }
    proof {
        assert(ca.tool_uses.take(ca.tool_uses.len() as int) =~= ca.tool_uses);
    }
    push_str(out, "  </agent_response_or_tool_uses>\n");
    proof {
        assert(out@ =~= acc + agent_section_spec(ca));
    }
}

/// Renders one normalized exchange context as its nested-tag text block.
pub fn render_exchange_full(ctx: &ExchangeRenderCtx) -> (r: Vec<char>)
    ensures
        r@ == render_exchange_spec(ctx_abs(*ctx)),
{
    let mut out: Vec<char> = Vec::new();
    render_user_section(&mut out, ctx);
    if ctx.has_response {
        render_agent_section(&mut out, ctx);
    }
    push_str(&mut out, "</exchange>");
    proof {
        assert(out@ =~= render_exchange_spec(ctx_abs(*ctx)));
    }
    out
}

} // verus!
