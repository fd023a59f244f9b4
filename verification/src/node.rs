//! The decoded conversation data model: nodes, history entries, and the
//! structured history-summary payload carried by a checkpoint marker node.
//!
//! Each node variant carries only its own payload, so a node whose type tag and
//! payload disagree cannot be represented. Contracts speak about nodes through
//! the shallow abstraction [`NodeAbs`], which keeps a node's identifier, its
//! variant, and the fields this crate interprets.
use vstd::prelude::*;
use crate::text::clone_chars;

verus! {

/// One unit of tool-result content, kept only to be passed through unchanged.
pub struct ToolResultContent {
    pub kind: u64,
    pub text: Vec<char>,
}

/// The structured payload decoded from a history-summary marker node.
pub struct HistorySummaryPayload {
    pub summary_text: Vec<char>,
    pub summarization_request_id: Vec<char>,
    pub history_beginning_dropped_num_exchanges: i64,
    pub history_middle_abridged_text: Vec<char>,
    pub history_end: Vec<HistoryEndExchange>,
    pub message_template: Vec<char>,
}

/// One fully preserved prior exchange stored inside a summary payload.
pub struct HistoryEndExchange {
    pub request_message: Vec<char>,
    pub response_text: Vec<char>,
    pub request_nodes: Vec<Node>,
    pub response_nodes: Vec<Node>,
}

/// The payload of one conversation node, one variant per node kind.
pub enum NodeData {
    Text { content: Vec<char> },
    ToolResult {
        tool_use_id: Vec<char>,
        content: Vec<char>,
        content_nodes: Vec<ToolResultContent>,
        is_error: bool,
    },
    ToolUse { tool_name: Vec<char>, tool_use_id: Vec<char>, input_json: Vec<char> },
    Thinking { summary: Vec<char> },
    HistorySummary { payload: Option<HistorySummaryPayload> },
    MainTextFinished { content: Vec<char> },
    RawResponse { content: Vec<char> },
    Opaque { kind: u64, content: Vec<char> },
}

/// A conversation node: a stable identifier plus its tagged payload.
pub struct Node {
    pub id: u64,
    pub data: NodeData,
}

/// One turn of the conversation log.
pub struct HistoryEntry {
    pub response_text: Vec<char>,
    pub request_message: Vec<char>,
    pub request_id: Vec<char>,
    pub request_nodes: Vec<Node>,
    pub structured_request_nodes: Vec<Node>,
    pub nodes: Vec<Node>,
    pub response_nodes: Vec<Node>,
    pub structured_output_nodes: Vec<Node>,
}

/// Shallow abstraction of a node's payload: the variant and the fields that the
/// renderer and the compactor interpret, as mathematical sequences. The summary
/// payload itself is kept only as presence, since no rendering rule reads it
/// through a node inside an exchange.
pub enum NodeAbsData {
    Text { content: Seq<char> },
    ToolResult { tool_use_id: Seq<char>, content: Seq<char>, is_error: bool },
    ToolUse { tool_name: Seq<char>, tool_use_id: Seq<char>, input_json: Seq<char> },
    Thinking { summary: Seq<char> },
    HistorySummary { has_payload: bool },
    MainTextFinished { content: Seq<char> },
    RawResponse { content: Seq<char> },
    Opaque { kind: u64, content: Seq<char> },
}

/// Shallow abstraction of a whole node.
pub struct NodeAbs {
    pub id: u64,
    pub data: NodeAbsData,
}

pub open spec fn node_abs(n: Node) -> NodeAbs {
    NodeAbs {
        id: n.id,
        data: match n.data {
            NodeData::Text { content } => NodeAbsData::Text { content: content@ },
            NodeData::ToolResult { tool_use_id, content, content_nodes, is_error } => {
                NodeAbsData::ToolResult {
                    tool_use_id: tool_use_id@,
                    content: content@,
                    is_error,
                }
            },
            NodeData::ToolUse { tool_name, tool_use_id, input_json } => {
                NodeAbsData::ToolUse {
                    tool_name: tool_name@,
                    tool_use_id: tool_use_id@,
                    input_json: input_json@,
                }
            },
            NodeData::Thinking { summary } => NodeAbsData::Thinking { summary: summary@ },
            NodeData::HistorySummary { payload } => {
                NodeAbsData::HistorySummary { has_payload: payload is Some }
            },
            NodeData::MainTextFinished { content } => {
                NodeAbsData::MainTextFinished { content: content@ }
            },
            NodeData::RawResponse { content } => NodeAbsData::RawResponse { content: content@ },
            NodeData::Opaque { kind, content } => NodeAbsData::Opaque { kind, content: content@ },
        },
    }
}

pub open spec fn nodes_abs(ns: Seq<Node>) -> Seq<NodeAbs> {
    ns.map_values(|n: Node| node_abs(n))
}

pub open spec fn is_summary_node(n: Node) -> bool {
    n.data is HistorySummary
}

pub open spec fn is_tool_result_node(n: Node) -> bool {
    n.data is ToolResult
}

pub open spec fn has_summary(ns: Seq<Node>) -> bool {
    exists|i: int| 0 <= i < ns.len() && is_summary_node(ns[i])
}

/// Whether any node of the list is a history-summary marker.
pub fn has_history_summary_node(ns: &Vec<Node>) -> (r: bool)
    ensures
        r == has_summary(ns@),
{
    let mut i: usize = 0;
    while i < ns.len()
        invariant
            0 <= i <= ns@.len(),
            forall|j: int| 0 <= j < i ==> !is_summary_node(ns@[j]),
        decreases ns@.len() - i,
    {
        if matches!(&ns[i].data, NodeData::HistorySummary { .. }) {
            return true;
        }
        i += 1;
    }
    false
}

/// A copy of a tool-result node, abstraction-equal to the original.
pub fn clone_tool_result_node(n: &Node) -> (r: Node)
    requires
        is_tool_result_node(*n),
    ensures
        node_abs(r) == node_abs(*n),
        is_tool_result_node(r),
{
    match &n.data {
        NodeData::ToolResult { tool_use_id, content, content_nodes, is_error } => {
            let mut cns: Vec<ToolResultContent> = Vec::new();
            let mut k: usize = 0;
            while k < content_nodes.len()
                invariant
                    0 <= k <= content_nodes@.len(),
                decreases content_nodes@.len() - k,
            {
                cns.push(
                    ToolResultContent {
                        kind: content_nodes[k].kind,
                        text: clone_chars(&content_nodes[k].text),
                    },
                );
                k += 1;
            }
            Node {
                id: n.id,
                data: NodeData::ToolResult {
                    tool_use_id: clone_chars(tool_use_id),
                    content: clone_chars(content),
                    content_nodes: cns,
                    is_error: *is_error,
                },
            }
        },
        _ => {
            proof {
                assert(false);
            }
            Node { id: n.id, data: NodeData::Text { content: Vec::new() } }
        },
    }
}

} // verus!
