use history_compaction::node::{
    HistoryEntry, HistorySummaryPayload, Node, NodeData, ToolResultContent,
};
use history_compaction::compact::compact_chat_history;

fn cv(s: &str) -> Vec<char> {
    s.chars().collect()
}

fn cs(v: &[char]) -> String {
    v.iter().collect()
}

fn tool_result(id: u64, tool_use_id: &str, content: &str) -> Node {
    Node {
        id,
        data: NodeData::ToolResult {
            tool_use_id: cv(tool_use_id),
            content: cv(content),
            content_nodes: vec![ToolResultContent { kind: 0, text: cv(content) }],
            is_error: false,
        },
    }
}

fn summary_node(id: u64, template: &str) -> Node {
    Node {
        id,
        data: NodeData::HistorySummary {
            payload: Some(HistorySummaryPayload {
                summary_text: cv("S"),
                summarization_request_id: cv("req"),
                history_beginning_dropped_num_exchanges: 1,
                history_middle_abridged_text: cv(""),
                history_end: Vec::new(),
                message_template: cv(template),
            }),
        },
    }
}

fn entry(request_id: &str, message: &str, request_nodes: Vec<Node>) -> HistoryEntry {
    HistoryEntry {
        response_text: cv(message),
        request_message: cv(message),
        request_id: cv(request_id),
        request_nodes,
        structured_request_nodes: Vec::new(),
        nodes: Vec::new(),
        response_nodes: Vec::new(),
        structured_output_nodes: Vec::new(),
    }
}

fn is_tool_result(n: &Node) -> bool {
    matches!(n.data, NodeData::ToolResult { .. })
}

fn is_summary(n: &Node) -> bool {
    matches!(n.data, NodeData::HistorySummary { .. })
}

#[test]
fn compacts_chat_history_and_embeds_tool_results() {
    let template = "<supervisor><end_part_full>{end_part_full}</end_part_full></supervisor>";
    let mut chat_history = vec![
        entry("r0", "old", Vec::new()),
        entry("r1", "", vec![summary_node(1, template), tool_result(2, "tool-1", "RESULT")]),
    ];

    compact_chat_history(&mut chat_history);

    assert_eq!(chat_history.len(), 1);
    assert!(chat_history[0].request_nodes.len() >= 1);
    assert!(matches!(chat_history[0].request_nodes[0].data, NodeData::Text { .. }));
    let txt = match &chat_history[0].request_nodes[0].data {
        NodeData::Text { content } => cs(content),
        _ => String::new(),
    };
    assert!(txt.contains("tool_result"));
    assert!(txt.contains("tool-1"));
    assert!(txt.contains("RESULT"));
    assert!(
        !chat_history[0].request_nodes.iter().any(is_tool_result),
        "tool_result nodes should be removed from request_nodes"
    );
    assert!(
        !chat_history[0].request_nodes.iter().any(is_summary),
        "history_summary node should be removed from request_nodes"
    );
}

#[test]
fn compact_chat_history_keeps_nodes_when_render_fails() {
    let mut chat_history = vec![
        entry("r0", "old", Vec::new()),
        entry("r1", "", vec![summary_node(1, ""), tool_result(2, "tool-1", "RESULT")]),
    ];

    compact_chat_history(&mut chat_history);

    assert_eq!(chat_history.len(), 1);
    assert!(
        chat_history[0].request_nodes.iter().any(is_summary),
        "render failed -> should keep history_summary node"
    );
    assert!(
        chat_history[0].request_nodes.iter().any(is_tool_result),
        "render failed -> should keep tool_result nodes"
    );
}

#[test]
fn failed_render_keeps_node_contents_unchanged() {
    let mut chat_history = vec![
        entry("r0", "old", Vec::new()),
        entry("r1", "", vec![summary_node(7, ""), tool_result(8, "tool-1", "RESULT")]),
    ];
    compact_chat_history(&mut chat_history);
    assert_eq!(chat_history.len(), 1);
    assert_eq!(chat_history[0].request_nodes.len(), 2);
    assert_eq!(chat_history[0].request_nodes[0].id, 7);
    assert_eq!(chat_history[0].request_nodes[1].id, 8);
    match &chat_history[0].request_nodes[1].data {
        NodeData::ToolResult { tool_use_id, content, is_error, .. } => {
            assert_eq!(cs(tool_use_id), "tool-1");
            assert_eq!(cs(content), "RESULT");
            assert!(!is_error);
        },
        _ => panic!("expected the tool result to survive unchanged"),
    }
}

#[test]
fn successful_render_reuses_marker_id_and_embeds_tool_result() {
    let mut chat_history = vec![
        entry("r0", "old", Vec::new()),
        entry("r1", "", vec![summary_node(1, "{end_part_full}"), tool_result(2, "tool-1", "RESULT")]),
    ];
    compact_chat_history(&mut chat_history);
    assert_eq!(chat_history.len(), 1);
    assert_eq!(chat_history[0].request_nodes.len(), 1);
    assert_eq!(chat_history[0].request_nodes[0].id, 1);
    let txt = match &chat_history[0].request_nodes[0].data {
        NodeData::Text { content } => cs(content),
        _ => panic!("expected a text node in place of the marker"),
    };
    assert!(txt.contains("<tool_result tool_use_id=\"tool-1\" is_error=\"false\">"));
    assert!(txt.contains("RESULT"));
    assert!(!chat_history[0].request_nodes.iter().any(is_summary));
    assert!(!chat_history[0].request_nodes.iter().any(is_tool_result));
}

#[test]
fn truncates_everything_before_the_checkpoint() {
    let mut chat_history = vec![
        entry("r0", "first", Vec::new()),
        entry("r1", "second", vec![summary_node(1, "{summary}")]),
        entry("r2", "third", Vec::new()),
    ];
    compact_chat_history(&mut chat_history);
    assert_eq!(chat_history.len(), 2);
    assert_eq!(cs(&chat_history[0].request_id), "r1");
    assert_eq!(cs(&chat_history[1].request_id), "r2");
}

#[test]
fn no_summary_means_no_change() {
    let mut chat_history = vec![
        entry("r0", "first", vec![tool_result(1, "t", "x")]),
        entry("r1", "second", Vec::new()),
    ];
    compact_chat_history(&mut chat_history);
    assert_eq!(chat_history.len(), 2);
    assert_eq!(chat_history[0].request_nodes.len(), 1);
    assert_eq!(cs(&chat_history[0].request_id), "r0");
}

#[test]
fn three_node_lists_merge_in_fixed_order() {
    let mut e = entry("r1", "", vec![summary_node(1, "")]);
    e.structured_request_nodes = vec![tool_result(2, "t-a", "A")];
    e.nodes = vec![tool_result(3, "t-b", "B")];
    let mut chat_history = vec![e];
    compact_chat_history(&mut chat_history);
    assert_eq!(chat_history.len(), 1);
    assert!(chat_history[0].structured_request_nodes.is_empty());
    assert!(chat_history[0].nodes.is_empty());
    let ids: Vec<u64> = chat_history[0].request_nodes.iter().map(|n| n.id).collect();
    assert_eq!(ids, vec![1, 2, 3]);
}

#[test]
fn duplicate_markers_are_all_consumed_and_first_one_wins() {
    let mut chat_history = vec![entry(
        "r1",
        "",
        vec![summary_node(4, "{summarization_request_id}"), summary_node(5, "OTHER")],
    )];
    compact_chat_history(&mut chat_history);
    assert_eq!(chat_history.len(), 1);
    assert_eq!(chat_history[0].request_nodes.len(), 1);
    assert_eq!(chat_history[0].request_nodes[0].id, 4);
    let txt = match &chat_history[0].request_nodes[0].data {
        NodeData::Text { content } => cs(content),
        _ => panic!("expected a text node in place of the marker"),
    };
    assert_eq!(txt, "req");
}

#[test]
fn undecodable_payload_is_left_in_place() {
    let broken = Node { id: 9, data: NodeData::HistorySummary { payload: None } };
    let mut chat_history = vec![entry("r1", "", vec![broken, tool_result(2, "t", "x")])];
    compact_chat_history(&mut chat_history);
    assert_eq!(chat_history.len(), 1);
    assert_eq!(chat_history[0].request_nodes.len(), 2);
    assert!(chat_history[0].request_nodes.iter().any(is_summary));
    assert!(chat_history[0].request_nodes.iter().any(is_tool_result));
}

#[test]
fn other_nodes_survive_a_successful_render() {
    let keep = Node { id: 3, data: NodeData::Opaque { kind: 42, content: cv("img") } };
    let mut chat_history = vec![entry(
        "r1",
        "",
        vec![summary_node(1, "{summary}"), tool_result(2, "t", "x"), keep],
    )];
    compact_chat_history(&mut chat_history);
    assert_eq!(chat_history.len(), 1);
    assert_eq!(chat_history[0].request_nodes.len(), 2);
    assert_eq!(chat_history[0].request_nodes[1].id, 3);
    assert!(matches!(
        chat_history[0].request_nodes[1].data,
        NodeData::Opaque { kind: 42, .. }
    ));
}
