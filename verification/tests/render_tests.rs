use history_compaction::node::{HistoryEndExchange, HistorySummaryPayload, Node, NodeData};
use history_compaction::render::{build_exchange_render_ctx, render_exchange_full};
use history_compaction::render::normalize_joined_lines;
use history_compaction::summary::render_history_summary_node_value;

fn cv(s: &str) -> Vec<char> {
    s.chars().collect()
}

fn cs(v: &[char]) -> String {
    v.iter().collect()
}

fn text_node(id: u64, content: &str) -> Node {
    Node { id, data: NodeData::Text { content: cv(content) } }
}

fn finished_node(id: u64, content: &str) -> Node {
    Node { id, data: NodeData::MainTextFinished { content: cv(content) } }
}

fn raw_node(id: u64, content: &str) -> Node {
    Node { id, data: NodeData::RawResponse { content: cv(content) } }
}

fn thinking_node(id: u64, summary: &str) -> Node {
    Node { id, data: NodeData::Thinking { summary: cv(summary) } }
}

fn tool_result_node(id: u64, tool_use_id: &str, content: &str, is_error: bool) -> Node {
    Node {
        id,
        data: NodeData::ToolResult {
            tool_use_id: cv(tool_use_id),
            content: cv(content),
            content_nodes: Vec::new(),
            is_error,
        },
    }
}

fn tool_use_node(id: u64, name: &str, tool_use_id: &str, input: &str) -> Node {
    Node {
        id,
        data: NodeData::ToolUse {
            tool_name: cv(name),
            tool_use_id: cv(tool_use_id),
            input_json: cv(input),
        },
    }
}

fn exchange(
    request_message: &str,
    response_text: &str,
    request_nodes: Vec<Node>,
    response_nodes: Vec<Node>,
) -> HistoryEndExchange {
    HistoryEndExchange {
        request_message: cv(request_message),
        response_text: cv(response_text),
        request_nodes,
        response_nodes,
    }
}

fn payload(
    summary_text: &str,
    request_id: &str,
    dropped: i64,
    middle: &str,
    history_end: Vec<HistoryEndExchange>,
    template: &str,
) -> HistorySummaryPayload {
    HistorySummaryPayload {
        summary_text: cv(summary_text),
        summarization_request_id: cv(request_id),
        history_beginning_dropped_num_exchanges: dropped,
        history_middle_abridged_text: cv(middle),
        history_end,
        message_template: cv(template),
    }
}

#[test]
fn renders_history_summary_template() {
    let template = "<supervisor>\n<summary request_id=\"{summarization_request_id}\">\n{summary}\n</summary>\nBeginning part has {beginning_part_dropped_num_exchanges} exchanges.\n<middle_part_abridged>\n{middle_part_abridged}\n</middle_part_abridged>\n<end_part_full>\n{end_part_full}\n</end_part_full>\n</supervisor>";
    let p = payload(
        "SUM",
        "req_123",
        7,
        "<exchange>abridged</exchange>",
        vec![exchange("hello", "world", Vec::new(), vec![finished_node(1, "world")])],
        template,
    );
    let rendered = render_history_summary_node_value(&p, &Vec::new()).expect("should render");
    assert!(rendered.contains("<summary request_id=\"req_123\">"));
    assert!(rendered.contains("SUM"));
    assert!(rendered.contains("Beginning part has 7 exchanges."));
    assert!(rendered.contains("<middle_part_abridged>"));
    assert!(rendered.contains("<exchange>abridged</exchange>"));
    assert!(rendered.contains("<end_part_full>"));
    assert!(rendered.contains("<exchange>"));
    assert!(rendered.contains("hello"));
    assert!(rendered.contains("world"));
}

#[test]
fn substitutes_each_token_exactly() {
    let p = payload(
        "SUM",
        "req_123",
        7,
        "",
        Vec::new(),
        "<s>{summary}/{summarization_request_id}/{beginning_part_dropped_num_exchanges}</s>",
    );
    let rendered = render_history_summary_node_value(&p, &Vec::new()).expect("should render");
    assert_eq!(rendered, "<s>SUM/req_123/7</s>");
}

#[test]
fn renders_request_and_response_in_their_sections() {
    let ex = exchange("hello", "", Vec::new(), vec![finished_node(1, "world")]);
    let ctx = build_exchange_render_ctx(&ex);
    let block = cs(&render_exchange_full(&ctx));
    let user_open = block.find("<user_request_or_tool_results>").unwrap();
    let user_close = block.find("</user_request_or_tool_results>").unwrap();
    let agent_open = block.find("<agent_response_or_tool_uses>").unwrap();
    let agent_close = block.find("</agent_response_or_tool_uses>").unwrap();
    let hello = block.find("hello").unwrap();
    let world = block.find("world").unwrap();
    assert!(user_open < hello && hello < user_close);
    assert!(agent_open < world && world < agent_close);
    assert!(!block.contains("<thinking>"));
}

#[test]
fn rendering_is_idempotent() {
    let p = payload(
        "S",
        "r",
        2,
        "mid",
        vec![exchange("q", "a", Vec::new(), Vec::new())],
        "{summary}|{middle_part_abridged}|{end_part_full}",
    );
    let extra = vec![tool_result_node(9, "t-1", "OUT", false)];
    let first = render_history_summary_node_value(&p, &extra).expect("should render");
    let second = render_history_summary_node_value(&p, &extra).expect("should render");
    assert_eq!(first, second);
}

#[test]
fn blank_template_renders_nothing() {
    let p = payload("S", "r", 1, "", Vec::new(), "   \n ");
    assert!(render_history_summary_node_value(&p, &Vec::new()).is_none());
}

#[test]
fn replacement_values_are_not_re_expanded() {
    let p = payload("{summary}X", "r", 1, "MID", Vec::new(), "{summary}+{abridged_history}");
    let rendered = render_history_summary_node_value(&p, &Vec::new()).expect("should render");
    assert_eq!(rendered, "{summary}X+MID");
}

#[test]
fn negative_dropped_count_renders_with_sign() {
    let p = payload("S", "r", -3, "", Vec::new(), "[{beginning_part_dropped_num_exchanges}]");
    let rendered = render_history_summary_node_value(&p, &Vec::new()).expect("should render");
    assert_eq!(rendered, "[-3]");
}

#[test]
fn joined_lines_drop_trailing_newlines_and_empty_fragments() {
    let lines = vec![cv("a\n\n"), cv(""), cv("b")];
    assert_eq!(cs(&normalize_joined_lines(&lines)), "a\nb");
    let lines2 = vec![cv("\n"), cv("\n\n")];
    assert_eq!(cs(&normalize_joined_lines(&lines2)), "");
}

#[test]
fn user_message_prefers_text_nodes_over_fallback() {
    let ex = exchange(
        "fallback",
        "",
        vec![text_node(1, "first\n"), text_node(2, "second")],
        Vec::new(),
    );
    let ctx = build_exchange_render_ctx(&ex);
    let block = cs(&render_exchange_full(&ctx));
    assert!(block.contains("first\nsecond"));
    assert!(!block.contains("fallback"));
}

#[test]
fn blank_tool_result_id_is_dropped() {
    let ex = exchange(
        "",
        "",
        vec![tool_result_node(1, "  ", "hidden", false), tool_result_node(2, "t-2", "shown", true)],
        Vec::new(),
    );
    let ctx = build_exchange_render_ctx(&ex);
    let block = cs(&render_exchange_full(&ctx));
    assert!(!block.contains("hidden"));
    assert!(block.contains("<tool_result tool_use_id=\"t-2\" is_error=\"true\">"));
    assert!(block.contains("shown"));
}

#[test]
fn finished_text_overrides_raw_responses() {
    let ex = exchange(
        "",
        "plain",
        Vec::new(),
        vec![raw_node(1, "ra"), finished_node(2, "done"), raw_node(3, "rb")],
    );
    let ctx = build_exchange_render_ctx(&ex);
    let block = cs(&render_exchange_full(&ctx));
    assert!(block.contains("done"));
    assert!(!block.contains("rarb"));
    assert!(!block.contains("plain"));
}

#[test]
fn raw_responses_concatenate_when_nothing_finished() {
    let ex = exchange("", "", Vec::new(), vec![raw_node(1, "ra"), raw_node(2, "rb")]);
    let ctx = build_exchange_render_ctx(&ex);
    let block = cs(&render_exchange_full(&ctx));
    assert!(block.contains("rarb"));
}

#[test]
fn thinking_and_tool_uses_render_inside_agent_section() {
    let ex = exchange(
        "",
        "",
        Vec::new(),
        vec![thinking_node(1, "pondering"), tool_use_node(2, "calc", "t9", "{\"x\":1}")],
    );
    let ctx = build_exchange_render_ctx(&ex);
    let block = cs(&render_exchange_full(&ctx));
    assert!(block.contains("<thinking>\npondering\n    </thinking>"));
    assert!(block.contains("<tool_use name=\"calc\" tool_use_id=\"t9\">"));
    assert!(block.contains("{\"x\":1}"));
}

#[test]
fn extra_tool_results_become_a_trailing_exchange() {
    let p = payload(
        "S",
        "r",
        0,
        "",
        vec![exchange("hi", "yo", Vec::new(), Vec::new())],
        "{end_part_full}",
    );
    let extra = vec![tool_result_node(5, "tool-77", "LATE RESULT", false)];
    let rendered = render_history_summary_node_value(&p, &extra).expect("should render");
    assert!(rendered.contains("<tool_result tool_use_id=\"tool-77\" is_error=\"false\">"));
    assert!(rendered.contains("LATE RESULT"));
    let first_block = rendered.find("hi").unwrap();
    let late = rendered.find("LATE RESULT").unwrap();
    assert!(first_block < late);
}

#[test]
fn renders_the_exact_nested_tag_layout() {
    let ex = exchange(
        "hi",
        "",
        vec![tool_result_node(1, "t1", "RES", false)],
        vec![
            thinking_node(2, "TH"),
            finished_node(3, "ANS"),
            tool_use_node(4, "nm", "t2", "IN"),
        ],
    );
    let ctx = build_exchange_render_ctx(&ex);
    let block = cs(&render_exchange_full(&ctx));
    let expected = "<exchange>\n  <user_request_or_tool_results>\nhi\n    <tool_result tool_use_id=\"t1\" is_error=\"false\">\nRES\n    </tool_result>\n  </user_request_or_tool_results>\n  <agent_response_or_tool_uses>\n    <thinking>\nTH\n    </thinking>\nANS\n    <tool_use name=\"nm\" tool_use_id=\"t2\">\nIN\n    </tool_use>\n  </agent_response_or_tool_uses>\n</exchange>";
    assert_eq!(block, expected);
}

#[test]
fn joins_rendered_exchanges_with_one_newline() {
    let p = payload(
        "S",
        "r",
        0,
        "",
        vec![
            exchange("one", "", Vec::new(), Vec::new()),
            exchange("two", "", Vec::new(), Vec::new()),
        ],
        "{end_part_full}",
    );
    let rendered = render_history_summary_node_value(&p, &Vec::new()).expect("should render");
    let expected = "<exchange>\n  <user_request_or_tool_results>\none\n  </user_request_or_tool_results>\n</exchange>\n<exchange>\n  <user_request_or_tool_results>\ntwo\n  </user_request_or_tool_results>\n</exchange>";
    assert_eq!(rendered, expected);
}
