use model_router::convert::streaming::anthropic_to_chat::AnthropicStreamState;
use model_router::convert::streaming::anthropic_to_responses::CodexAnthropicToResponsesState;
use model_router::convert::streaming::chat_to_anthropic::StreamState;
use model_router::convert::streaming::chat_to_responses::CodexChatToResponsesState;
use model_router::convert::streaming::responses_to_anthropic::ResponsesStreamState;
use model_router::convert::streaming::responses_to_chat::ResponsesChatState;
use model_router::json::Json;

fn canonical(data: &str) -> String {
    Json::parse(data).expect("JSON").to_text()
}

fn event(name: &str, data: &str) -> String {
    format!("event: {}\ndata: {}\n\n", name, canonical(data))
}

fn stop(index: u32) -> String {
    format!(
        "event: content_block_stop\ndata: {{\"type\":\"content_block_stop\",\"index\":{}}}\n\n",
        index
    )
}

fn message_stop() -> String {
    "event: message_stop\ndata: {\"type\":\"message_stop\"}\n\n".to_string()
}

fn message_start(id: &str, input_tokens: u64) -> String {
    event(
        "message_start",
        &r#"{"type": "message_start", "message": {"id": "ID", "type": "message",
            "role": "assistant", "content": [], "model": "opus", "stop_reason": null,
            "stop_sequence": null, "usage": {"input_tokens": TOKENS, "output_tokens": 1,
            "cache_creation_input_tokens": 0, "cache_read_input_tokens": 0}}}"#
            .replace("ID", id)
            .replace("TOKENS", &input_tokens.to_string()),
    )
}

fn block_start(index: u32, block: &str) -> String {
    event(
        "content_block_start",
        &format!(
            "{{\"type\": \"content_block_start\", \"index\": {}, \"content_block\": {}}}",
            index, block
        ),
    )
}

fn block_delta(index: u32, delta: &str) -> String {
    event(
        "content_block_delta",
        &format!(
            "{{\"type\": \"content_block_delta\", \"index\": {}, \"delta\": {}}}",
            index, delta
        ),
    )
}

fn message_delta(reason: &str, output_tokens: u64) -> String {
    event(
        "message_delta",
        &format!(
            "{{\"type\": \"message_delta\", \"delta\": {{\"stop_reason\": \"{}\", \
             \"stop_sequence\": null}}, \"usage\": {{\"output_tokens\": {}}}}}",
            reason, output_tokens
        ),
    )
}

const CHAT: &str = "data: {\"id\":\"chatcmpl-1\",\"created\":5,\"choices\":[{\"delta\":\
    {\"reasoning_content\":\"hm\"}}],\"usage\":{\"prompt_tokens\":7}}\n\n\
    : comment\n\
    data: {\"choices\":[{\"delta\":{\"content\":\"Hi\"}}]}\n\n\
    data:{\"choices\":[{\"delta\":{\"tool_calls\":[{\"index\":0,\"id\":\"c1\",\"function\":\
    {\"name\":\"f\",\"arguments\":\"{}\"}}]}}]}\n\n\
    data: {\"choices\":[{\"delta\":{},\"finish_reason\":\"tool_calls\"}],\
    \"usage\":{\"prompt_tokens\":7,\"completion_tokens\":3}}\n\n\
    data: [DONE]\n\n";

#[test]
fn a_chat_stream_becomes_an_anthropic_one() {
    let expected = vec![
        message_start("msg_ff", 7),
        block_start(0, r#"{"type": "thinking", "thinking": ""}"#),
        block_delta(0, r#"{"type": "thinking_delta", "thinking": "hm"}"#),
        stop(0),
        block_start(1, r#"{"type": "text", "text": ""}"#),
        block_delta(1, r#"{"type": "text_delta", "text": "Hi"}"#),
        stop(1),
        block_start(2, r#"{"type": "tool_use", "id": "c1", "name": "f", "input": {}}"#),
        block_delta(2, r#"{"type": "input_json_delta", "partial_json": "{}"}"#),
        stop(2),
        message_delta("tool_use", 3),
        message_stop(),
    ];
    let mut s = StreamState::new_at("opus", 255);
    assert_eq!(s.feed(CHAT.as_bytes()), expected);
    assert!(s.feed(b"data: [DONE]\n").is_empty());
    for size in [1, 3, 50] {
        let mut s = StreamState::new_at("opus", 255);
        let mut out = Vec::new();
        for piece in CHAT.as_bytes().chunks(size) {
            out.extend(s.feed(piece));
        }
        assert_eq!(out, expected);
    }
}

#[test]
fn a_chat_stream_without_tools_does_not_end_for_tools() {
    let mut s = StreamState::new_at("opus", 0);
    let out = s.feed(b"data: {\"choices\":[{\"delta\":{},\"finish_reason\":\"tool_calls\"}]}\n");
    assert_eq!(out, vec![message_start("msg_0", 0), message_delta("end_turn", 0), message_stop()]);
    let mut s = StreamState::new("opus");
    assert!(s.feed(b"data: not json\n").is_empty());
    assert_eq!(s.feed(b"data: {}\n").len(), 1);
    assert_eq!(s.feed(b"data: [DONE]\n"), vec![message_delta("end_turn", 0), message_stop()]);
}

#[test]
fn a_responses_stream_becomes_an_anthropic_one() {
    let stream = "event: response.created\n\
        data: {\"type\":\"response.created\",\"response\":{\"id\":\"r1\",\"usage\":{\"input_tokens\":9}}}\n\n\
        data: {\"type\":\"response.in_progress\"}\n\
        data: {\"type\":\"response.reasoning_summary_text.delta\",\"delta\":\"hm\"}\n\
        data: {\"type\":\"response.output_text.delta\",\"delta\":\"Hi\"}\n\
        data: {\"type\":\"response.output_text.done\"}\n\
        data: {\"type\":\"response.output_item.added\",\"item\":{\"type\":\"function_call\",\
        \"call_id\":\"c1\",\"name\":\"f\"}}\n\
        data: {\"type\":\"response.function_call_arguments.delta\",\"delta\":\"{}\"}\n\
        data: {\"type\":\"response.output_item.done\",\"item\":{\"type\":\"function_call\"}}\n\
        data: {\"type\":\"response.completed\",\"response\":{\"status\":\"completed\",\
        \"output\":[{\"type\":\"function_call\"}],\"usage\":{\"output_tokens\":4}}}\n\
        data: [DONE]\n";
    let mut s = ResponsesStreamState::new_at("opus", 16);
    assert_eq!(
        s.feed(stream.as_bytes()),
        vec![
            message_start("r1", 9),
            block_start(0, r#"{"type": "thinking", "thinking": ""}"#),
            block_delta(0, r#"{"type": "thinking_delta", "thinking": "hm"}"#),
            stop(0),
            block_start(1, r#"{"type": "text", "text": ""}"#),
            block_delta(1, r#"{"type": "text_delta", "text": "Hi"}"#),
            stop(1),
            block_start(2, r#"{"type": "tool_use", "id": "c1", "name": "f", "input": {}}"#),
            block_delta(2, r#"{"type": "input_json_delta", "partial_json": "{}"}"#),
            stop(2),
            message_delta("tool_use", 4),
            message_stop(),
        ]
    );
}

fn chunk(id: &str, created: u64, delta: &str, finish: &str) -> String {
    format!(
        "data: {}\n\n",
        canonical(&format!(
            "{{\"id\": \"{}\", \"object\": \"chat.completion.chunk\", \"created\": {}, \
             \"model\": \"opus\", \"choices\": [{{\"index\": 0, \"delta\": {}, \
             \"finish_reason\": {}}}]}}",
            id, created, delta, finish
        ))
    )
}

const ANTHROPIC: &str = "event: message_start\n\
    data: {\"type\":\"message_start\",\"message\":{\"id\":\"msg_1\",\"model\":\"glm\",\
    \"usage\":{\"input_tokens\":2}}}\n\n\
    data: {\"type\":\"content_block_start\",\"index\":0,\"content_block\":{\"type\":\"thinking\"}}\n\
    data: {\"type\":\"content_block_delta\",\"index\":0,\"delta\":{\"type\":\"thinking_delta\",\
    \"thinking\":\"hm\"}}\n\
    data: {\"type\":\"content_block_stop\",\"index\":0}\n\
    data: {\"type\":\"content_block_start\",\"index\":1,\"content_block\":{\"type\":\"text\"}}\n\
    data: {\"type\":\"content_block_delta\",\"index\":1,\"delta\":{\"type\":\"text_delta\",\
    \"text\":\"Hi\"}}\n\
    data: {\"type\":\"content_block_stop\",\"index\":1}\n\
    data: {\"type\":\"content_block_start\",\"index\":2,\"content_block\":{\"type\":\"tool_use\",\
    \"id\":\"t1\",\"name\":\"f\"}}\n\
    data: {\"type\":\"content_block_delta\",\"index\":2,\"delta\":{\"type\":\"input_json_delta\",\
    \"partial_json\":\"{}\"}}\n\
    data: {\"type\":\"content_block_stop\",\"index\":2}\n\
    data: {\"type\":\"message_delta\",\"delta\":{\"stop_reason\":\"tool_use\"},\
    \"usage\":{\"output_tokens\":8}}\n\
    data: {\"type\":\"message_stop\"}\n";

#[test]
fn an_anthropic_stream_becomes_a_chat_one() {
    let mut s = AnthropicStreamState::new_at("opus", 11);
    assert_eq!(
        s.feed(ANTHROPIC.as_bytes()),
        vec![
            chunk("msg_1", 11, r#"{"role": "assistant", "reasoning_content": "hm"}"#, "null"),
            chunk("msg_1", 11, r#"{"content": "Hi"}"#, "null"),
            chunk(
                "msg_1",
                11,
                r#"{"role": "assistant", "tool_calls":
                    [{"index": 2, "function": {"arguments": "{}"}}]}"#,
                "null"
            ),
            chunk(
                "msg_1",
                11,
                r#"{"role": "assistant", "tool_calls": [{"index": 2, "id": "t1",
                    "type": "function", "function": {"name": "f", "arguments": ""}}]}"#,
                "null"
            ),
            chunk("msg_1", 11, "{}", "\"tool_calls\""),
            "data: [DONE]\n\n".to_string(),
        ]
    );
    assert!(AnthropicStreamState::new("opus").feed(b"event: ping\n").is_empty());
}

#[test]
fn a_responses_stream_becomes_a_chat_one() {
    let stream = "data: {\"type\":\"response.created\",\"response\":{\"id\":\"r1\",\"model\":\"glm\",\
        \"created_at\":3}}\n\
        event: response.output_text.delta\n\
        data: {\"delta\":\"Hi\"}\n\
        data: {\"type\":\"response.output_item.added\",\"output_index\":1,\"item\":\
        {\"type\":\"function_call\",\"id\":\"fc1\",\"name\":\"f\"}}\n\
        data: {\"type\":\"response.function_call_arguments.delta\",\"output_index\":1,\
        \"delta\":\"{}\"}\n\
        data: {\"type\":\"response.completed\",\"response\":{\"status\":\"incomplete\"}}\n";
    let mut s = ResponsesChatState::new("opus");
    assert_eq!(
        s.feed(stream.as_bytes()),
        vec![
            chunk("r1", 3, r#"{"role": "assistant", "content": "Hi"}"#, "null"),
            chunk(
                "r1",
                3,
                r#"{"role": "assistant", "tool_calls": [{"index": 1, "id": "fc1",
                    "type": "function", "function": {"name": "f", "arguments": ""}}]}"#,
                "null"
            ),
            chunk(
                "r1",
                3,
                r#"{"role": "assistant", "tool_calls":
                    [{"index": 1, "function": {"arguments": "{}", "name": null}}]}"#,
                "null"
            ),
            chunk("r1", 3, "{}", "\"length\""),
            "data: [DONE]\n\n".to_string(),
        ]
    );
}

/// The name, the number and the data of an event of a Responses stream.
fn read(e: &str) -> (String, u64, Json) {
    let rest = e.strip_prefix("event: ").unwrap();
    let (name, rest) = rest.split_once("\ndata: ").unwrap();
    let data = Json::parse(rest.strip_suffix("\n\n").unwrap()).unwrap();
    assert_eq!(data.str_at("type"), Some(name));
    (name.to_string(), data.u64_at("sequence_number").unwrap(), data)
}

fn names(events: &[String]) -> Vec<String> {
    events.iter().map(|e| read(e).0).collect()
}

fn check_numbers(events: &[String]) {
    for (i, e) in events.iter().enumerate() {
        assert_eq!(read(e).1, i as u64 + 1);
    }
}

#[test]
fn a_chat_stream_becomes_a_responses_one() {
    let mut s = CodexChatToResponsesState::new("opus");
    let mut out = s.feed(CHAT.as_bytes());
    assert!(!s.is_failed());
    assert!(s.end().is_empty());
    assert_eq!(
        names(&out),
        vec![
            "response.created",
            "response.in_progress",
            "response.output_item.added",
            "response.reasoning_summary_part.added",
            "response.reasoning_summary_text.delta",
            "response.reasoning_summary_text.done",
            "response.reasoning_summary_part.done",
            "response.output_item.done",
            "response.output_item.added",
            "response.content_part.added",
            "response.output_text.delta",
            "response.output_item.added",
            "response.function_call_arguments.delta",
            "response.output_text.done",
            "response.content_part.done",
            "response.output_item.done",
            "response.function_call_arguments.done",
            "response.output_item.done",
            "response.completed",
        ]
    );
    check_numbers(&out);
    let response = read(&out.pop().unwrap()).2.get_or_null("response");
    assert_eq!(response.str_at("model"), Some("opus"));
    assert_eq!(response.str_at("status"), Some("completed"));
    let items = response.array_at("output").unwrap();
    assert_eq!(items.len(), 3);
    assert_eq!(items[0].str_at("type"), Some("reasoning"));
    assert_eq!(items[2].str_at("arguments"), Some("{}"));
    assert_eq!(items[2].str_at("id"), Some("fc_c1"));
}

#[test]
fn a_chat_stream_that_fails_says_so() {
    let mut s = CodexChatToResponsesState::new("opus");
    let out = s.feed(b"data: {\"error\":{\"message\":\"x\"}}\ndata: {\"choices\":[]}\n");
    assert_eq!(names(&out), vec!["response.failed"]);
    assert!(s.is_failed());
    let response = read(&out[0]).2.get_or_null("response");
    assert_eq!(response.get_or_null("error").str_at("message"), Some("Upstream error"));
    assert!(s.end().is_empty());
    let mut s = CodexChatToResponsesState::new("opus");
    let out = s.fail("Stream error: reset");
    let response = read(&out[0]).2.get_or_null("response");
    assert_eq!(response.get_or_null("error").str_at("message"), Some("Stream error: reset"));
    let mut s = CodexChatToResponsesState::new("opus");
    assert_eq!(
        names(&s.end()),
        vec!["response.created", "response.in_progress", "response.completed"]
    );
}

#[test]
fn an_anthropic_stream_becomes_a_responses_one() {
    let mut s = CodexAnthropicToResponsesState::new("opus");
    let mut out = s.feed_at(ANTHROPIC.as_bytes(), 5000);
    out.extend(s.end());
    assert_eq!(
        names(&out),
        vec![
            "response.created",
            "response.in_progress",
            "response.output_item.added",
            "response.reasoning_summary_part.added",
            "response.reasoning_summary_text.delta",
            "response.reasoning_summary_text.done",
            "response.reasoning_summary_part.done",
            "response.output_item.done",
            "response.output_item.added",
            "response.content_part.added",
            "response.output_text.delta",
            "response.output_text.done",
            "response.content_part.done",
            "response.output_item.done",
            "response.output_item.added",
            "response.function_call_arguments.delta",
            "response.function_call_arguments.done",
            "response.output_item.done",
            "response.completed",
        ]
    );
    check_numbers(&out);
    let response = read(&out[0]).2.get_or_null("response");
    assert_eq!(response.str_at("id"), Some("resp_5000"));
    let response = read(&out.pop().unwrap()).2.get_or_null("response");
    assert_eq!(response.str_at("id"), Some("msg_1"));
    assert_eq!(response.u64_at("created_at"), Some(5));
    assert_eq!(response.str_at("output_text"), Some("Hi"));
    assert_eq!(response.get_or_null("usage").u64_at("total_tokens"), Some(10));
    assert!(s.end().is_empty());
}

#[test]
fn an_anthropic_stream_that_fails_says_so() {
    let mut s = CodexAnthropicToResponsesState::new("opus");
    let out = s.feed(b"data: {\"type\":\"error\",\"error\":{}}\n");
    assert_eq!(names(&out), vec!["response.failed"]);
    assert!(s.is_failed());
    assert!(s.feed(ANTHROPIC.as_bytes()).is_empty());
    let mut s = CodexAnthropicToResponsesState::new("opus");
    assert_eq!(names(&s.fail("Stream error: eof")), vec!["response.failed"]);
    assert!(s.end().is_empty());
}

#[test]
fn every_tool_of_a_chat_stream_has_a_block_of_its_own() {
    let mut s = StreamState::new_at("opus", 0);
    let out = s.feed(
        b"data: {\"choices\":[{\"delta\":{\"tool_calls\":[{\"index\":0,\"id\":\"a\",\"function\":\
        {\"name\":\"f\"}},{\"index\":1,\"id\":\"b\",\"function\":{\"name\":\"g\",\
        \"arguments\":\"{}\"}}]}}]}\n",
    );
    assert_eq!(
        out,
        vec![
            message_start("msg_0", 0),
            block_start(0, r#"{"type": "tool_use", "id": "a", "name": "f", "input": {}}"#),
            stop(0),
            block_start(1, r#"{"type": "tool_use", "id": "b", "name": "g", "input": {}}"#),
            block_delta(1, r#"{"type": "input_json_delta", "partial_json": "{}"}"#),
        ]
    );
    let out = s.feed(
        b"data: {\"choices\":[{\"delta\":{\"content\":\"Hi\"}}]}\n\
        data: {\"choices\":[{\"delta\":{},\"finish_reason\":\"tool_calls\"}]}\n",
    );
    assert_eq!(
        out,
        vec![
            stop(1),
            block_start(2, r#"{"type": "text", "text": ""}"#),
            block_delta(2, r#"{"type": "text_delta", "text": "Hi"}"#),
            stop(2),
            message_delta("tool_use", 0),
            message_stop(),
        ]
    );
}

#[test]
fn thinking_and_text_of_one_chunk_have_blocks_of_their_own() {
    let mut s = StreamState::new_at("opus", 0);
    let out = s.feed(
        b"data: {\"choices\":[{\"delta\":{\"reasoning_content\":\"hm\",\"content\":\"Hi\"}}]}\n",
    );
    assert_eq!(
        out[1..],
        [
            block_start(0, r#"{"type": "thinking", "thinking": ""}"#),
            block_delta(0, r#"{"type": "thinking_delta", "thinking": "hm"}"#),
            stop(0),
            block_start(1, r#"{"type": "text", "text": ""}"#),
            block_delta(1, r#"{"type": "text_delta", "text": "Hi"}"#),
        ]
    );
}

#[test]
fn every_tool_of_a_responses_stream_has_a_block_of_its_own() {
    let mut s = ResponsesStreamState::new_at("opus", 0);
    let added = |id: &str| {
        format!(
            "data: {{\"type\":\"response.output_item.added\",\"item\":{{\"type\":\"function_call\",\
             \"call_id\":\"{}\",\"name\":\"f\"}}}}\n",
            id
        )
    };
    let mut out = s.feed(added("a").as_bytes());
    out.extend(s.feed(added("b").as_bytes()));
    out.extend(s.feed(b"data: [DONE]\n"));
    assert_eq!(
        out,
        vec![
            block_start(0, r#"{"type": "tool_use", "id": "a", "name": "f", "input": {}}"#),
            stop(0),
            block_start(1, r#"{"type": "tool_use", "id": "b", "name": "f", "input": {}}"#),
            stop(1),
            message_delta("end_turn", 0),
            message_stop(),
        ]
    );
}

#[test]
fn chunks_of_any_size_give_the_same_events() {
    for size in [1, 2, 7, 64] {
        let mut whole = CodexChatToResponsesState::new("opus");
        let mut cut = CodexChatToResponsesState::new("opus");
        let expected = whole.feed(CHAT.as_bytes());
        let mut out = Vec::new();
        for piece in CHAT.as_bytes().chunks(size) {
            out.extend(cut.feed(piece));
        }
        assert_eq!(out, expected);
    }
}

#[test]
fn arguments_of_chat_calls_that_interleave_go_to_their_own_blocks() {
    let mut s = StreamState::new_at("opus", 0);
    let out = s.feed(
        b"data: {\"choices\":[{\"delta\":{\"tool_calls\":[{\"index\":0,\"id\":\"a\",\"function\":\
        {\"name\":\"f\",\"arguments\":\"[1\"}}]}}]}\n\
        data: {\"choices\":[{\"delta\":{\"tool_calls\":[{\"index\":1,\"id\":\"b\",\"function\":\
        {\"name\":\"g\",\"arguments\":\"[2\"}}]}}]}\n\
        data: {\"choices\":[{\"delta\":{\"tool_calls\":[{\"index\":0,\"function\":\
        {\"arguments\":\",3]\"}},{\"index\":1,\"function\":{\"arguments\":\",4]\"}}]}}]}\n",
    );
    assert_eq!(
        out[1..],
        [
            block_start(0, r#"{"type": "tool_use", "id": "a", "name": "f", "input": {}}"#),
            block_delta(0, r#"{"type": "input_json_delta", "partial_json": "[1"}"#),
            stop(0),
            block_start(1, r#"{"type": "tool_use", "id": "b", "name": "g", "input": {}}"#),
            block_delta(1, r#"{"type": "input_json_delta", "partial_json": "[2"}"#),
            block_delta(0, r#"{"type": "input_json_delta", "partial_json": ",3]"}"#),
            block_delta(1, r#"{"type": "input_json_delta", "partial_json": ",4]"}"#),
        ]
    );
}

#[test]
fn arguments_of_responses_calls_that_interleave_go_to_their_own_blocks() {
    let mut s = ResponsesStreamState::new_at("opus", 0);
    let added = |place: u32, id: &str| {
        format!(
            "data: {{\"type\":\"response.output_item.added\",\"output_index\":{},\
             \"item\":{{\"type\":\"function_call\",\"call_id\":\"{}\",\"name\":\"f\"}}}}\n",
            place, id
        )
    };
    let arguments = |place: u32, piece: &str| {
        format!(
            "data: {{\"type\":\"response.function_call_arguments.delta\",\"output_index\":{},\
             \"delta\":\"{}\"}}\n",
            place, piece
        )
    };
    let mut out = s.feed(added(3, "a").as_bytes());
    out.extend(s.feed(added(4, "b").as_bytes()));
    out.extend(s.feed(arguments(3, "[1]").as_bytes()));
    out.extend(s.feed(arguments(4, "[2]").as_bytes()));
    assert_eq!(
        out,
        vec![
            block_start(0, r#"{"type": "tool_use", "id": "a", "name": "f", "input": {}}"#),
            stop(0),
            block_start(1, r#"{"type": "tool_use", "id": "b", "name": "f", "input": {}}"#),
            block_delta(0, r#"{"type": "input_json_delta", "partial_json": "[1]"}"#),
            block_delta(1, r#"{"type": "input_json_delta", "partial_json": "[2]"}"#),
        ]
    );
}

#[test]
fn calls_of_a_chat_stream_are_closed_in_the_order_of_their_places() {
    let mut s = CodexChatToResponsesState::new("opus");
    let mut out = s.feed(
        b"data: {\"choices\":[{\"delta\":{\"tool_calls\":[{\"index\":2,\"id\":\"c\",\"function\":\
        {\"name\":\"f\",\"arguments\":\"{}\"}},{\"index\":0,\"id\":\"a\",\"function\":\
        {\"name\":\"f\",\"arguments\":\"{}\"}},{\"index\":1,\"id\":\"b\",\"function\":\
        {\"name\":\"f\",\"arguments\":\"{}\"}}]}}]}\n\
        data: {\"choices\":[{\"delta\":{},\"finish_reason\":\"tool_calls\"}]}\n",
    );
    out.extend(s.end());
    let closed: Vec<String> = out
        .iter()
        .map(|e| read(e))
        .filter(|(name, _, _)| name == "response.output_item.done")
        .map(|(_, _, v)| v.get_or_null("item").str_or("call_id", "").to_string())
        .collect();
    assert_eq!(closed, vec!["a", "b", "c"]);
}

#[test]
fn thinking_text_and_arguments_come_out_whole_and_in_order() {
    let mut s = StreamState::new_at("opus", 0);
    let out = s.feed(
        b"data: {\"choices\":[{\"delta\":{\"reasoning_content\":\"h\"}}]}\n\
        data: {\"choices\":[{\"delta\":{\"reasoning_content\":\"m\",\"content\":\"a\"}}]}\n\
        data: {\"choices\":[{\"delta\":{\"content\":\"b\"}}]}\n\
        data: {\"choices\":[{\"delta\":{\"content\":\"c\",\"tool_calls\":[{\"index\":0,\
        \"id\":\"t\",\"function\":{\"name\":\"f\",\"arguments\":\"[\"}}]}}]}\n\
        data: {\"choices\":[{\"delta\":{\"tool_calls\":[{\"index\":0,\"function\":\
        {\"arguments\":\"]\"}}]}}]}\n",
    );
    let mut thought = String::new();
    let mut said = String::new();
    let mut input = String::new();
    for e in out.iter() {
        let data = e.split("data: ").nth(1).unwrap();
        let delta = Json::parse(data.trim()).unwrap().get_or_null("delta");
        thought.push_str(delta.str_or("thinking", ""));
        said.push_str(delta.str_or("text", ""));
        input.push_str(delta.str_or("partial_json", ""));
    }
    assert_eq!((thought.as_str(), said.as_str(), input.as_str()), ("hm", "abc", "[]"));
}
