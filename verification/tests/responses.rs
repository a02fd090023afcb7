use model_router::convert::{
    openai_to_anthropic_response,
    responses_to_anthropic_response,
    responses_to_openai_response,
};
use model_router::json::Json;

fn json(s: &str) -> Json {
    Json::parse(s).expect("JSON")
}

fn at<'a>(v: &'a Json, path: &[&str]) -> &'a Json {
    let mut v = v;
    for key in path {
        v = match (v.as_array(), key.parse::<usize>()) {
            (Some(items), Ok(i)) => &items[i],
            _ => v.get(key).expect("a value under the key"),
        };
    }
    v
}

fn text<'a>(v: &'a Json, path: &[&str]) -> &'a str {
    at(v, path).as_str().expect("a string")
}

fn array(v: &Json) -> &Vec<Json> {
    v.as_array().expect("an array")
}

#[test]
fn responses_test_openai_to_anthropic_simple_response() {
    let body = json(
        r#"{
        "id": "chatcmpl-123",
        "choices": [{
            "message": {"role": "assistant", "content": "Hello!"},
            "finish_reason": "stop"
        }],
        "usage": {"prompt_tokens": 10, "completion_tokens": 5}
    }"#,
    );
    let result = openai_to_anthropic_response(&body, "sonnet-4-6");

    assert_eq!(text(&result, &["type"]), "message");
    assert_eq!(text(&result, &["role"]), "assistant");
    assert_eq!(text(&result, &["stop_reason"]), "end_turn");
    assert_eq!(text(&result, &["model"]), "sonnet-4-6");
    assert_eq!(text(&result, &["content", "0", "type"]), "text");
    assert_eq!(text(&result, &["content", "0", "text"]), "Hello!");
    assert_eq!(at(&result, &["usage", "input_tokens"]).as_u64(), Some(10));
    assert_eq!(at(&result, &["usage", "output_tokens"]).as_u64(), Some(5));
}

#[test]
fn responses_test_openai_to_anthropic_tool_calls_response() {
    let body = json(
        r#"{
        "id": "chatcmpl-456",
        "choices": [{
            "message": {
                "role": "assistant",
                "content": null,
                "tool_calls": [{
                    "id": "call_1",
                    "type": "function",
                    "function": {"name": "bash", "arguments": "{\"cmd\":\"ls\"}"}
                }]
            },
            "finish_reason": "tool_calls"
        }],
        "usage": {"prompt_tokens": 20, "completion_tokens": 10}
    }"#,
    );
    let result = openai_to_anthropic_response(&body, "sonnet-4-6");

    assert_eq!(text(&result, &["stop_reason"]), "tool_use");
    let content = array(at(&result, &["content"]));
    assert_eq!(text(&content[0], &["type"]), "tool_use");
    assert_eq!(text(&content[0], &["id"]), "call_1");
    assert_eq!(text(&content[0], &["name"]), "bash");
    assert_eq!(text(&content[0], &["input", "cmd"]), "ls");
}

#[test]
fn responses_test_responses_to_anthropic_text_response() {
    let body = json(
        r#"{
        "id": "resp_123",
        "object": "response",
        "output": [
            {
                "type": "message",
                "role": "assistant",
                "content": [
                    {"type": "output_text", "text": "Hello!"}
                ]
            }
        ],
        "status": "completed",
        "usage": {"input_tokens": 10, "output_tokens": 5}
    }"#,
    );
    let result = responses_to_anthropic_response(&body, "sonnet-4-6");

    assert_eq!(text(&result, &["type"]), "message");
    assert_eq!(text(&result, &["role"]), "assistant");
    assert_eq!(text(&result, &["stop_reason"]), "end_turn");
    assert_eq!(text(&result, &["content", "0", "type"]), "text");
    assert_eq!(text(&result, &["content", "0", "text"]), "Hello!");
    assert_eq!(at(&result, &["usage", "input_tokens"]).as_u64(), Some(10));
    assert_eq!(at(&result, &["usage", "output_tokens"]).as_u64(), Some(5));
}

#[test]
fn responses_test_responses_to_anthropic_function_call_response() {
    let body = json(
        r#"{
        "id": "resp_456",
        "output": [
            {
                "type": "message",
                "role": "assistant",
                "content": [
                    {"type": "output_text", "text": "Let me check."}
                ]
            },
            {
                "type": "function_call",
                "call_id": "call_abc",
                "name": "bash",
                "arguments": "{\"cmd\":\"ls\"}"
            }
        ],
        "status": "completed",
        "usage": {"input_tokens": 20, "output_tokens": 10}
    }"#,
    );
    let result = responses_to_anthropic_response(&body, "sonnet-4-6");

    assert_eq!(text(&result, &["stop_reason"]), "tool_use");
    let content = array(at(&result, &["content"]));
    assert_eq!(text(&content[0], &["type"]), "text");
    assert_eq!(text(&content[0], &["text"]), "Let me check.");
    assert_eq!(text(&content[1], &["type"]), "tool_use");
    assert_eq!(text(&content[1], &["id"]), "call_abc");
    assert_eq!(text(&content[1], &["name"]), "bash");
    assert_eq!(text(&content[1], &["input", "cmd"]), "ls");
}

#[test]
fn responses_test_responses_to_openai_text_response() {
    let body = json(
        r#"{
        "id": "resp_123",
        "output": [
            {
                "type": "message",
                "role": "assistant",
                "content": [
                    {"type": "output_text", "text": "Hello!"}
                ]
            }
        ],
        "status": "completed",
        "usage": {"input_tokens": 10, "output_tokens": 5, "total_tokens": 15}
    }"#,
    );
    let result = responses_to_openai_response(&body, "gpt-4o");

    assert_eq!(text(&result, &["object"]), "chat.completion");
    assert_eq!(text(&result, &["model"]), "gpt-4o");
    assert_eq!(text(&result, &["choices", "0", "message", "role"]), "assistant");
    assert_eq!(text(&result, &["choices", "0", "message", "content"]), "Hello!");
    assert_eq!(text(&result, &["choices", "0", "finish_reason"]), "stop");
    assert_eq!(at(&result, &["usage", "prompt_tokens"]).as_u64(), Some(10));
    assert_eq!(at(&result, &["usage", "completion_tokens"]).as_u64(), Some(5));
}

#[test]
fn responses_test_responses_to_openai_function_call_response() {
    let body = json(
        r#"{
        "id": "resp_456",
        "output": [
            {
                "type": "function_call",
                "call_id": "call_abc",
                "name": "bash",
                "arguments": "{\"cmd\":\"ls\"}"
            }
        ],
        "status": "completed",
        "usage": {"input_tokens": 20, "output_tokens": 10, "total_tokens": 30}
    }"#,
    );
    let result = responses_to_openai_response(&body, "gpt-4o");

    assert_eq!(text(&result, &["choices", "0", "finish_reason"]), "tool_calls");
    let tool_calls = array(at(&result, &["choices", "0", "message", "tool_calls"]));
    assert_eq!(text(&tool_calls[0], &["id"]), "call_abc");
    assert_eq!(text(&tool_calls[0], &["function", "name"]), "bash");
    assert_eq!(text(&tool_calls[0], &["function", "arguments"]), "{\"cmd\":\"ls\"}");
}
