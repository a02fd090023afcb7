use model_router::convert::{
    anthropic_to_openai_request,
    anthropic_to_responses_request,
    openai_to_anthropic_response,
    openai_to_responses_request,
    responses_to_anthropic_response,
    responses_to_openai_response,
};
use model_router::json::Json;

fn json(s: &str) -> Json {
    Json::parse(s).expect("JSON")
}

fn at<'a>(v: &'a Json, path: &[&str]) -> &'a Json {
    let mut v = v;
    for key in path {
        v = match (v.as_array(), key.parse::<usize>()) {
            (Some(items), Ok(i)) => &items[i],
            _ => v.get(key).expect("a value under the key"),
        };
    }
    v
}

fn text<'a>(v: &'a Json, path: &[&str]) -> &'a str {
    at(v, path).as_str().expect("a string")
}

fn array(v: &Json) -> &Vec<Json> {
    v.as_array().expect("an array")
}

#[test]
fn convert_test_anthropic_to_openai_simple_messages() {
    let body = json(
        r#"{
        "model": "sonnet-4-6",
        "messages": [
            {"role": "user", "content": "Hello"},
            {"role": "assistant", "content": "Hi there"}
        ],
        "max_tokens": 1024
    }"#,
    );
    let result = anthropic_to_openai_request(&body, "deepseek-v4-pro");

    assert_eq!(text(&result, &["model"]), "deepseek-v4-pro");
    assert_eq!(at(&result, &["max_tokens"]).as_u64(), Some(1024));

    let messages = array(at(&result, &["messages"]));
    assert_eq!(messages.len(), 2);
    assert_eq!(text(&messages[0], &["role"]), "user");
    assert_eq!(text(&messages[0], &["content"]), "Hello");
    assert_eq!(text(&messages[1], &["role"]), "assistant");
    assert_eq!(text(&messages[1], &["content"]), "Hi there");
}

#[test]
fn convert_test_anthropic_to_openai_with_system() {
    let body = json(
        r#"{
        "model": "sonnet-4-6",
        "system": "You are helpful",
        "messages": [
            {"role": "user", "content": "Hello"}
        ]
    }"#,
    );
    let result = anthropic_to_openai_request(&body, "deepseek-v4-pro");

    let messages = array(at(&result, &["messages"]));
    assert_eq!(messages.len(), 2);
    assert_eq!(text(&messages[0], &["role"]), "system");
    assert_eq!(text(&messages[0], &["content"]), "You are helpful");
    assert_eq!(text(&messages[1], &["role"]), "user");
    assert_eq!(text(&messages[1], &["content"]), "Hello");
    assert!(result.get("system").is_none());
}

#[test]
fn convert_test_anthropic_to_openai_with_tool_use() {
    let body = json(
        r#"{
        "model": "sonnet-4-6",
        "messages": [
            {"role": "user", "content": "List files"},
            {"role": "assistant", "content": [
                {"type": "text", "text": "I'll list files."},
                {"type": "tool_use", "id": "toolu_1", "name": "bash", "input": {"cmd": "ls"}}
            ]},
            {"role": "user", "content": [
                {"type": "tool_result", "tool_use_id": "toolu_1", "content": "file1.txt\nfile2.txt"}
            ]}
        ],
        "tools": [
            {"name": "bash", "description": "Run bash", "input_schema": {"type": "object", "properties": {"cmd": {"type": "string"}}}}
        ]
    }"#,
    );
    let result = anthropic_to_openai_request(&body, "deepseek-v4-pro");

    let messages = array(at(&result, &["messages"]));
    // user, assistant (text + tool_calls), tool result
    assert_eq!(text(&messages[0], &["role"]), "user");
    assert_eq!(text(&messages[1], &["role"]), "assistant");
    assert_eq!(text(&messages[1], &["content"]), "I'll list files.");
    assert_eq!(text(&messages[1], &["tool_calls", "0", "type"]), "function");
    assert_eq!(text(&messages[1], &["tool_calls", "0", "function", "name"]), "bash");
    assert_eq!(text(&messages[2], &["role"]), "tool");
    assert_eq!(text(&messages[2], &["tool_call_id"]), "toolu_1");
    assert_eq!(text(&messages[2], &["content"]), "file1.txt\nfile2.txt");

    let tools = array(at(&result, &["tools"]));
    assert_eq!(text(&tools[0], &["type"]), "function");
    assert_eq!(text(&tools[0], &["function", "name"]), "bash");
}

#[test]
fn convert_test_openai_to_anthropic_simple_response() {
    let body = json(
        r#"{
        "id": "chatcmpl-123",
        "choices": [{
            "message": {"role": "assistant", "content": "Hello!"},
            "finish_reason": "stop"
        }],
        "usage": {"prompt_tokens": 10, "completion_tokens": 5}
    }"#,
    );
    let result = openai_to_anthropic_response(&body, "sonnet-4-6");

    assert_eq!(text(&result, &["type"]), "message");
    assert_eq!(text(&result, &["role"]), "assistant");
    assert_eq!(text(&result, &["stop_reason"]), "end_turn");
    assert_eq!(text(&result, &["model"]), "sonnet-4-6");
    assert_eq!(text(&result, &["content", "0", "type"]), "text");
    assert_eq!(text(&result, &["content", "0", "text"]), "Hello!");
    assert_eq!(at(&result, &["usage", "input_tokens"]).as_u64(), Some(10));
    assert_eq!(at(&result, &["usage", "output_tokens"]).as_u64(), Some(5));
}

#[test]
fn convert_test_openai_to_anthropic_tool_calls_response() {
    let body = json(
        r#"{
        "id": "chatcmpl-456",
        "choices": [{
            "message": {
                "role": "assistant",
                "content": null,
                "tool_calls": [{
                    "id": "call_1",
                    "type": "function",
                    "function": {"name": "bash", "arguments": "{\"cmd\":\"ls\"}"}
                }]
            },
            "finish_reason": "tool_calls"
        }],
        "usage": {"prompt_tokens": 20, "completion_tokens": 10}
    }"#,
    );
    let result = openai_to_anthropic_response(&body, "sonnet-4-6");

    assert_eq!(text(&result, &["stop_reason"]), "tool_use");
    let content = array(at(&result, &["content"]));
    assert_eq!(text(&content[0], &["type"]), "tool_use");
    assert_eq!(text(&content[0], &["id"]), "call_1");
    assert_eq!(text(&content[0], &["name"]), "bash");
    assert_eq!(text(&content[0], &["input", "cmd"]), "ls");
}

#[test]
fn convert_test_anthropic_to_openai_strips_thinking_fields() {
    let body = json(
        r#"{
        "model": "sonnet-4-6",
        "messages": [
            {"role": "user", "content": "Hello"}
        ],
        "max_tokens": 1024,
        "anthropic_version": "2023-06-01",
        "stream": true
    }"#,
    );
    let result = anthropic_to_openai_request(&body, "deepseek-v4-pro");

    assert!(result.get("anthropic_version").is_none());
    assert_eq!(at(&result, &["stream"]).as_bool(), Some(true));
}

#[test]
fn convert_test_anthropic_to_responses_simple() {
    let body = json(
        r#"{
        "model": "sonnet-4-6",
        "system": "You are helpful",
        "messages": [
            {"role": "user", "content": "Hello"},
            {"role": "assistant", "content": "Hi there"}
        ],
        "max_tokens": 1024
    }"#,
    );
    let result = anthropic_to_responses_request(&body, "gpt-4o");

    assert_eq!(text(&result, &["model"]), "gpt-4o");
    assert_eq!(text(&result, &["instructions"]), "You are helpful");
    assert_eq!(at(&result, &["max_output_tokens"]).as_u64(), Some(1024));

    let input = array(at(&result, &["input"]));
    assert_eq!(input.len(), 2);
    assert_eq!(text(&input[0], &["role"]), "user");
    assert_eq!(text(&input[0], &["content"]), "Hello");
    assert_eq!(text(&input[1], &["role"]), "assistant");
}

#[test]
fn convert_test_anthropic_to_responses_with_tool_use() {
    let body = json(
        r#"{
        "model": "sonnet-4-6",
        "messages": [
            {"role": "user", "content": "List files"},
            {"role": "assistant", "content": [
                {"type": "text", "text": "I'll list files."},
                {"type": "tool_use", "id": "toolu_1", "name": "bash", "input": {"cmd": "ls"}}
            ]},
            {"role": "user", "content": [
                {"type": "tool_result", "tool_use_id": "toolu_1", "content": "file1.txt\nfile2.txt"}
            ]}
        ],
        "tools": [
            {"name": "bash", "description": "Run bash", "input_schema": {"type": "object", "properties": {"cmd": {"type": "string"}}}}
        ]
    }"#,
    );
    let result = anthropic_to_responses_request(&body, "gpt-4o");

    let input = array(at(&result, &["input"]));
    // user, assistant message, function_call, function_call_output
    assert_eq!(text(&input[0], &["role"]), "user");
    assert_eq!(text(&input[1], &["role"]), "assistant");
    assert_eq!(text(&input[2], &["type"]), "function_call");
    assert_eq!(text(&input[2], &["call_id"]), "toolu_1");
    assert_eq!(text(&input[2], &["name"]), "bash");
    assert_eq!(text(&input[3], &["type"]), "function_call_output");
    assert_eq!(text(&input[3], &["call_id"]), "toolu_1");

    let tools = array(at(&result, &["tools"]));
    assert_eq!(text(&tools[0], &["type"]), "function");
    assert_eq!(text(&tools[0], &["name"]), "bash");
}

#[test]
fn convert_test_responses_to_anthropic_text_response() {
    let body = json(
        r#"{
        "id": "resp_123",
        "object": "response",
        "output": [
            {
                "type": "message",
                "role": "assistant",
                "content": [
                    {"type": "output_text", "text": "Hello!"}
                ]
            }
        ],
        "status": "completed",
        "usage": {"input_tokens": 10, "output_tokens": 5}
    }"#,
    );
    let result = responses_to_anthropic_response(&body, "sonnet-4-6");

    assert_eq!(text(&result, &["type"]), "message");
    assert_eq!(text(&result, &["role"]), "assistant");
    assert_eq!(text(&result, &["stop_reason"]), "end_turn");
    assert_eq!(text(&result, &["content", "0", "type"]), "text");
    assert_eq!(text(&result, &["content", "0", "text"]), "Hello!");
    assert_eq!(at(&result, &["usage", "input_tokens"]).as_u64(), Some(10));
    assert_eq!(at(&result, &["usage", "output_tokens"]).as_u64(), Some(5));
}

#[test]
fn convert_test_responses_to_anthropic_function_call_response() {
    let body = json(
        r#"{
        "id": "resp_456",
        "output": [
            {
                "type": "message",
                "role": "assistant",
                "content": [
                    {"type": "output_text", "text": "Let me check."}
                ]
            },
            {
                "type": "function_call",
                "call_id": "call_abc",
                "name": "bash",
                "arguments": "{\"cmd\":\"ls\"}"
            }
        ],
        "status": "completed",
        "usage": {"input_tokens": 20, "output_tokens": 10}
    }"#,
    );
    let result = responses_to_anthropic_response(&body, "sonnet-4-6");

    assert_eq!(text(&result, &["stop_reason"]), "tool_use");
    let content = array(at(&result, &["content"]));
    assert_eq!(text(&content[0], &["type"]), "text");
    assert_eq!(text(&content[0], &["text"]), "Let me check.");
    assert_eq!(text(&content[1], &["type"]), "tool_use");
    assert_eq!(text(&content[1], &["id"]), "call_abc");
    assert_eq!(text(&content[1], &["name"]), "bash");
    assert_eq!(text(&content[1], &["input", "cmd"]), "ls");
}

#[test]
fn convert_test_openai_to_responses_simple() {
    let body = json(
        r#"{
        "model": "gpt-4o",
        "messages": [
            {"role": "system", "content": "You are helpful"},
            {"role": "user", "content": "Hello"},
            {"role": "assistant", "content": "Hi there"}
        ],
        "max_tokens": 1024
    }"#,
    );
    let result = openai_to_responses_request(&body, "gpt-4o");

    assert_eq!(text(&result, &["model"]), "gpt-4o");
    assert_eq!(text(&result, &["instructions"]), "You are helpful");
    assert_eq!(at(&result, &["max_output_tokens"]).as_u64(), Some(1024));

    let input = array(at(&result, &["input"]));
    assert_eq!(input.len(), 2); // system extracted as instructions
    assert_eq!(text(&input[0], &["role"]), "user");
    assert_eq!(text(&input[1], &["role"]), "assistant");
}

#[test]
fn convert_test_openai_to_responses_with_tool_calls() {
    let body = json(
        r#"{
        "model": "gpt-4o",
        "messages": [
            {"role": "user", "content": "List files"},
            {"role": "assistant", "content": "I'll check.", "tool_calls": [
                {"id": "call_1", "type": "function", "function": {"name": "bash", "arguments": "{\"cmd\":\"ls\"}"}}
            ]},
            {"role": "tool", "tool_call_id": "call_1", "content": "file1.txt"}
        ]
    }"#,
    );
    let result = openai_to_responses_request(&body, "gpt-4o");

    let input = array(at(&result, &["input"]));
    // user, assistant, function_call, function_call_output
    assert_eq!(text(&input[0], &["role"]), "user");
    assert_eq!(text(&input[1], &["role"]), "assistant");
    assert_eq!(text(&input[2], &["type"]), "function_call");
    assert_eq!(text(&input[2], &["call_id"]), "call_1");
    assert_eq!(text(&input[3], &["type"]), "function_call_output");
    assert_eq!(text(&input[3], &["call_id"]), "call_1");
}

#[test]
fn convert_test_responses_to_openai_text_response() {
    let body = json(
        r#"{
        "id": "resp_123",
        "output": [
            {
                "type": "message",
                "role": "assistant",
                "content": [
                    {"type": "output_text", "text": "Hello!"}
                ]
            }
        ],
        "status": "completed",
        "usage": {"input_tokens": 10, "output_tokens": 5, "total_tokens": 15}
    }"#,
    );
    let result = responses_to_openai_response(&body, "gpt-4o");

    assert_eq!(text(&result, &["object"]), "chat.completion");
    assert_eq!(text(&result, &["model"]), "gpt-4o");
    assert_eq!(text(&result, &["choices", "0", "message", "role"]), "assistant");
    assert_eq!(text(&result, &["choices", "0", "message", "content"]), "Hello!");
    assert_eq!(text(&result, &["choices", "0", "finish_reason"]), "stop");
    assert_eq!(at(&result, &["usage", "prompt_tokens"]).as_u64(), Some(10));
    assert_eq!(at(&result, &["usage", "completion_tokens"]).as_u64(), Some(5));
}

#[test]
fn convert_test_responses_to_openai_function_call_response() {
    let body = json(
        r#"{
        "id": "resp_456",
        "output": [
            {
                "type": "function_call",
                "call_id": "call_abc",
                "name": "bash",
                "arguments": "{\"cmd\":\"ls\"}"
            }
        ],
        "status": "completed",
        "usage": {"input_tokens": 20, "output_tokens": 10, "total_tokens": 30}
    }"#,
    );
    let result = responses_to_openai_response(&body, "gpt-4o");

    assert_eq!(text(&result, &["choices", "0", "finish_reason"]), "tool_calls");
    let tool_calls = array(at(&result, &["choices", "0", "message", "tool_calls"]));
    assert_eq!(text(&tool_calls[0], &["id"]), "call_abc");
    assert_eq!(text(&tool_calls[0], &["function", "name"]), "bash");
    assert_eq!(text(&tool_calls[0], &["function", "arguments"]), "{\"cmd\":\"ls\"}");
}
