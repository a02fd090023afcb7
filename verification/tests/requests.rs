use model_router::clock::{chrono_like_id, id_of_millis, seconds_of_millis, unix_seconds};
use model_router::convert::requests::anthropic_order::codex_fix_anthropic_message_ordering;
use model_router::convert::requests::chat_order::codex_fix_chat_message_ordering;
use model_router::convert::responses::to_responses::{
    codex_chat_usage_to_responses_usage, codex_response_id_from_chat_id,
};
use model_router::convert::responses::to_chat::anthropic_to_openai_response_at;
use model_router::convert::{
    anthropic_to_openai_request, chat_to_responses_response, openai_to_anthropic_request,
    openai_to_anthropic_response, openai_to_responses_request, responses_to_anthropic_request, responses_to_chat_request,
    responses_to_openai_response,
};
use model_router::json::Json;

fn json(s: &str) -> Json {
    Json::parse(s).expect("JSON")
}

fn same(a: &Json, b: &str) {
    assert_eq!(a.to_text(), json(b).to_text());
}

fn messages(s: &str) -> Vec<Json> {
    json(s).as_array().expect("an array").clone()
}

#[test]
fn results_of_tools_come_before_the_text() {
    let body = json(
        r#"{"messages": [{"role": "user", "content": [
            {"type": "text", "text": "and now"},
            {"type": "tool_result", "tool_use_id": "t1", "content": [{"text": "a"}, {"text": "b"}]},
            {"type": "image", "source": 1}
        ]}]}"#,
    );
    same(
        &anthropic_to_openai_request(&body, "m"),
        r#"{"model": "m", "messages": [
            {"role": "tool", "tool_call_id": "t1", "content": "ab"},
            {"role": "user", "content": "and now{\"source\":1,\"type\":\"image\"}"}
        ]}"#,
    );
}

#[test]
fn tool_calls_under_thinking_have_a_reasoning() {
    let body = json(
        r#"{"thinking": {"type": "enabled"}, "tool_choice": {"type": "tool", "name": "f"},
            "messages": [{"role": "assistant", "content": [
                {"type": "tool_use", "id": "t1", "name": "f"}
            ]}]}"#,
    );
    same(
        &anthropic_to_openai_request(&body, "m"),
        r#"{"model": "m", "messages": [{"role": "assistant", "content": "",
            "reasoning_content": " ", "tool_calls": [{"id": "t1", "type": "function",
            "function": {"name": "f", "arguments": "{}"}}]}],
            "tool_choice": {"type": "function", "function": {"name": "f"}}}"#,
    );
}

#[test]
fn chat_messages_are_brought_in_order() {
    let fixed = codex_fix_chat_message_ordering(&messages(
        r#"[{"role": "assistant", "content": "", "tool_calls": [{"id": "c1"}, {"id": "c2"}]},
            {"role": "user", "content": "x"},
            {"role": "tool", "tool_call_id": "c2", "content": "two"},
            {"role": "tool", "tool_call_id": "c3", "content": "lost"},
            {"role": "assistant", "content": "bye"}]"#,
    ));
    same(
        &Json::Arr(fixed),
        r#"[{"role": "assistant", "content": "", "tool_calls": [{"id": "c1"}, {"id": "c2"}]},
            {"role": "tool", "tool_call_id": "c1", "content": ""},
            {"role": "tool", "tool_call_id": "c2", "content": "two"},
            {"role": "user", "content": "x"}]"#,
    );
    let fixed = codex_fix_chat_message_ordering(&messages("[]"));
    same(&Json::Arr(fixed), r#"[{"role": "user", "content": "Continue."}]"#);
}

#[test]
fn anthropic_messages_are_brought_in_order() {
    let fixed = codex_fix_anthropic_message_ordering(&messages(
        r#"[{"role": "assistant", "content": [{"type": "tool_use", "id": "t1"}]},
            {"role": "assistant", "content": "b"},
            {"role": "user", "content": [{"type": "text", "text": "c"}]},
            {"role": "user", "content": "d"},
            {"role": "assistant", "content": "e"}]"#,
    ));
    same(
        &Json::Arr(fixed),
        r#"[{"role": "assistant", "content": [{"type": "tool_use", "id": "t1"}]},
            {"role": "user", "content": [
                {"type": "tool_result", "tool_use_id": "t1", "content": ""}]},
            {"role": "assistant", "content": "b"},
            {"role": "user", "content": [
                {"type": "text", "text": "c"}, {"type": "text", "text": "d"}]},
            {"role": "assistant", "content": "e"},
            {"role": "user", "content": " "}]"#,
    );
    let kept = r#"[{"role": "user", "content": "c"}, {"role": "user", "content": "d"}]"#;
    same(&Json::Arr(codex_fix_anthropic_message_ordering(&messages(kept))), kept);
}

#[test]
fn a_responses_request_becomes_a_chat_one() {
    let body = json(
        r#"{"model": "gpt-5.5", "instructions": "Be brief", "input": "Hi", "stream": true,
            "max_output_tokens": 10}"#,
    );
    let r = responses_to_chat_request(&body, "m");
    same(
        &r,
        r#"{"model": "m", "messages": [{"role": "system", "content": "Be brief"},
            {"role": "user", "content": "Hi"}], "stream": true, "max_tokens": 10}"#,
    );
    let r = responses_to_anthropic_request(&body, "m");
    assert_eq!(r.str_at("model"), Some("m"));
    assert_eq!(r.u64_at("max_tokens"), Some(16000));
    assert_eq!(r.get("stream").and_then(|s| s.as_bool()), Some(true));
}

#[test]
fn a_chat_request_becomes_an_anthropic_one() {
    let r = openai_to_anthropic_request(
        &json(
            r#"{"messages": [{"role": "system", "content": "Be brief"},
                {"role": "user", "content": "Hi"}], "stop": "END", "max_tokens": 5}"#,
        ),
        "m",
    );
    same(
        &r,
        r#"{"model": "m", "system": "Be brief", "messages": [{"role": "user", "content": "Hi"}],
            "stop_sequences": ["END"], "max_tokens": 5}"#,
    );
}

#[test]
fn ids_and_usage_of_responses() {
    assert_eq!(codex_response_id_from_chat_id(Some("chatcmpl-1")), "resp_chatcmpl-1");
    let usage = codex_chat_usage_to_responses_usage(Some(&json(
        r#"{"prompt_tokens": 2, "completion_tokens": 3, "total_tokens": 5}"#,
    )));
    assert_eq!(usage.u64_at("input_tokens"), Some(2));
    assert_eq!(usage.u64_at("output_tokens"), Some(3));
    assert_eq!(usage.u64_at("total_tokens"), Some(5));
}

#[test]
fn the_clock_goes() {
    assert!(chrono_like_id() / 1000 >= unix_seconds() - 5);
    assert!(unix_seconds() > 1_700_000_000);
    assert_eq!(id_of_millis((1 << 64) + 5), 5);
    assert_eq!(seconds_of_millis(12_999), 12);
}

#[test]
fn numbers_are_carried_as_they_came() {
    let v = json(r#"{"a": -1, "b": 1.5, "c": 18446744073709551615}"#);
    assert_eq!(v.u64_at("a"), None);
    assert_eq!(v.u64_at("b"), None);
    assert_eq!(v.u64_at("c"), Some(u64::MAX));
    assert_eq!(v.get("a").unwrap().as_i64(), Some(-1));
    assert_eq!(v.get("b").unwrap().as_i64(), None);
    assert_eq!(v.get("c").unwrap().as_i64(), None);
    assert_eq!(json("7").as_i64(), Some(7));
    assert_eq!(json("\"7\"").as_i64(), None);
    assert_eq!(v.to_text(), r#"{"a":-1,"b":1.5,"c":18446744073709551615}"#);
    assert!(Json::parse("{").is_none());
}

#[test]
fn an_anthropic_response_comes_back_from_a_chat_one() {
    let a = json(
        r#"{"id": "msg_1", "content": [{"type": "thinking", "thinking": "hm"},
            {"type": "text", "text": "Hi"},
            {"type": "tool_use", "id": "t1", "name": "f", "input": {"a": [1, -2, {"b": "\u0001"}]}}],
            "stop_reason": "tool_use", "usage": {"input_tokens": 3, "output_tokens": 4}}"#,
    );
    let o = anthropic_to_openai_response_at(&a, "opus", 5);
    let r = openai_to_anthropic_response(&o, "opus");
    assert_eq!(r.str_at("id"), Some("msg_1"));
    assert_eq!(r.get("content").unwrap().to_text(), a.get("content").unwrap().to_text());
    assert_eq!(r.str_at("stop_reason"), Some("tool_use"));
    assert_eq!(r.get("usage").unwrap().u64_at("input_tokens"), Some(3));
    assert_eq!(r.get("usage").unwrap().u64_at("output_tokens"), Some(4));
    assert_eq!(r.str_at("model"), Some("opus"));
}

#[test]
fn a_chat_response_comes_back_from_a_responses_one() {
    let message = r#"{"role": "assistant", "content": "Hi", "tool_calls": [{"id": "c1",
        "type": "function", "function": {"name": "f", "arguments": "{}"}}]}"#;
    let c = json(&format!(
        "{{\"id\": \"x\", \"choices\": [{{\"message\": {}, \"finish_reason\": \"tool_calls\"}}], \
         \"usage\": {{\"prompt_tokens\": 1, \"completion_tokens\": 2, \"total_tokens\": 3}}}}",
        message
    ));
    let back = responses_to_openai_response(&chat_to_responses_response(&c, "m"), "m");
    let choice = &back.array_at("choices").unwrap()[0];
    same(choice.get("message").unwrap(), message);
    assert_eq!(choice.str_at("finish_reason"), Some("tool_calls"));
    assert_eq!(back.get("usage").unwrap().to_text(), c.get("usage").unwrap().to_text());
    assert_eq!(back.str_at("model"), Some("m"));
}

#[test]
fn no_assistant_speaks_last_in_chat_messages_in_order() {
    let fixed = codex_fix_chat_message_ordering(&messages(
        r#"[{"role": "user", "content": "x"},
            {"role": "assistant", "content": "", "tool_calls": [{"id": "c1"}]}]"#,
    ));
    same(
        &Json::Arr(fixed),
        r#"[{"role": "user", "content": "x"},
            {"role": "assistant", "content": "", "tool_calls": [{"id": "c1"}]},
            {"role": "tool", "tool_call_id": "c1", "content": ""}]"#,
    );
}

#[test]
fn messages_of_other_roles_become_those_of_users() {
    let body = json(
        r#"{"model": "gpt-4o", "max_tokens": 7, "messages": [
            {"role": "system", "content": "A"},
            {"role": "system", "content": "B"},
            {"role": "developer", "content": "C"}]}"#,
    );
    let r = openai_to_responses_request(&body, "gpt-4o");
    assert_eq!(r.str_at("instructions"), Some("A"));
    assert_eq!(r.u64_at("max_output_tokens"), Some(7));
    same(
        r.get("input").unwrap(),
        r#"[{"role": "user", "content": "B"}, {"role": "user", "content": "C"}]"#,
    );
}
