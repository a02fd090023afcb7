//! That the keys and words of requests and responses differ.

use vstd::prelude::*;

verus! {

/// The roles of messages differ, and the keys of messages, of their blocks and of bodies.
pub(crate) proof fn lemma_message_names()
    ensures
        "user"@ != "assistant"@,
        "user"@ != "tool"@,
        "tool"@ != "assistant"@,
        "tool"@ != ""@,
        "role"@ != "content"@,
        "role"@ != "tool_call_id"@,
        "role"@ != "tool_calls"@,
        "role"@ != "messages"@,
        "role"@ != "type"@,
        "content"@ != "tool_call_id"@,
        "content"@ != "tool_calls"@,
        "content"@ != "messages"@,
        "tool_call_id"@ != "tool_calls"@,
        "type"@ != "content"@,
        "type"@ != "messages"@,
        "text"@ != "messages"@,
{
    reveal_strlit("user");
    reveal_strlit("assistant");
    reveal_strlit("tool");
    reveal_strlit("");
    assert("user"@.len() == 4 && "tool"@.len() == 4);
    assert("assistant"@.len() == 9 && ""@.len() == 0);
    assert("user"@[0] == 'u' && "tool"@[0] == 't');
    reveal_strlit("role");
    reveal_strlit("content");
    reveal_strlit("tool_call_id");
    reveal_strlit("tool_calls");
    reveal_strlit("messages");
    reveal_strlit("type");
    reveal_strlit("text");
    assert("role"@.len() == 4 && "type"@.len() == 4 && "text"@.len() == 4);
    assert("content"@.len() == 7 && "tool_call_id"@.len() == 12);
    assert("tool_calls"@.len() == 10 && "messages"@.len() == 8);
    assert("role"@[0] == 'r' && "type"@[0] == 't');
}

/// The keys and types of the blocks, calls and messages differ.
pub(crate) proof fn lemma_block_keys()
    ensures
        "type"@ != "text"@,
        "type"@ != "thinking"@,
        "type"@ != "id"@,
        "type"@ != "name"@,
        "type"@ != "input"@,
        "id"@ != "name"@,
        "id"@ != "input"@,
        "name"@ != "input"@,
        "id"@ != "function"@,
        "type"@ != "function"@,
        "name"@ != "arguments"@,
        "text"@ != "thinking"@,
        "text"@ != "tool_use"@,
        "thinking"@ != "tool_use"@,
        "role"@ != "content"@,
        "role"@ != "reasoning_content"@,
        "role"@ != "tool_calls"@,
        "content"@ != "reasoning_content"@,
        "content"@ != "tool_calls"@,
        "reasoning_content"@ != "tool_calls"@,
        ""@.len() == 0,
{
    reveal_strlit("type");
    reveal_strlit("text");
    reveal_strlit("thinking");
    reveal_strlit("id");
    reveal_strlit("name");
    reveal_strlit("input");
    reveal_strlit("function");
    reveal_strlit("arguments");
    reveal_strlit("tool_use");
    reveal_strlit("role");
    reveal_strlit("content");
    reveal_strlit("reasoning_content");
    reveal_strlit("tool_calls");
    reveal_strlit("");
    assert("type"@[1] == 'y' && "text"@[1] == 'e' && "name"@[1] == 'a');
    assert("id"@.len() == 2 && "input"@.len() == 5);
    assert("thinking"@.len() == 8 && "function"@.len() == 8 && "tool_use"@.len() == 8);
    assert("thinking"@[1] == 'h' && "tool_use"@[1] == 'o');
    assert("arguments"@.len() == 9 && "content"@.len() == 7 && "role"@.len() == 4);
    assert("reasoning_content"@.len() == 17 && "tool_calls"@.len() == 10);
    assert("type"@.len() == 4 && "text"@.len() == 4 && "name"@.len() == 4);
}

/// The keys of a chat response and of its choice differ.
pub(crate) proof fn lemma_response_keys()
    ensures
        "id"@ != "object"@,
        "id"@ != "created"@,
        "id"@ != "model"@,
        "id"@ != "choices"@,
        "id"@ != "usage"@,
        "choices"@ != "usage"@,
        "model"@ != "choices"@,
        "model"@ != "usage"@,
        "index"@ != "message"@,
        "message"@ != "finish_reason"@,
        "prompt_tokens"@ != "completion_tokens"@,
        "prompt_tokens"@ != "total_tokens"@,
        "completion_tokens"@ != "total_tokens"@,
        "input_tokens"@ != "output_tokens"@,
        "input_tokens"@ != "total_tokens"@,
        "output_tokens"@ != "total_tokens"@,
{
    reveal_strlit("id");
    reveal_strlit("object");
    reveal_strlit("created");
    reveal_strlit("model");
    reveal_strlit("choices");
    reveal_strlit("usage");
    reveal_strlit("index");
    reveal_strlit("message");
    reveal_strlit("finish_reason");
    reveal_strlit("prompt_tokens");
    reveal_strlit("completion_tokens");
    reveal_strlit("total_tokens");
    reveal_strlit("input_tokens");
    reveal_strlit("output_tokens");
    assert("id"@.len() == 2 && "object"@.len() == 6 && "created"@.len() == 7);
    assert("model"@.len() == 5 && "choices"@.len() == 7 && "usage"@.len() == 5);
    assert("model"@[0] == 'm' && "usage"@[0] == 'u');
    assert("index"@.len() == 5 && "message"@.len() == 7 && "finish_reason"@.len() == 13);
    assert("prompt_tokens"@.len() == 13 && "completion_tokens"@.len() == 17);
    assert("total_tokens"@.len() == 12 && "input_tokens"@.len() == 12);
    assert("output_tokens"@.len() == 13);
    assert("total_tokens"@[0] == 't' && "input_tokens"@[0] == 'i');
}

/// The keys of an Anthropic response differ.
pub(crate) proof fn lemma_message_keys()
    ensures
        "id"@ != "type"@,
        "id"@ != "role"@,
        "id"@ != "content"@,
        "id"@ != "stop_reason"@,
        "id"@ != "stop_sequence"@,
        "content"@ != "model"@,
        "content"@ != "stop_reason"@,
        "content"@ != "stop_sequence"@,
        "content"@ != "usage"@,
        "model"@ != "stop_reason"@,
        "model"@ != "stop_sequence"@,
        "stop_reason"@ != "stop_sequence"@,
        "stop_reason"@ != "usage"@,
        "input_tokens"@ != "cache_creation_input_tokens"@,
        "input_tokens"@ != "cache_read_input_tokens"@,
        "output_tokens"@ != "cache_creation_input_tokens"@,
        "output_tokens"@ != "cache_read_input_tokens"@,
        "tool_use"@ != "max_tokens"@,
        "tool_use"@ != "end_turn"@,
        "max_tokens"@ != "end_turn"@,
        "tool_calls"@ != "length"@,
        "tool_calls"@ != "stop"@,
        "length"@ != "stop"@,
{
    reveal_strlit("id");
    reveal_strlit("type");
    reveal_strlit("role");
    reveal_strlit("content");
    reveal_strlit("model");
    reveal_strlit("usage");
    reveal_strlit("stop_reason");
    reveal_strlit("stop_sequence");
    reveal_strlit("input_tokens");
    reveal_strlit("output_tokens");
    reveal_strlit("cache_creation_input_tokens");
    reveal_strlit("cache_read_input_tokens");
    reveal_strlit("tool_use");
    reveal_strlit("max_tokens");
    reveal_strlit("end_turn");
    reveal_strlit("tool_calls");
    reveal_strlit("length");
    reveal_strlit("stop");
    assert("id"@.len() == 2 && "type"@.len() == 4 && "role"@.len() == 4 && "content"@.len() == 7);
    assert("model"@.len() == 5 && "usage"@.len() == 5 && "stop_reason"@.len() == 11);
    assert("stop_sequence"@.len() == 13 && "input_tokens"@.len() == 12);
    assert("output_tokens"@.len() == 13 && "cache_creation_input_tokens"@.len() == 27);
    assert("cache_read_input_tokens"@.len() == 23);
    assert("tool_use"@.len() == 8 && "max_tokens"@.len() == 10 && "end_turn"@.len() == 8);
    assert("tool_use"@[0] == 't' && "end_turn"@[0] == 'e');
    assert("tool_calls"@.len() == 10 && "length"@.len() == 6 && "stop"@.len() == 4);
}

/// The keys of items and of a Responses response differ.
pub(crate) proof fn lemma_item_keys()
    ensures
        "id"@ != "status"@,
        "id"@ != "summary"@,
        "id"@ != "call_id"@,
        "id"@ != "arguments"@,
        "type"@ != "status"@,
        "type"@ != "summary"@,
        "type"@ != "role"@,
        "type"@ != "content"@,
        "type"@ != "call_id"@,
        "type"@ != "arguments"@,
        "type"@ != "annotations"@,
        "text"@ != "annotations"@,
        "call_id"@ != "name"@,
        "call_id"@ != "arguments"@,
        "reasoning"@ != "message"@,
        "reasoning"@ != "function_call"@,
        "message"@ != "function_call"@,
        "output"@ != "usage"@,
        "output"@ != "incomplete_details"@,
        "usage"@ != "incomplete_details"@,
        "status"@ != "model"@,
        "status"@ != "output"@,
        "status"@ != "usage"@,
        "status"@ != "incomplete_details"@,
        "incomplete"@ != "completed"@,
{
    reveal_strlit("id");
    reveal_strlit("type");
    reveal_strlit("text");
    reveal_strlit("status");
    reveal_strlit("summary");
    reveal_strlit("role");
    reveal_strlit("content");
    reveal_strlit("call_id");
    reveal_strlit("name");
    reveal_strlit("arguments");
    reveal_strlit("annotations");
    reveal_strlit("reasoning");
    reveal_strlit("message");
    reveal_strlit("function_call");
    reveal_strlit("output");
    reveal_strlit("usage");
    reveal_strlit("model");
    reveal_strlit("incomplete_details");
    reveal_strlit("incomplete");
    reveal_strlit("completed");
    assert("id"@.len() == 2 && "type"@.len() == 4 && "text"@.len() == 4 && "role"@.len() == 4);
    assert("type"@[0] == 't' && "role"@[0] == 'r');
    assert("status"@.len() == 6 && "summary"@.len() == 7 && "content"@.len() == 7);
    assert("call_id"@.len() == 7 && "name"@.len() == 4 && "arguments"@.len() == 9);
    assert("annotations"@.len() == 11 && "reasoning"@.len() == 9 && "message"@.len() == 7);
    assert("function_call"@.len() == 13 && "output"@.len() == 6 && "usage"@.len() == 5);
    assert("status"@[0] == 's' && "output"@[0] == 'o' && "model"@.len() == 5);
    assert("incomplete_details"@.len() == 18);
    assert("incomplete"@.len() == 10 && "completed"@.len() == 9);
}

/// The keys of the chunks of a chat stream differ.
pub(crate) proof fn lemma_chunk_keys()
    ensures
        "id"@ != "object"@,
        "id"@ != "created"@,
        "id"@ != "model"@,
        "id"@ != "choices"@,
        "object"@ != "created"@,
        "object"@ != "model"@,
        "object"@ != "choices"@,
        "created"@ != "model"@,
        "created"@ != "choices"@,
        "model"@ != "choices"@,
        "index"@ != "delta"@,
        "index"@ != "finish_reason"@,
        "delta"@ != "finish_reason"@,
        "role"@ != "content"@,
        "role"@ != "reasoning_content"@,
        "role"@ != "tool_calls"@,
        "content"@ != "reasoning_content"@,
        "content"@ != "tool_calls"@,
        "reasoning_content"@ != "tool_calls"@,
        "index"@ != "id"@,
        "index"@ != "type"@,
        "index"@ != "function"@,
        "id"@ != "type"@,
        "id"@ != "function"@,
        "type"@ != "function"@,
        "name"@ != "arguments"@,
{
    reveal_strlit("id");
    reveal_strlit("object");
    reveal_strlit("created");
    reveal_strlit("model");
    reveal_strlit("choices");
    reveal_strlit("index");
    reveal_strlit("delta");
    reveal_strlit("finish_reason");
    reveal_strlit("role");
    reveal_strlit("content");
    reveal_strlit("reasoning_content");
    reveal_strlit("tool_calls");
    reveal_strlit("type");
    reveal_strlit("function");
    reveal_strlit("name");
    reveal_strlit("arguments");
    assert("id"@.len() == 2);
    assert("object"@.len() == 6);
    assert("created"@.len() == 7);
    assert("model"@.len() == 5);
    assert("choices"@.len() == 7);
    assert("index"@.len() == 5);
    assert("delta"@.len() == 5);
    assert("finish_reason"@.len() == 13);
    assert("role"@.len() == 4);
    assert("content"@.len() == 7);
    assert("reasoning_content"@.len() == 17);
    assert("tool_calls"@.len() == 10);
    assert("type"@.len() == 4);
    assert("function"@.len() == 8);
    assert("name"@.len() == 4);
    assert("arguments"@.len() == 9);
    assert("created"@[1] == 'r');
    assert("choices"@[1] == 'h');
    assert("index"@[0] == 'i');
    assert("delta"@[0] == 'd');
}

/// The keys of the events of a Responses stream and of their items differ.
pub(crate) proof fn lemma_event_keys()
    ensures
        "type"@ != "sequence_number"@,
        "type"@ != "item_id"@,
        "type"@ != "output_index"@,
        "type"@ != "delta"@,
        "type"@ != "text"@,
        "type"@ != "arguments"@,
        "type"@ != "item"@,
        "type"@ != "part"@,
        "type"@ != "summary_index"@,
        "type"@ != "content_index"@,
        "type"@ != "response"@,
        "sequence_number"@ != "item_id"@,
        "sequence_number"@ != "output_index"@,
        "sequence_number"@ != "delta"@,
        "sequence_number"@ != "text"@,
        "sequence_number"@ != "arguments"@,
        "sequence_number"@ != "item"@,
        "sequence_number"@ != "part"@,
        "sequence_number"@ != "summary_index"@,
        "sequence_number"@ != "content_index"@,
        "sequence_number"@ != "response"@,
        "item_id"@ != "output_index"@,
        "item_id"@ != "delta"@,
        "item_id"@ != "text"@,
        "item_id"@ != "arguments"@,
        "item_id"@ != "item"@,
        "item_id"@ != "part"@,
        "item_id"@ != "summary_index"@,
        "item_id"@ != "content_index"@,
        "item_id"@ != "response"@,
        "output_index"@ != "delta"@,
        "output_index"@ != "text"@,
        "output_index"@ != "arguments"@,
        "output_index"@ != "item"@,
        "output_index"@ != "part"@,
        "output_index"@ != "summary_index"@,
        "output_index"@ != "content_index"@,
        "output_index"@ != "response"@,
        "delta"@ != "text"@,
        "delta"@ != "arguments"@,
        "delta"@ != "item"@,
        "delta"@ != "part"@,
        "delta"@ != "summary_index"@,
        "delta"@ != "content_index"@,
        "delta"@ != "response"@,
        "text"@ != "arguments"@,
        "text"@ != "item"@,
        "text"@ != "part"@,
        "text"@ != "summary_index"@,
        "text"@ != "content_index"@,
        "text"@ != "response"@,
        "arguments"@ != "item"@,
        "arguments"@ != "part"@,
        "arguments"@ != "summary_index"@,
        "arguments"@ != "content_index"@,
        "arguments"@ != "response"@,
        "item"@ != "part"@,
        "item"@ != "summary_index"@,
        "item"@ != "content_index"@,
        "item"@ != "response"@,
        "part"@ != "summary_index"@,
        "part"@ != "content_index"@,
        "part"@ != "response"@,
        "summary_index"@ != "content_index"@,
        "summary_index"@ != "response"@,
        "content_index"@ != "response"@,
        "id"@ != "type"@,
        "id"@ != "status"@,
        "id"@ != "role"@,
        "id"@ != "content"@,
        "id"@ != "summary"@,
        "id"@ != "call_id"@,
        "id"@ != "name"@,
        "id"@ != "arguments"@,
        "type"@ != "status"@,
        "type"@ != "role"@,
        "type"@ != "content"@,
        "type"@ != "summary"@,
        "type"@ != "call_id"@,
        "type"@ != "name"@,
        "status"@ != "role"@,
        "status"@ != "content"@,
        "status"@ != "summary"@,
        "status"@ != "call_id"@,
        "status"@ != "name"@,
        "status"@ != "arguments"@,
        "role"@ != "content"@,
        "role"@ != "summary"@,
        "role"@ != "call_id"@,
        "role"@ != "name"@,
        "role"@ != "arguments"@,
        "content"@ != "summary"@,
        "content"@ != "call_id"@,
        "content"@ != "name"@,
        "content"@ != "arguments"@,
        "summary"@ != "call_id"@,
        "summary"@ != "name"@,
        "summary"@ != "arguments"@,
        "call_id"@ != "name"@,
        "call_id"@ != "arguments"@,
        "name"@ != "arguments"@,
        "type"@ != "annotations"@,
        "text"@ != "annotations"@,
        "reasoning"@ != "message"@,
        "reasoning"@ != "function_call"@,
        "message"@ != "function_call"@,
{
    reveal_strlit("type");
    reveal_strlit("sequence_number");
    reveal_strlit("item_id");
    reveal_strlit("output_index");
    reveal_strlit("delta");
    reveal_strlit("text");
    reveal_strlit("arguments");
    reveal_strlit("item");
    reveal_strlit("part");
    reveal_strlit("summary_index");
    reveal_strlit("content_index");
    reveal_strlit("response");
    reveal_strlit("id");
    reveal_strlit("status");
    reveal_strlit("role");
    reveal_strlit("content");
    reveal_strlit("summary");
    reveal_strlit("call_id");
    reveal_strlit("name");
    reveal_strlit("annotations");
    reveal_strlit("reasoning");
    reveal_strlit("message");
    reveal_strlit("function_call");
    assert("type"@.len() == 4);
    assert("sequence_number"@.len() == 15);
    assert("item_id"@.len() == 7);
    assert("output_index"@.len() == 12);
    assert("delta"@.len() == 5);
    assert("text"@.len() == 4);
    assert("arguments"@.len() == 9);
    assert("item"@.len() == 4);
    assert("part"@.len() == 4);
    assert("summary_index"@.len() == 13);
    assert("content_index"@.len() == 13);
    assert("response"@.len() == 8);
    assert("id"@.len() == 2);
    assert("status"@.len() == 6);
    assert("role"@.len() == 4);
    assert("content"@.len() == 7);
    assert("summary"@.len() == 7);
    assert("call_id"@.len() == 7);
    assert("name"@.len() == 4);
    assert("annotations"@.len() == 11);
    assert("reasoning"@.len() == 9);
    assert("message"@.len() == 7);
    assert("function_call"@.len() == 13);
    assert("type"@[1] == 'y');
    assert("text"@[1] == 'e');
    assert("type"@[0] == 't');
    assert("item"@[0] == 'i');
    assert("part"@[0] == 'p');
    assert("text"@[0] == 't');
    assert("summary_index"@[0] == 's');
    assert("content_index"@[0] == 'c');
    assert("role"@[0] == 'r');
    assert("name"@[0] == 'n');
    assert("content"@[0] == 'c');
    assert("summary"@[0] == 's');
    assert("content"@[1] == 'o');
    assert("call_id"@[1] == 'a');
    assert("call_id"@[0] == 'c');
}

/// The names of the events of a Responses stream differ.
pub(crate) proof fn lemma_event_names()
    ensures
        "response.created"@ != "response.in_progress"@,
        "response.created"@ != "response.completed"@,
        "response.created"@ != "response.failed"@,
        "response.created"@ != "response.output_item.added"@,
        "response.created"@ != "response.output_item.done"@,
        "response.created"@ != "response.output_text.delta"@,
        "response.created"@ != "response.output_text.done"@,
        "response.created"@ != "response.reasoning_summary_text.delta"@,
        "response.created"@ != "response.reasoning_summary_text.done"@,
        "response.created"@ != "response.reasoning_summary_part.added"@,
        "response.created"@ != "response.reasoning_summary_part.done"@,
        "response.created"@ != "response.content_part.added"@,
        "response.created"@ != "response.content_part.done"@,
        "response.created"@ != "response.function_call_arguments.delta"@,
        "response.created"@ != "response.function_call_arguments.done"@,
        "response.in_progress"@ != "response.completed"@,
        "response.in_progress"@ != "response.failed"@,
        "response.in_progress"@ != "response.output_item.added"@,
        "response.in_progress"@ != "response.output_item.done"@,
        "response.in_progress"@ != "response.output_text.delta"@,
        "response.in_progress"@ != "response.output_text.done"@,
        "response.in_progress"@ != "response.reasoning_summary_text.delta"@,
        "response.in_progress"@ != "response.reasoning_summary_text.done"@,
        "response.in_progress"@ != "response.reasoning_summary_part.added"@,
        "response.in_progress"@ != "response.reasoning_summary_part.done"@,
        "response.in_progress"@ != "response.content_part.added"@,
        "response.in_progress"@ != "response.content_part.done"@,
        "response.in_progress"@ != "response.function_call_arguments.delta"@,
        "response.in_progress"@ != "response.function_call_arguments.done"@,
        "response.completed"@ != "response.failed"@,
        "response.completed"@ != "response.output_item.added"@,
        "response.completed"@ != "response.output_item.done"@,
        "response.completed"@ != "response.output_text.delta"@,
        "response.completed"@ != "response.output_text.done"@,
        "response.completed"@ != "response.reasoning_summary_text.delta"@,
        "response.completed"@ != "response.reasoning_summary_text.done"@,
        "response.completed"@ != "response.reasoning_summary_part.added"@,
        "response.completed"@ != "response.reasoning_summary_part.done"@,
        "response.completed"@ != "response.content_part.added"@,
        "response.completed"@ != "response.content_part.done"@,
        "response.completed"@ != "response.function_call_arguments.delta"@,
        "response.completed"@ != "response.function_call_arguments.done"@,
        "response.failed"@ != "response.output_item.added"@,
        "response.failed"@ != "response.output_item.done"@,
        "response.failed"@ != "response.output_text.delta"@,
        "response.failed"@ != "response.output_text.done"@,
        "response.failed"@ != "response.reasoning_summary_text.delta"@,
        "response.failed"@ != "response.reasoning_summary_text.done"@,
        "response.failed"@ != "response.reasoning_summary_part.added"@,
        "response.failed"@ != "response.reasoning_summary_part.done"@,
        "response.failed"@ != "response.content_part.added"@,
        "response.failed"@ != "response.content_part.done"@,
        "response.failed"@ != "response.function_call_arguments.delta"@,
        "response.failed"@ != "response.function_call_arguments.done"@,
        "response.output_item.added"@ != "response.output_item.done"@,
        "response.output_item.added"@ != "response.output_text.delta"@,
        "response.output_item.added"@ != "response.output_text.done"@,
        "response.output_item.added"@ != "response.reasoning_summary_text.delta"@,
        "response.output_item.added"@ != "response.reasoning_summary_text.done"@,
        "response.output_item.added"@ != "response.reasoning_summary_part.added"@,
        "response.output_item.added"@ != "response.reasoning_summary_part.done"@,
        "response.output_item.added"@ != "response.content_part.added"@,
        "response.output_item.added"@ != "response.content_part.done"@,
        "response.output_item.added"@ != "response.function_call_arguments.delta"@,
        "response.output_item.added"@ != "response.function_call_arguments.done"@,
        "response.output_item.done"@ != "response.output_text.delta"@,
        "response.output_item.done"@ != "response.output_text.done"@,
        "response.output_item.done"@ != "response.reasoning_summary_text.delta"@,
        "response.output_item.done"@ != "response.reasoning_summary_text.done"@,
        "response.output_item.done"@ != "response.reasoning_summary_part.added"@,
        "response.output_item.done"@ != "response.reasoning_summary_part.done"@,
        "response.output_item.done"@ != "response.content_part.added"@,
        "response.output_item.done"@ != "response.content_part.done"@,
        "response.output_item.done"@ != "response.function_call_arguments.delta"@,
        "response.output_item.done"@ != "response.function_call_arguments.done"@,
        "response.output_text.delta"@ != "response.output_text.done"@,
        "response.output_text.delta"@ != "response.reasoning_summary_text.delta"@,
        "response.output_text.delta"@ != "response.reasoning_summary_text.done"@,
        "response.output_text.delta"@ != "response.reasoning_summary_part.added"@,
        "response.output_text.delta"@ != "response.reasoning_summary_part.done"@,
        "response.output_text.delta"@ != "response.content_part.added"@,
        "response.output_text.delta"@ != "response.content_part.done"@,
        "response.output_text.delta"@ != "response.function_call_arguments.delta"@,
        "response.output_text.delta"@ != "response.function_call_arguments.done"@,
        "response.output_text.done"@ != "response.reasoning_summary_text.delta"@,
        "response.output_text.done"@ != "response.reasoning_summary_text.done"@,
        "response.output_text.done"@ != "response.reasoning_summary_part.added"@,
        "response.output_text.done"@ != "response.reasoning_summary_part.done"@,
        "response.output_text.done"@ != "response.content_part.added"@,
        "response.output_text.done"@ != "response.content_part.done"@,
        "response.output_text.done"@ != "response.function_call_arguments.delta"@,
        "response.output_text.done"@ != "response.function_call_arguments.done"@,
        "response.reasoning_summary_text.delta"@ != "response.reasoning_summary_text.done"@,
        "response.reasoning_summary_text.delta"@ != "response.reasoning_summary_part.added"@,
        "response.reasoning_summary_text.delta"@ != "response.reasoning_summary_part.done"@,
        "response.reasoning_summary_text.delta"@ != "response.content_part.added"@,
        "response.reasoning_summary_text.delta"@ != "response.content_part.done"@,
        "response.reasoning_summary_text.delta"@ != "response.function_call_arguments.delta"@,
        "response.reasoning_summary_text.delta"@ != "response.function_call_arguments.done"@,
        "response.reasoning_summary_text.done"@ != "response.reasoning_summary_part.added"@,
        "response.reasoning_summary_text.done"@ != "response.reasoning_summary_part.done"@,
        "response.reasoning_summary_text.done"@ != "response.content_part.added"@,
        "response.reasoning_summary_text.done"@ != "response.content_part.done"@,
        "response.reasoning_summary_text.done"@ != "response.function_call_arguments.delta"@,
        "response.reasoning_summary_text.done"@ != "response.function_call_arguments.done"@,
        "response.reasoning_summary_part.added"@ != "response.reasoning_summary_part.done"@,
        "response.reasoning_summary_part.added"@ != "response.content_part.added"@,
        "response.reasoning_summary_part.added"@ != "response.content_part.done"@,
        "response.reasoning_summary_part.added"@ != "response.function_call_arguments.delta"@,
        "response.reasoning_summary_part.added"@ != "response.function_call_arguments.done"@,
        "response.reasoning_summary_part.done"@ != "response.content_part.added"@,
        "response.reasoning_summary_part.done"@ != "response.content_part.done"@,
        "response.reasoning_summary_part.done"@ != "response.function_call_arguments.delta"@,
        "response.reasoning_summary_part.done"@ != "response.function_call_arguments.done"@,
        "response.content_part.added"@ != "response.content_part.done"@,
        "response.content_part.added"@ != "response.function_call_arguments.delta"@,
        "response.content_part.added"@ != "response.function_call_arguments.done"@,
        "response.content_part.done"@ != "response.function_call_arguments.delta"@,
        "response.content_part.done"@ != "response.function_call_arguments.done"@,
        "response.function_call_arguments.delta"@ != "response.function_call_arguments.done"@,
{
    reveal_strlit("response.created");
    reveal_strlit("response.in_progress");
    reveal_strlit("response.completed");
    reveal_strlit("response.failed");
    reveal_strlit("response.output_item.added");
    reveal_strlit("response.output_item.done");
    reveal_strlit("response.output_text.delta");
    reveal_strlit("response.output_text.done");
    reveal_strlit("response.reasoning_summary_text.delta");
    reveal_strlit("response.reasoning_summary_text.done");
    reveal_strlit("response.reasoning_summary_part.added");
    reveal_strlit("response.reasoning_summary_part.done");
    reveal_strlit("response.content_part.added");
    reveal_strlit("response.content_part.done");
    reveal_strlit("response.function_call_arguments.delta");
    reveal_strlit("response.function_call_arguments.done");
    assert("response.created"@.len() == 16);
    assert("response.in_progress"@.len() == 20);
    assert("response.completed"@.len() == 18);
    assert("response.failed"@.len() == 15);
    assert("response.output_item.added"@.len() == 26);
    assert("response.output_item.done"@.len() == 25);
    assert("response.output_text.delta"@.len() == 26);
    assert("response.output_text.done"@.len() == 25);
    assert("response.reasoning_summary_text.delta"@.len() == 37);
    assert("response.reasoning_summary_text.done"@.len() == 36);
    assert("response.reasoning_summary_part.added"@.len() == 37);
    assert("response.reasoning_summary_part.done"@.len() == 36);
    assert("response.content_part.added"@.len() == 27);
    assert("response.content_part.done"@.len() == 26);
    assert("response.function_call_arguments.delta"@.len() == 38);
    assert("response.function_call_arguments.done"@.len() == 37);
    assert("response.output_item.added"@[16] == 'i');
    assert("response.output_text.delta"@[16] == 't');
    assert("response.output_item.added"@[9] == 'o');
    assert("response.content_part.done"@[9] == 'c');
    assert("response.output_item.done"@[16] == 'i');
    assert("response.output_text.done"@[16] == 't');
    assert("response.output_text.delta"@[9] == 'o');
    assert("response.reasoning_summary_text.delta"@[27] == 't');
    assert("response.reasoning_summary_part.added"@[27] == 'p');
    assert("response.reasoning_summary_text.delta"@[9] == 'r');
    assert("response.function_call_arguments.done"@[9] == 'f');
    assert("response.reasoning_summary_text.done"@[27] == 't');
    assert("response.reasoning_summary_part.done"@[27] == 'p');
    assert("response.reasoning_summary_part.added"@[9] == 'r');
}

/// The keys of a response of the Responses format differ.
pub(crate) proof fn lemma_whole_response_keys()
    ensures
        "id"@ != "object"@,
        "id"@ != "created_at"@,
        "id"@ != "status"@,
        "id"@ != "model"@,
        "id"@ != "output"@,
        "id"@ != "output_text"@,
        "id"@ != "usage"@,
        "id"@ != "incomplete_details"@,
        "object"@ != "created_at"@,
        "object"@ != "status"@,
        "object"@ != "model"@,
        "object"@ != "output"@,
        "object"@ != "output_text"@,
        "object"@ != "usage"@,
        "object"@ != "incomplete_details"@,
        "created_at"@ != "status"@,
        "created_at"@ != "model"@,
        "created_at"@ != "output"@,
        "created_at"@ != "output_text"@,
        "created_at"@ != "usage"@,
        "created_at"@ != "incomplete_details"@,
        "status"@ != "model"@,
        "status"@ != "output"@,
        "status"@ != "output_text"@,
        "status"@ != "usage"@,
        "status"@ != "incomplete_details"@,
        "model"@ != "output"@,
        "model"@ != "output_text"@,
        "model"@ != "usage"@,
        "model"@ != "incomplete_details"@,
        "output"@ != "output_text"@,
        "output"@ != "usage"@,
        "output"@ != "incomplete_details"@,
        "output_text"@ != "usage"@,
        "output_text"@ != "incomplete_details"@,
        "usage"@ != "incomplete_details"@,
        "input_tokens"@ != "output_tokens"@,
        "input_tokens"@ != "total_tokens"@,
        "output_tokens"@ != "total_tokens"@,
{
    reveal_strlit("id");
    reveal_strlit("object");
    reveal_strlit("created_at");
    reveal_strlit("status");
    reveal_strlit("model");
    reveal_strlit("output");
    reveal_strlit("output_text");
    reveal_strlit("usage");
    reveal_strlit("incomplete_details");
    reveal_strlit("input_tokens");
    reveal_strlit("output_tokens");
    reveal_strlit("total_tokens");
    assert("id"@.len() == 2);
    assert("object"@.len() == 6);
    assert("created_at"@.len() == 10);
    assert("status"@.len() == 6);
    assert("model"@.len() == 5);
    assert("output"@.len() == 6);
    assert("output_text"@.len() == 11);
    assert("usage"@.len() == 5);
    assert("incomplete_details"@.len() == 18);
    assert("input_tokens"@.len() == 12);
    assert("output_tokens"@.len() == 13);
    assert("total_tokens"@.len() == 12);
    assert("object"@[0] == 'o');
    assert("status"@[0] == 's');
    assert("object"@[1] == 'b');
    assert("output"@[1] == 'u');
    assert("output"@[0] == 'o');
    assert("model"@[0] == 'm');
    assert("usage"@[0] == 'u');
    assert("input_tokens"@[0] == 'i');
    assert("total_tokens"@[0] == 't');
}

/// The keys of requests, of their tools and of their items differ.
pub(crate) proof fn lemma_request_keys()
    ensures
        "model"@ != "messages"@,
        "model"@ != "max_tokens"@,
        "model"@ != "temperature"@,
        "model"@ != "stream"@,
        "model"@ != "tools"@,
        "model"@ != "tool_choice"@,
        "model"@ != "system"@,
        "model"@ != "stop_sequences"@,
        "model"@ != "top_p"@,
        "model"@ != "metadata"@,
        "model"@ != "instructions"@,
        "model"@ != "input"@,
        "model"@ != "max_output_tokens"@,
        "model"@ != "thinking"@,
        "model"@ != "max_completion_tokens"@,
        "messages"@ != "max_tokens"@,
        "messages"@ != "temperature"@,
        "messages"@ != "stream"@,
        "messages"@ != "tools"@,
        "messages"@ != "tool_choice"@,
        "messages"@ != "system"@,
        "messages"@ != "stop_sequences"@,
        "messages"@ != "top_p"@,
        "messages"@ != "metadata"@,
        "messages"@ != "instructions"@,
        "messages"@ != "input"@,
        "messages"@ != "max_output_tokens"@,
        "messages"@ != "thinking"@,
        "messages"@ != "max_completion_tokens"@,
        "max_tokens"@ != "temperature"@,
        "max_tokens"@ != "stream"@,
        "max_tokens"@ != "tools"@,
        "max_tokens"@ != "tool_choice"@,
        "max_tokens"@ != "system"@,
        "max_tokens"@ != "stop_sequences"@,
        "max_tokens"@ != "top_p"@,
        "max_tokens"@ != "metadata"@,
        "max_tokens"@ != "instructions"@,
        "max_tokens"@ != "input"@,
        "max_tokens"@ != "max_output_tokens"@,
        "max_tokens"@ != "thinking"@,
        "max_tokens"@ != "max_completion_tokens"@,
        "temperature"@ != "stream"@,
        "temperature"@ != "tools"@,
        "temperature"@ != "tool_choice"@,
        "temperature"@ != "system"@,
        "temperature"@ != "stop_sequences"@,
        "temperature"@ != "top_p"@,
        "temperature"@ != "metadata"@,
        "temperature"@ != "instructions"@,
        "temperature"@ != "input"@,
        "temperature"@ != "max_output_tokens"@,
        "temperature"@ != "thinking"@,
        "temperature"@ != "max_completion_tokens"@,
        "stream"@ != "tools"@,
        "stream"@ != "tool_choice"@,
        "stream"@ != "system"@,
        "stream"@ != "stop_sequences"@,
        "stream"@ != "top_p"@,
        "stream"@ != "metadata"@,
        "stream"@ != "instructions"@,
        "stream"@ != "input"@,
        "stream"@ != "max_output_tokens"@,
        "stream"@ != "thinking"@,
        "stream"@ != "max_completion_tokens"@,
        "tools"@ != "tool_choice"@,
        "tools"@ != "system"@,
        "tools"@ != "stop_sequences"@,
        "tools"@ != "top_p"@,
        "tools"@ != "metadata"@,
        "tools"@ != "instructions"@,
        "tools"@ != "input"@,
        "tools"@ != "max_output_tokens"@,
        "tools"@ != "thinking"@,
        "tools"@ != "max_completion_tokens"@,
        "tool_choice"@ != "system"@,
        "tool_choice"@ != "stop_sequences"@,
        "tool_choice"@ != "top_p"@,
        "tool_choice"@ != "metadata"@,
        "tool_choice"@ != "instructions"@,
        "tool_choice"@ != "input"@,
        "tool_choice"@ != "max_output_tokens"@,
        "tool_choice"@ != "thinking"@,
        "tool_choice"@ != "max_completion_tokens"@,
        "system"@ != "stop_sequences"@,
        "system"@ != "top_p"@,
        "system"@ != "metadata"@,
        "system"@ != "instructions"@,
        "system"@ != "input"@,
        "system"@ != "max_output_tokens"@,
        "system"@ != "thinking"@,
        "system"@ != "max_completion_tokens"@,
        "stop_sequences"@ != "top_p"@,
        "stop_sequences"@ != "metadata"@,
        "stop_sequences"@ != "instructions"@,
        "stop_sequences"@ != "input"@,
        "stop_sequences"@ != "max_output_tokens"@,
        "stop_sequences"@ != "thinking"@,
        "stop_sequences"@ != "max_completion_tokens"@,
        "top_p"@ != "metadata"@,
        "top_p"@ != "instructions"@,
        "top_p"@ != "input"@,
        "top_p"@ != "max_output_tokens"@,
        "top_p"@ != "thinking"@,
        "top_p"@ != "max_completion_tokens"@,
        "metadata"@ != "instructions"@,
        "metadata"@ != "input"@,
        "metadata"@ != "max_output_tokens"@,
        "metadata"@ != "thinking"@,
        "metadata"@ != "max_completion_tokens"@,
        "instructions"@ != "input"@,
        "instructions"@ != "max_output_tokens"@,
        "instructions"@ != "thinking"@,
        "instructions"@ != "max_completion_tokens"@,
        "input"@ != "max_output_tokens"@,
        "input"@ != "thinking"@,
        "input"@ != "max_completion_tokens"@,
        "max_output_tokens"@ != "thinking"@,
        "max_output_tokens"@ != "max_completion_tokens"@,
        "thinking"@ != "max_completion_tokens"@,
        "type"@ != "function"@,
        "name"@ != "description"@,
        "name"@ != "parameters"@,
        "name"@ != "strict"@,
        "name"@ != "input_schema"@,
        "description"@ != "parameters"@,
        "description"@ != "strict"@,
        "description"@ != "input_schema"@,
        "parameters"@ != "strict"@,
        "parameters"@ != "input_schema"@,
        "strict"@ != "input_schema"@,
        "type"@ != "name"@,
        "type"@ != "description"@,
        "type"@ != "parameters"@,
        "type"@ != "call_id"@,
        "type"@ != "arguments"@,
        "type"@ != "output"@,
        "type"@ != "role"@,
        "type"@ != "content"@,
        "call_id"@ != "name"@,
        "call_id"@ != "arguments"@,
        "call_id"@ != "output"@,
        "call_id"@ != "role"@,
        "call_id"@ != "content"@,
        "name"@ != "arguments"@,
        "name"@ != "output"@,
        "name"@ != "role"@,
        "name"@ != "content"@,
        "arguments"@ != "output"@,
        "arguments"@ != "role"@,
        "arguments"@ != "content"@,
        "output"@ != "role"@,
        "output"@ != "content"@,
        "role"@ != "content"@,
        "role"@ != "tool_calls"@,
        "role"@ != "reasoning_content"@,
        "role"@ != "tool_call_id"@,
        "role"@ != "text"@,
        "content"@ != "tool_calls"@,
        "content"@ != "reasoning_content"@,
        "content"@ != "tool_call_id"@,
        "content"@ != "text"@,
        "tool_calls"@ != "reasoning_content"@,
        "tool_calls"@ != "tool_call_id"@,
        "tool_calls"@ != "type"@,
        "tool_calls"@ != "text"@,
        "reasoning_content"@ != "tool_call_id"@,
        "reasoning_content"@ != "type"@,
        "reasoning_content"@ != "text"@,
        "tool_call_id"@ != "type"@,
        "tool_call_id"@ != "text"@,
        "type"@ != "text"@,
        "id"@ != "type"@,
        "id"@ != "function"@,
        "type"@ != "input"@,
        "id"@ != "name"@,
        "id"@ != "input"@,
        "name"@ != "input"@,
        "type"@ != "tool_use_id"@,
        "tool_use_id"@ != "content"@,
        "tool_use_id"@ != "text"@,
        "tool"@ != "assistant"@,
        "tool"@ != "user"@,
        "tool"@ != "system"@,
        "assistant"@ != "user"@,
        "assistant"@ != "system"@,
        "user"@ != "system"@,
        "tool_use"@ != "tool_result"@,
        "tool_use"@ != "text"@,
        "tool_use"@ != "thinking"@,
        "tool_result"@ != "text"@,
        "tool_result"@ != "thinking"@,
        "text"@ != "thinking"@,
        "function_call"@ != "function_call_output"@,
        "function_call"@ != "message"@,
        "function_call"@ != "reasoning"@,
        "function_call_output"@ != "message"@,
        "function_call_output"@ != "reasoning"@,
        "message"@ != "reasoning"@,
        "tool_use"@ != "output_text"@,
        "tool_use"@ != "input_text"@,
        "output_text"@ != "input_text"@,
        "text"@ != "output_text"@,
{
    reveal_strlit("model");
    reveal_strlit("messages");
    reveal_strlit("max_tokens");
    reveal_strlit("temperature");
    reveal_strlit("stream");
    reveal_strlit("tools");
    reveal_strlit("tool_choice");
    reveal_strlit("system");
    reveal_strlit("stop_sequences");
    reveal_strlit("top_p");
    reveal_strlit("metadata");
    reveal_strlit("instructions");
    reveal_strlit("input");
    reveal_strlit("max_output_tokens");
    reveal_strlit("thinking");
    reveal_strlit("max_completion_tokens");
    reveal_strlit("type");
    reveal_strlit("function");
    reveal_strlit("name");
    reveal_strlit("description");
    reveal_strlit("parameters");
    reveal_strlit("strict");
    reveal_strlit("input_schema");
    reveal_strlit("call_id");
    reveal_strlit("arguments");
    reveal_strlit("output");
    reveal_strlit("role");
    reveal_strlit("content");
    reveal_strlit("tool_calls");
    reveal_strlit("reasoning_content");
    reveal_strlit("tool_call_id");
    reveal_strlit("text");
    reveal_strlit("id");
    reveal_strlit("tool_use_id");
    reveal_strlit("tool");
    reveal_strlit("assistant");
    reveal_strlit("user");
    reveal_strlit("tool_use");
    reveal_strlit("tool_result");
    reveal_strlit("function_call");
    reveal_strlit("function_call_output");
    reveal_strlit("message");
    reveal_strlit("reasoning");
    reveal_strlit("output_text");
    reveal_strlit("input_text");
    assert("model"@.len() == 5);
    assert("messages"@.len() == 8);
    assert("max_tokens"@.len() == 10);
    assert("temperature"@.len() == 11);
    assert("stream"@.len() == 6);
    assert("tools"@.len() == 5);
    assert("tool_choice"@.len() == 11);
    assert("system"@.len() == 6);
    assert("stop_sequences"@.len() == 14);
    assert("top_p"@.len() == 5);
    assert("metadata"@.len() == 8);
    assert("instructions"@.len() == 12);
    assert("input"@.len() == 5);
    assert("max_output_tokens"@.len() == 17);
    assert("thinking"@.len() == 8);
    assert("max_completion_tokens"@.len() == 21);
    assert("type"@.len() == 4);
    assert("function"@.len() == 8);
    assert("name"@.len() == 4);
    assert("description"@.len() == 11);
    assert("parameters"@.len() == 10);
    assert("strict"@.len() == 6);
    assert("input_schema"@.len() == 12);
    assert("call_id"@.len() == 7);
    assert("arguments"@.len() == 9);
    assert("output"@.len() == 6);
    assert("role"@.len() == 4);
    assert("content"@.len() == 7);
    assert("tool_calls"@.len() == 10);
    assert("reasoning_content"@.len() == 17);
    assert("tool_call_id"@.len() == 12);
    assert("text"@.len() == 4);
    assert("id"@.len() == 2);
    assert("tool_use_id"@.len() == 11);
    assert("tool"@.len() == 4);
    assert("assistant"@.len() == 9);
    assert("user"@.len() == 4);
    assert("tool_use"@.len() == 8);
    assert("tool_result"@.len() == 11);
    assert("function_call"@.len() == 13);
    assert("function_call_output"@.len() == 20);
    assert("message"@.len() == 7);
    assert("reasoning"@.len() == 9);
    assert("output_text"@.len() == 11);
    assert("input_text"@.len() == 10);
    assert("model"@[0] == 'm');
    assert("tools"@[0] == 't');
    assert("top_p"@[0] == 't');
    assert("input"@[0] == 'i');
    assert("messages"@[2] == 's');
    assert("metadata"@[2] == 't');
    assert("messages"@[0] == 'm');
    assert("thinking"@[0] == 't');
    assert("temperature"@[1] == 'e');
    assert("tool_choice"@[1] == 'o');
    assert("stream"@[1] == 't');
    assert("system"@[1] == 'y');
    assert("tools"@[2] == 'o');
    assert("top_p"@[2] == 'p');
    assert("metadata"@[0] == 'm');
    assert("type"@[0] == 't');
    assert("name"@[0] == 'n');
    assert("role"@[0] == 'r');
    assert("call_id"@[1] == 'a');
    assert("content"@[1] == 'o');
    assert("text"@[0] == 't');
    assert("type"@[1] == 'y');
    assert("text"@[1] == 'e');
    assert("tool"@[0] == 't');
    assert("user"@[0] == 'u');
    assert("tool_use"@[1] == 'o');
    assert("thinking"@[1] == 'h');
}

/// The keys of whole answers, of their blocks and of their items differ.
pub(crate) proof fn lemma_answer_keys()
    ensures
        "id"@ != "object"@,
        "id"@ != "created"@,
        "id"@ != "model"@,
        "id"@ != "choices"@,
        "id"@ != "usage"@,
        "id"@ != "type"@,
        "id"@ != "role"@,
        "id"@ != "content"@,
        "id"@ != "stop_reason"@,
        "id"@ != "stop_sequence"@,
        "id"@ != "created_at"@,
        "id"@ != "status"@,
        "id"@ != "output"@,
        "id"@ != "output_text"@,
        "id"@ != "incomplete_details"@,
        "object"@ != "created"@,
        "object"@ != "model"@,
        "object"@ != "choices"@,
        "object"@ != "usage"@,
        "object"@ != "type"@,
        "object"@ != "role"@,
        "object"@ != "content"@,
        "object"@ != "stop_reason"@,
        "object"@ != "stop_sequence"@,
        "object"@ != "created_at"@,
        "object"@ != "status"@,
        "object"@ != "output"@,
        "object"@ != "output_text"@,
        "object"@ != "incomplete_details"@,
        "created"@ != "model"@,
        "created"@ != "choices"@,
        "created"@ != "usage"@,
        "created"@ != "type"@,
        "created"@ != "role"@,
        "created"@ != "content"@,
        "created"@ != "stop_reason"@,
        "created"@ != "stop_sequence"@,
        "created"@ != "created_at"@,
        "created"@ != "status"@,
        "created"@ != "output"@,
        "created"@ != "output_text"@,
        "created"@ != "incomplete_details"@,
        "model"@ != "choices"@,
        "model"@ != "usage"@,
        "model"@ != "type"@,
        "model"@ != "role"@,
        "model"@ != "content"@,
        "model"@ != "stop_reason"@,
        "model"@ != "stop_sequence"@,
        "model"@ != "created_at"@,
        "model"@ != "status"@,
        "model"@ != "output"@,
        "model"@ != "output_text"@,
        "model"@ != "incomplete_details"@,
        "choices"@ != "usage"@,
        "choices"@ != "type"@,
        "choices"@ != "role"@,
        "choices"@ != "content"@,
        "choices"@ != "stop_reason"@,
        "choices"@ != "stop_sequence"@,
        "choices"@ != "created_at"@,
        "choices"@ != "status"@,
        "choices"@ != "output"@,
        "choices"@ != "output_text"@,
        "choices"@ != "incomplete_details"@,
        "usage"@ != "type"@,
        "usage"@ != "role"@,
        "usage"@ != "content"@,
        "usage"@ != "stop_reason"@,
        "usage"@ != "stop_sequence"@,
        "usage"@ != "created_at"@,
        "usage"@ != "status"@,
        "usage"@ != "output"@,
        "usage"@ != "output_text"@,
        "usage"@ != "incomplete_details"@,
        "type"@ != "role"@,
        "type"@ != "content"@,
        "type"@ != "stop_reason"@,
        "type"@ != "stop_sequence"@,
        "type"@ != "created_at"@,
        "type"@ != "status"@,
        "type"@ != "output"@,
        "type"@ != "output_text"@,
        "type"@ != "incomplete_details"@,
        "role"@ != "content"@,
        "role"@ != "stop_reason"@,
        "role"@ != "stop_sequence"@,
        "role"@ != "created_at"@,
        "role"@ != "status"@,
        "role"@ != "output"@,
        "role"@ != "output_text"@,
        "role"@ != "incomplete_details"@,
        "content"@ != "stop_reason"@,
        "content"@ != "stop_sequence"@,
        "content"@ != "created_at"@,
        "content"@ != "status"@,
        "content"@ != "output"@,
        "content"@ != "output_text"@,
        "content"@ != "incomplete_details"@,
        "stop_reason"@ != "stop_sequence"@,
        "stop_reason"@ != "created_at"@,
        "stop_reason"@ != "status"@,
        "stop_reason"@ != "output"@,
        "stop_reason"@ != "output_text"@,
        "stop_reason"@ != "incomplete_details"@,
        "stop_sequence"@ != "created_at"@,
        "stop_sequence"@ != "status"@,
        "stop_sequence"@ != "output"@,
        "stop_sequence"@ != "output_text"@,
        "stop_sequence"@ != "incomplete_details"@,
        "created_at"@ != "status"@,
        "created_at"@ != "output"@,
        "created_at"@ != "output_text"@,
        "created_at"@ != "incomplete_details"@,
        "status"@ != "output"@,
        "status"@ != "output_text"@,
        "status"@ != "incomplete_details"@,
        "output"@ != "output_text"@,
        "output"@ != "incomplete_details"@,
        "output_text"@ != "incomplete_details"@,
        "index"@ != "message"@,
        "index"@ != "finish_reason"@,
        "message"@ != "finish_reason"@,
        "prompt_tokens"@ != "completion_tokens"@,
        "prompt_tokens"@ != "total_tokens"@,
        "completion_tokens"@ != "total_tokens"@,
        "input_tokens"@ != "output_tokens"@,
        "input_tokens"@ != "cache_creation_input_tokens"@,
        "input_tokens"@ != "cache_read_input_tokens"@,
        "input_tokens"@ != "total_tokens"@,
        "output_tokens"@ != "cache_creation_input_tokens"@,
        "output_tokens"@ != "cache_read_input_tokens"@,
        "output_tokens"@ != "total_tokens"@,
        "cache_creation_input_tokens"@ != "cache_read_input_tokens"@,
        "cache_creation_input_tokens"@ != "total_tokens"@,
        "cache_read_input_tokens"@ != "total_tokens"@,
        "role"@ != "reasoning_content"@,
        "role"@ != "tool_calls"@,
        "content"@ != "reasoning_content"@,
        "content"@ != "tool_calls"@,
        "reasoning_content"@ != "tool_calls"@,
        "reasoning_content"@ != "type"@,
        "tool_calls"@ != "type"@,
        "id"@ != "function"@,
        "id"@ != "name"@,
        "id"@ != "input"@,
        "type"@ != "function"@,
        "type"@ != "name"@,
        "type"@ != "input"@,
        "function"@ != "name"@,
        "function"@ != "input"@,
        "name"@ != "input"@,
        "name"@ != "arguments"@,
        "id"@ != "call_id"@,
        "id"@ != "arguments"@,
        "id"@ != "summary"@,
        "type"@ != "call_id"@,
        "type"@ != "arguments"@,
        "type"@ != "summary"@,
        "status"@ != "call_id"@,
        "status"@ != "name"@,
        "status"@ != "arguments"@,
        "status"@ != "summary"@,
        "call_id"@ != "name"@,
        "call_id"@ != "arguments"@,
        "call_id"@ != "role"@,
        "call_id"@ != "content"@,
        "call_id"@ != "summary"@,
        "name"@ != "role"@,
        "name"@ != "content"@,
        "name"@ != "summary"@,
        "arguments"@ != "role"@,
        "arguments"@ != "content"@,
        "arguments"@ != "summary"@,
        "role"@ != "summary"@,
        "content"@ != "summary"@,
        "type"@ != "text"@,
        "type"@ != "thinking"@,
        "type"@ != "annotations"@,
        "text"@ != "thinking"@,
        "text"@ != "annotations"@,
        "thinking"@ != "annotations"@,
        "text"@ != "tool_use"@,
        "thinking"@ != "tool_use"@,
        "message"@ != "reasoning"@,
        "message"@ != "function_call"@,
        "reasoning"@ != "function_call"@,
        "tool_use"@ != "max_tokens"@,
        "tool_use"@ != "end_turn"@,
        "max_tokens"@ != "end_turn"@,
        "tool_calls"@ != "length"@,
        "tool_calls"@ != "stop"@,
        "length"@ != "stop"@,
        "incomplete"@ != "completed"@,
        "incomplete"@ != "failed"@,
        "completed"@ != "failed"@,
        "output_text"@ != "text"@,
        "reasoning_text"@ != "summary_text"@,
{
    reveal_strlit("id");
    reveal_strlit("object");
    reveal_strlit("created");
    reveal_strlit("model");
    reveal_strlit("choices");
    reveal_strlit("usage");
    reveal_strlit("type");
    reveal_strlit("role");
    reveal_strlit("content");
    reveal_strlit("stop_reason");
    reveal_strlit("stop_sequence");
    reveal_strlit("created_at");
    reveal_strlit("status");
    reveal_strlit("output");
    reveal_strlit("output_text");
    reveal_strlit("incomplete_details");
    reveal_strlit("index");
    reveal_strlit("message");
    reveal_strlit("finish_reason");
    reveal_strlit("prompt_tokens");
    reveal_strlit("completion_tokens");
    reveal_strlit("total_tokens");
    reveal_strlit("input_tokens");
    reveal_strlit("output_tokens");
    reveal_strlit("cache_creation_input_tokens");
    reveal_strlit("cache_read_input_tokens");
    reveal_strlit("reasoning_content");
    reveal_strlit("tool_calls");
    reveal_strlit("function");
    reveal_strlit("name");
    reveal_strlit("input");
    reveal_strlit("arguments");
    reveal_strlit("call_id");
    reveal_strlit("summary");
    reveal_strlit("text");
    reveal_strlit("thinking");
    reveal_strlit("annotations");
    reveal_strlit("tool_use");
    reveal_strlit("reasoning");
    reveal_strlit("function_call");
    reveal_strlit("max_tokens");
    reveal_strlit("end_turn");
    reveal_strlit("length");
    reveal_strlit("stop");
    reveal_strlit("incomplete");
    reveal_strlit("completed");
    reveal_strlit("failed");
    reveal_strlit("reasoning_text");
    reveal_strlit("summary_text");
    assert("id"@.len() == 2);
    assert("object"@.len() == 6);
    assert("created"@.len() == 7);
    assert("model"@.len() == 5);
    assert("choices"@.len() == 7);
    assert("usage"@.len() == 5);
    assert("type"@.len() == 4);
    assert("role"@.len() == 4);
    assert("content"@.len() == 7);
    assert("stop_reason"@.len() == 11);
    assert("stop_sequence"@.len() == 13);
    assert("created_at"@.len() == 10);
    assert("status"@.len() == 6);
    assert("output"@.len() == 6);
    assert("output_text"@.len() == 11);
    assert("incomplete_details"@.len() == 18);
    assert("index"@.len() == 5);
    assert("message"@.len() == 7);
    assert("finish_reason"@.len() == 13);
    assert("prompt_tokens"@.len() == 13);
    assert("completion_tokens"@.len() == 17);
    assert("total_tokens"@.len() == 12);
    assert("input_tokens"@.len() == 12);
    assert("output_tokens"@.len() == 13);
    assert("cache_creation_input_tokens"@.len() == 27);
    assert("cache_read_input_tokens"@.len() == 23);
    assert("reasoning_content"@.len() == 17);
    assert("tool_calls"@.len() == 10);
    assert("function"@.len() == 8);
    assert("name"@.len() == 4);
    assert("input"@.len() == 5);
    assert("arguments"@.len() == 9);
    assert("call_id"@.len() == 7);
    assert("summary"@.len() == 7);
    assert("text"@.len() == 4);
    assert("thinking"@.len() == 8);
    assert("annotations"@.len() == 11);
    assert("tool_use"@.len() == 8);
    assert("reasoning"@.len() == 9);
    assert("function_call"@.len() == 13);
    assert("max_tokens"@.len() == 10);
    assert("end_turn"@.len() == 8);
    assert("length"@.len() == 6);
    assert("stop"@.len() == 4);
    assert("incomplete"@.len() == 10);
    assert("completed"@.len() == 9);
    assert("failed"@.len() == 6);
    assert("reasoning_text"@.len() == 14);
    assert("summary_text"@.len() == 12);
    assert("object"@[0] == 'o');
    assert("status"@[0] == 's');
    assert("object"@[1] == 'b');
    assert("output"@[1] == 'u');
    assert("created"@[1] == 'r');
    assert("choices"@[1] == 'h');
    assert("content"@[1] == 'o');
    assert("model"@[0] == 'm');
    assert("usage"@[0] == 'u');
    assert("type"@[0] == 't');
    assert("role"@[0] == 'r');
    assert("stop_reason"@[0] == 's');
    assert("output_text"@[0] == 'o');
    assert("output"@[0] == 'o');
    assert("input_tokens"@[0] == 'i');
    assert("total_tokens"@[0] == 't');
    assert("name"@[0] == 'n');
    assert("call_id"@[1] == 'a');
    assert("call_id"@[0] == 'c');
    assert("summary"@[0] == 's');
    assert("content"@[0] == 'c');
    assert("type"@[1] == 'y');
    assert("text"@[1] == 'e');
    assert("thinking"@[1] == 'h');
    assert("tool_use"@[1] == 'o');
    assert("tool_use"@[0] == 't');
    assert("end_turn"@[0] == 'e');
}

/// The keys of the blocks of tools and of texts differ.
pub(crate) proof fn lemma_tool_block_keys()
    ensures
        "type"@ != "id"@,
        "type"@ != "name"@,
        "type"@ != "input"@,
        "type"@ != "text"@,
        "type"@ != "thinking"@,
        "id"@ != "name"@,
        "id"@ != "input"@,
        "id"@ != "text"@,
        "id"@ != "thinking"@,
        "name"@ != "input"@,
        "name"@ != "text"@,
        "name"@ != "thinking"@,
        "input"@ != "text"@,
        "input"@ != "thinking"@,
        "text"@ != "thinking"@,
        "type"@ != "tool_use_id"@,
        "type"@ != "content"@,
        "tool_use_id"@ != "content"@,
        "tool_use_id"@ != "text"@,
        "content"@ != "text"@,
{
    reveal_strlit("type");
    reveal_strlit("id");
    reveal_strlit("name");
    reveal_strlit("input");
    reveal_strlit("text");
    reveal_strlit("thinking");
    reveal_strlit("tool_use_id");
    reveal_strlit("content");
    assert("type"@.len() == 4);
    assert("id"@.len() == 2);
    assert("name"@.len() == 4);
    assert("input"@.len() == 5);
    assert("text"@.len() == 4);
    assert("thinking"@.len() == 8);
    assert("tool_use_id"@.len() == 11);
    assert("content"@.len() == 7);
    assert("type"@[0] == 't');
    assert("name"@[0] == 'n');
    assert("type"@[1] == 'y');
    assert("text"@[1] == 'e');
    assert("text"@[0] == 't');
}

/// The keys of the settings of a chat request differ from those of the rest.
pub(crate) proof fn lemma_chat_setting_keys()
    ensures
        "messages"@ != "frequency_penalty"@,
        "messages"@ != "logit_bias"@,
        "messages"@ != "logprobs"@,
        "messages"@ != "metadata"@,
        "messages"@ != "n"@,
        "messages"@ != "parallel_tool_calls"@,
        "messages"@ != "presence_penalty"@,
        "messages"@ != "response_format"@,
        "messages"@ != "seed"@,
        "messages"@ != "service_tier"@,
        "messages"@ != "stop"@,
        "messages"@ != "stream_options"@,
        "messages"@ != "top_logprobs"@,
        "messages"@ != "user"@,
        "messages"@ != "stream"@,
        "messages"@ != "model"@,
        "max_tokens"@ != "frequency_penalty"@,
        "max_tokens"@ != "logit_bias"@,
        "max_tokens"@ != "logprobs"@,
        "max_tokens"@ != "metadata"@,
        "max_tokens"@ != "n"@,
        "max_tokens"@ != "parallel_tool_calls"@,
        "max_tokens"@ != "presence_penalty"@,
        "max_tokens"@ != "response_format"@,
        "max_tokens"@ != "seed"@,
        "max_tokens"@ != "service_tier"@,
        "max_tokens"@ != "stop"@,
        "max_tokens"@ != "stream_options"@,
        "max_tokens"@ != "top_logprobs"@,
        "max_tokens"@ != "user"@,
        "max_tokens"@ != "stream"@,
        "max_tokens"@ != "model"@,
        "temperature"@ != "frequency_penalty"@,
        "temperature"@ != "logit_bias"@,
        "temperature"@ != "logprobs"@,
        "temperature"@ != "metadata"@,
        "temperature"@ != "n"@,
        "temperature"@ != "parallel_tool_calls"@,
        "temperature"@ != "presence_penalty"@,
        "temperature"@ != "response_format"@,
        "temperature"@ != "seed"@,
        "temperature"@ != "service_tier"@,
        "temperature"@ != "stop"@,
        "temperature"@ != "stream_options"@,
        "temperature"@ != "top_logprobs"@,
        "temperature"@ != "user"@,
        "temperature"@ != "stream"@,
        "temperature"@ != "model"@,
        "top_p"@ != "frequency_penalty"@,
        "top_p"@ != "logit_bias"@,
        "top_p"@ != "logprobs"@,
        "top_p"@ != "metadata"@,
        "top_p"@ != "n"@,
        "top_p"@ != "parallel_tool_calls"@,
        "top_p"@ != "presence_penalty"@,
        "top_p"@ != "response_format"@,
        "top_p"@ != "seed"@,
        "top_p"@ != "service_tier"@,
        "top_p"@ != "stop"@,
        "top_p"@ != "stream_options"@,
        "top_p"@ != "top_logprobs"@,
        "top_p"@ != "user"@,
        "top_p"@ != "stream"@,
        "top_p"@ != "model"@,
        "tool_choice"@ != "frequency_penalty"@,
        "tool_choice"@ != "logit_bias"@,
        "tool_choice"@ != "logprobs"@,
        "tool_choice"@ != "metadata"@,
        "tool_choice"@ != "n"@,
        "tool_choice"@ != "parallel_tool_calls"@,
        "tool_choice"@ != "presence_penalty"@,
        "tool_choice"@ != "response_format"@,
        "tool_choice"@ != "seed"@,
        "tool_choice"@ != "service_tier"@,
        "tool_choice"@ != "stop"@,
        "tool_choice"@ != "stream_options"@,
        "tool_choice"@ != "top_logprobs"@,
        "tool_choice"@ != "user"@,
        "tool_choice"@ != "stream"@,
        "tool_choice"@ != "model"@,
        "tools"@ != "frequency_penalty"@,
        "tools"@ != "logit_bias"@,
        "tools"@ != "logprobs"@,
        "tools"@ != "metadata"@,
        "tools"@ != "n"@,
        "tools"@ != "parallel_tool_calls"@,
        "tools"@ != "presence_penalty"@,
        "tools"@ != "response_format"@,
        "tools"@ != "seed"@,
        "tools"@ != "service_tier"@,
        "tools"@ != "stop"@,
        "tools"@ != "stream_options"@,
        "tools"@ != "top_logprobs"@,
        "tools"@ != "user"@,
        "tools"@ != "stream"@,
        "tools"@ != "model"@,
        "max_completion_tokens"@ != "frequency_penalty"@,
        "max_completion_tokens"@ != "logit_bias"@,
        "max_completion_tokens"@ != "logprobs"@,
        "max_completion_tokens"@ != "metadata"@,
        "max_completion_tokens"@ != "n"@,
        "max_completion_tokens"@ != "parallel_tool_calls"@,
        "max_completion_tokens"@ != "presence_penalty"@,
        "max_completion_tokens"@ != "response_format"@,
        "max_completion_tokens"@ != "seed"@,
        "max_completion_tokens"@ != "service_tier"@,
        "max_completion_tokens"@ != "stop"@,
        "max_completion_tokens"@ != "stream_options"@,
        "max_completion_tokens"@ != "top_logprobs"@,
        "max_completion_tokens"@ != "user"@,
        "max_completion_tokens"@ != "stream"@,
        "max_completion_tokens"@ != "model"@,
{
    reveal_strlit("messages");
    reveal_strlit("frequency_penalty");
    reveal_strlit("logit_bias");
    reveal_strlit("logprobs");
    reveal_strlit("metadata");
    reveal_strlit("n");
    reveal_strlit("parallel_tool_calls");
    reveal_strlit("presence_penalty");
    reveal_strlit("response_format");
    reveal_strlit("seed");
    reveal_strlit("service_tier");
    reveal_strlit("stop");
    reveal_strlit("stream_options");
    reveal_strlit("top_logprobs");
    reveal_strlit("user");
    reveal_strlit("stream");
    reveal_strlit("model");
    reveal_strlit("max_tokens");
    reveal_strlit("temperature");
    reveal_strlit("top_p");
    reveal_strlit("tool_choice");
    reveal_strlit("tools");
    reveal_strlit("max_completion_tokens");
    assert("messages"@.len() == 8);
    assert("frequency_penalty"@.len() == 17);
    assert("logit_bias"@.len() == 10);
    assert("logprobs"@.len() == 8);
    assert("metadata"@.len() == 8);
    assert("n"@.len() == 1);
    assert("parallel_tool_calls"@.len() == 19);
    assert("presence_penalty"@.len() == 16);
    assert("response_format"@.len() == 15);
    assert("seed"@.len() == 4);
    assert("service_tier"@.len() == 12);
    assert("stop"@.len() == 4);
    assert("stream_options"@.len() == 14);
    assert("top_logprobs"@.len() == 12);
    assert("user"@.len() == 4);
    assert("stream"@.len() == 6);
    assert("model"@.len() == 5);
    assert("max_tokens"@.len() == 10);
    assert("temperature"@.len() == 11);
    assert("top_p"@.len() == 5);
    assert("tool_choice"@.len() == 11);
    assert("tools"@.len() == 5);
    assert("max_completion_tokens"@.len() == 21);
    assert("messages"@[0] == 'm');
    assert("logprobs"@[0] == 'l');
    assert("messages"@[2] == 's');
    assert("metadata"@[2] == 't');
    assert("max_tokens"@[0] == 'm');
    assert("logit_bias"@[0] == 'l');
    assert("top_p"@[0] == 't');
    assert("model"@[0] == 'm');
    assert("tools"@[0] == 't');
}

/// The keys of the events of an Anthropic stream differ.
pub(crate) proof fn lemma_anthropic_event_keys()
    ensures
        "type"@ != "index"@,
        "type"@ != "delta"@,
        "type"@ != "content_block"@,
        "type"@ != "message"@,
        "type"@ != "usage"@,
        "index"@ != "delta"@,
        "index"@ != "content_block"@,
        "index"@ != "message"@,
        "index"@ != "usage"@,
        "delta"@ != "content_block"@,
        "delta"@ != "message"@,
        "delta"@ != "usage"@,
        "content_block"@ != "message"@,
        "content_block"@ != "usage"@,
        "message"@ != "usage"@,
        "type"@ != "text"@,
        "type"@ != "thinking"@,
        "type"@ != "partial_json"@,
        "text"@ != "thinking"@,
        "text"@ != "partial_json"@,
        "thinking"@ != "partial_json"@,
        "type"@ != "id"@,
        "type"@ != "name"@,
        "type"@ != "input"@,
        "id"@ != "name"@,
        "id"@ != "input"@,
        "name"@ != "input"@,
        "stop_reason"@ != "stop_sequence"@,
        "id"@ != "role"@,
        "id"@ != "content"@,
        "id"@ != "model"@,
        "id"@ != "stop_reason"@,
        "id"@ != "stop_sequence"@,
        "id"@ != "usage"@,
        "type"@ != "role"@,
        "type"@ != "content"@,
        "type"@ != "model"@,
        "type"@ != "stop_reason"@,
        "type"@ != "stop_sequence"@,
        "role"@ != "content"@,
        "role"@ != "model"@,
        "role"@ != "stop_reason"@,
        "role"@ != "stop_sequence"@,
        "role"@ != "usage"@,
        "content"@ != "model"@,
        "content"@ != "stop_reason"@,
        "content"@ != "stop_sequence"@,
        "content"@ != "usage"@,
        "model"@ != "stop_reason"@,
        "model"@ != "stop_sequence"@,
        "model"@ != "usage"@,
        "stop_reason"@ != "usage"@,
        "stop_sequence"@ != "usage"@,
        "input_tokens"@ != "output_tokens"@,
        "input_tokens"@ != "cache_creation_input_tokens"@,
        "input_tokens"@ != "cache_read_input_tokens"@,
        "output_tokens"@ != "cache_creation_input_tokens"@,
        "output_tokens"@ != "cache_read_input_tokens"@,
        "cache_creation_input_tokens"@ != "cache_read_input_tokens"@,
        "tool_use"@ != "end_turn"@,
        "tool_use"@ != "max_tokens"@,
        "end_turn"@ != "max_tokens"@,
        "tool_calls"@ != "length"@,
{
    reveal_strlit("type");
    reveal_strlit("index");
    reveal_strlit("delta");
    reveal_strlit("content_block");
    reveal_strlit("message");
    reveal_strlit("usage");
    reveal_strlit("text");
    reveal_strlit("thinking");
    reveal_strlit("partial_json");
    reveal_strlit("id");
    reveal_strlit("name");
    reveal_strlit("input");
    reveal_strlit("stop_reason");
    reveal_strlit("stop_sequence");
    reveal_strlit("role");
    reveal_strlit("content");
    reveal_strlit("model");
    reveal_strlit("input_tokens");
    reveal_strlit("output_tokens");
    reveal_strlit("cache_creation_input_tokens");
    reveal_strlit("cache_read_input_tokens");
    reveal_strlit("tool_use");
    reveal_strlit("end_turn");
    reveal_strlit("max_tokens");
    reveal_strlit("tool_calls");
    reveal_strlit("length");
    assert("type"@.len() == 4);
    assert("index"@.len() == 5);
    assert("delta"@.len() == 5);
    assert("content_block"@.len() == 13);
    assert("message"@.len() == 7);
    assert("usage"@.len() == 5);
    assert("text"@.len() == 4);
    assert("thinking"@.len() == 8);
    assert("partial_json"@.len() == 12);
    assert("id"@.len() == 2);
    assert("name"@.len() == 4);
    assert("input"@.len() == 5);
    assert("stop_reason"@.len() == 11);
    assert("stop_sequence"@.len() == 13);
    assert("role"@.len() == 4);
    assert("content"@.len() == 7);
    assert("model"@.len() == 5);
    assert("input_tokens"@.len() == 12);
    assert("output_tokens"@.len() == 13);
    assert("cache_creation_input_tokens"@.len() == 27);
    assert("cache_read_input_tokens"@.len() == 23);
    assert("tool_use"@.len() == 8);
    assert("end_turn"@.len() == 8);
    assert("max_tokens"@.len() == 10);
    assert("tool_calls"@.len() == 10);
    assert("length"@.len() == 6);
    assert("index"@[0] == 'i');
    assert("delta"@[0] == 'd');
    assert("usage"@[0] == 'u');
    assert("type"@[1] == 'y');
    assert("text"@[1] == 'e');
    assert("type"@[0] == 't');
    assert("name"@[0] == 'n');
    assert("role"@[0] == 'r');
    assert("model"@[0] == 'm');
    assert("tool_use"@[0] == 't');
    assert("end_turn"@[0] == 'e');
}

/// The protocols of clients differ.
pub(crate) proof fn lemma_protocols()
    ensures
        "anthropic"@ != "openai"@,
        "anthropic"@ != "openai_responses"@,
        "openai"@ != "openai_responses"@,
{
    reveal_strlit("anthropic");
    reveal_strlit("openai");
    reveal_strlit("openai_responses");
    assert("anthropic"@.len() == 9);
    assert("openai"@.len() == 6);
    assert("openai_responses"@.len() == 16);
}

/// The key of input items differs from those of a chat request.
pub(crate) proof fn lemma_input_key()
    ensures
        "input"@ != "frequency_penalty"@,
        "input"@ != "logit_bias"@,
        "input"@ != "logprobs"@,
        "input"@ != "metadata"@,
        "input"@ != "n"@,
        "input"@ != "parallel_tool_calls"@,
        "input"@ != "presence_penalty"@,
        "input"@ != "response_format"@,
        "input"@ != "seed"@,
        "input"@ != "service_tier"@,
        "input"@ != "stop"@,
        "input"@ != "stream_options"@,
        "input"@ != "top_logprobs"@,
        "input"@ != "user"@,
{
    reveal_strlit("input");
    reveal_strlit("frequency_penalty");
    reveal_strlit("logit_bias");
    reveal_strlit("logprobs");
    reveal_strlit("metadata");
    reveal_strlit("n");
    reveal_strlit("parallel_tool_calls");
    reveal_strlit("presence_penalty");
    reveal_strlit("response_format");
    reveal_strlit("seed");
    reveal_strlit("service_tier");
    reveal_strlit("stop");
    reveal_strlit("stream_options");
    reveal_strlit("top_logprobs");
    reveal_strlit("user");
    assert("input"@.len() == 5);
    assert("frequency_penalty"@.len() == 17);
    assert("logit_bias"@.len() == 10);
    assert("logprobs"@.len() == 8);
    assert("metadata"@.len() == 8);
    assert("n"@.len() == 1);
    assert("parallel_tool_calls"@.len() == 19);
    assert("presence_penalty"@.len() == 16);
    assert("response_format"@.len() == 15);
    assert("seed"@.len() == 4);
    assert("service_tier"@.len() == 12);
    assert("stop"@.len() == 4);
    assert("stream_options"@.len() == 14);
    assert("top_logprobs"@.len() == 12);
    assert("user"@.len() == 4);
}

/// The keys of the wishes of a request differ from those of its model and of its stream.
pub(crate) proof fn lemma_wish_keys()
    ensures
        "model"@ != "frequency_penalty"@,
        "model"@ != "logit_bias"@,
        "model"@ != "logprobs"@,
        "model"@ != "metadata"@,
        "model"@ != "n"@,
        "model"@ != "parallel_tool_calls"@,
        "model"@ != "presence_penalty"@,
        "model"@ != "response_format"@,
        "model"@ != "seed"@,
        "model"@ != "service_tier"@,
        "model"@ != "stop"@,
        "model"@ != "stream_options"@,
        "model"@ != "top_logprobs"@,
        "model"@ != "user"@,
        "stream"@ != "frequency_penalty"@,
        "stream"@ != "logit_bias"@,
        "stream"@ != "logprobs"@,
        "stream"@ != "metadata"@,
        "stream"@ != "n"@,
        "stream"@ != "parallel_tool_calls"@,
        "stream"@ != "presence_penalty"@,
        "stream"@ != "response_format"@,
        "stream"@ != "seed"@,
        "stream"@ != "service_tier"@,
        "stream"@ != "stop"@,
        "stream"@ != "stream_options"@,
        "stream"@ != "top_logprobs"@,
        "stream"@ != "user"@,
{
    reveal_strlit("model");
    reveal_strlit("frequency_penalty");
    reveal_strlit("logit_bias");
    reveal_strlit("logprobs");
    reveal_strlit("metadata");
    reveal_strlit("n");
    reveal_strlit("parallel_tool_calls");
    reveal_strlit("presence_penalty");
    reveal_strlit("response_format");
    reveal_strlit("seed");
    reveal_strlit("service_tier");
    reveal_strlit("stop");
    reveal_strlit("stream_options");
    reveal_strlit("top_logprobs");
    reveal_strlit("user");
    reveal_strlit("stream");
    assert("model"@.len() == 5);
    assert("frequency_penalty"@.len() == 17);
    assert("logit_bias"@.len() == 10);
    assert("logprobs"@.len() == 8);
    assert("metadata"@.len() == 8);
    assert("n"@.len() == 1);
    assert("parallel_tool_calls"@.len() == 19);
    assert("presence_penalty"@.len() == 16);
    assert("response_format"@.len() == 15);
    assert("seed"@.len() == 4);
    assert("service_tier"@.len() == 12);
    assert("stop"@.len() == 4);
    assert("stream_options"@.len() == 14);
    assert("top_logprobs"@.len() == 12);
    assert("user"@.len() == 4);
    assert("stream"@.len() == 6);
}

} // verus!
