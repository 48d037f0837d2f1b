//! Tool profiles: how each supported tool's streaming output lines become normalized events,
//! and where each tool reports its resumable session id.
use vstd::prelude::*;
use crate::event::{
    agent_delta, agent_delta_event, tool_completed, tool_completed_event, tool_started,
    tool_started_event, turn_completed_costed, turn_completed_costed_event, turn_completed_timed,
    turn_completed_timed_event, turn_started, turn_started_event,
};
use crate::json::{Json, JsonValue, parse_json, parsed_json, opt_json_view, opt_string_view};
use crate::text::{str_eq, ends_with, has_suffix};

verus! {

/// The event that one parsed line of the content-block tool stands for.
pub open spec fn claude_event(ev: JsonValue, thread: Seq<char>, turn: Seq<char>) -> Option<JsonValue> {
    match ev.str_field("type"@) {
        None => None,
        Some(t) => if t == "system"@ {
            if ev.str_field("subtype"@) == Some("init"@) {
                Some(turn_started(thread, turn))
            } else {
                None
            }
        } else if t == "content_block_delta"@ {
            match ev.field("delta"@) {
                Some(d) => if d.str_field("type"@) == Some("text_delta"@) {
                    match d.str_field("text"@) {
                        Some(x) => Some(agent_delta(thread, turn, x)),
                        None => None,
                    }
                } else {
                    None
                },
                None => None,
            }
        } else if t == "content_block_start"@ {
            match ev.field("content_block"@) {
                Some(b) => if b.str_field("type"@) == Some("tool_use"@) {
                    match b.str_field("name"@) {
                        Some(name) => Some(
                            tool_started(thread, turn, text_or_empty(b.str_field("id"@)), name),
                        ),
                        None => None,
                    }
                } else {
                    None
                },
                None => None,
            }
        } else if t == "tool_result"@ {
            Some(tool_completed(thread, turn, text_or_empty(ev.str_field("tool_use_id"@))))
        } else if t == "result"@ {
            Some(
                turn_completed_costed(
                    thread,
                    turn,
                    ev.field_or_null("cost_usd"@),
                    ev.field_or_null("duration_ms"@),
                ),
            )
        } else {
            None
        },
    }
}

/// The event that one parsed Gemini line stands for.
pub open spec fn gemini_event(ev: JsonValue, thread: Seq<char>, turn: Seq<char>) -> Option<JsonValue> {
    match ev.str_field("type"@) {
        None => None,
        Some(t) => if t == "init"@ {
            Some(turn_started(thread, turn))
        } else if t == "message"@ {
            if ev.str_field("role"@) == Some("assistant"@) {
                match ev.str_field("content"@) {
                    Some(x) => Some(agent_delta(thread, turn, x)),
                    None => None,
                }
            } else {
                None
            }
        } else if t == "tool_use"@ {
            Some(
                tool_started(
                    thread,
                    turn,
                    text_or_empty(ev.str_field("tool_id"@)),
                    text_or(ev.str_field("tool_name"@), "tool"@),
                ),
            )
        } else if t == "tool_result"@ {
            Some(tool_completed(thread, turn, text_or_empty(ev.str_field("tool_id"@))))
        } else if t == "result"@ {
            let d = match ev.field("stats"@) {
                Some(s) => s.field_or_null("duration_ms"@),
                None => JsonValue::Null,
            };
            Some(turn_completed_timed(thread, turn, d))
        } else {
            None
        },
    }
}

/// The text of the first element of the `content` array of a Cursor assistant message.
pub open spec fn cursor_message_text(ev: JsonValue) -> Option<Seq<char>> {
    match ev.field("message"@) {
        Some(m) => match m.field("content"@) {
            Some(JsonValue::Array(items)) => if items.len() > 0 {
                items[0].str_field("text"@)
            } else {
                None
            },
            _ => None,
        },
        None => None,
    }
}

/// The index of the first member whose name ends in `ToolCall`, if any.
pub open spec fn first_tool_call_key(m: Seq<(Seq<char>, JsonValue)>) -> Option<int>
    decreases m.len(),
{
    if m.len() == 0 {
        None
    } else if has_suffix(m[0].0, "ToolCall"@) {
        Some(0)
    } else {
        match first_tool_call_key(m.drop_first()) {
            Some(i) => Some(i + 1),
            None => None,
        }
    }
}

/// The tool name of a Cursor tool-call event: the first member named `<Name>ToolCall` gives
/// `<Name>`; else the `tool_name` member; else `tool`.
pub open spec fn cursor_tool_name(ev: JsonValue) -> Seq<char> {
    let from_key = match ev {
        JsonValue::Object(m) => match first_tool_call_key(m) {
            Some(i) => Some(m[i].0.subrange(0, m[i].0.len() - 8)),
            None => None,
        },
        _ => None,
    };
    match from_key {
        Some(name) => name,
        None => text_or(ev.str_field("tool_name"@), "tool"@),
    }
}

/// The event that one parsed Cursor line stands for.
pub open spec fn cursor_event(ev: JsonValue, thread: Seq<char>, turn: Seq<char>) -> Option<JsonValue> {
    match ev.str_field("type"@) {
        None => None,
        Some(t) => if t == "system"@ {
            if ev.str_field("subtype"@) == Some("init"@) {
                Some(turn_started(thread, turn))
            } else {
                None
            }
        } else if t == "assistant"@ {
            match cursor_message_text(ev) {
                Some(x) => Some(agent_delta(thread, turn, x)),
                None => None,
            }
        } else if t == "tool_call"@ {
            let call_id = text_or_empty(ev.str_field("call_id"@));
            if ev.str_field("subtype"@) == Some("started"@) {
                Some(tool_started(thread, turn, call_id, cursor_tool_name(ev)))
            } else if ev.str_field("subtype"@) == Some("completed"@) {
                Some(tool_completed(thread, turn, call_id))
            } else {
                None
            }
        } else if t == "result"@ {
            Some(turn_completed_timed(thread, turn, ev.field_or_null("duration_ms"@)))
        } else {
            None
        },
    }
}

pub open spec fn text_or(t: Option<Seq<char>>, d: Seq<char>) -> Seq<char> {
    match t {
        Some(s) => s,
        None => d,
    }
}

pub open spec fn text_or_empty(t: Option<Seq<char>>) -> Seq<char> {
    text_or(t, ""@)
}

/// The session id that a content-block or Cursor line reports: only a `system`/`init` line has one.
pub open spec fn init_line_session_id(ev: JsonValue) -> Option<Seq<char>> {
    if ev.str_field("type"@) == Some("system"@) && ev.str_field("subtype"@) == Some("init"@) {
        ev.str_field("session_id"@)
    } else {
        None
    }
}

/// The session id that a Gemini line reports: only an `init` line has one.
pub open spec fn gemini_line_session_id(ev: JsonValue) -> Option<Seq<char>> {
    if ev.str_field("type"@) == Some("init"@) {
        ev.str_field("session_id"@)
    } else {
        None
    }
}

/// Lifts a function of a parsed line to the line's text: a line that is not JSON gives nothing.
pub open spec fn on_parsed<T>(line: Seq<char>, f: spec_fn(JsonValue) -> Option<T>) -> Option<T> {
    match parsed_json(line) {
        Some(ev) => f(ev),
        None => None,
    }
}

fn str_or<'a>(t: Option<&'a str>, d: &'a str) -> (r: &'a str)
    ensures
        r@ == text_or(crate::json::opt_str_view(t), d@),
{
    match t {
        Some(s) => s,
        None => d,
    }
}

fn is_some_str(t: Option<&str>, expected: &str) -> (r: bool)
    ensures
        r == (crate::json::opt_str_view(t) == Some(expected@)),
{
    match t {
        Some(s) => str_eq(s, expected),
        None => false,
    }
}

fn field_or_null(ev: &Json, key: &str) -> (r: Json)
    ensures
        r@ == ev@.field_or_null(key@),
{
    match ev.get(key) {
        Some(v) => v.deep_clone(),
        None => Json::Null,
    }
}

/// Translates one parsed line of the content-block tool.
pub fn claude_event_from_json(ev: &Json, thread_id: &str, turn_id: &str) -> (r: Option<Json>)
    ensures
        opt_json_view(r) == claude_event(ev@, thread_id@, turn_id@),
{
    let t = match ev.str_field("type") {
        Some(t) => t,
        None => return None,
    };
    if str_eq(t, "system") {
        if is_some_str(ev.str_field("subtype"), "init") {
            Some(turn_started_event(thread_id, turn_id))
        } else {
            None
        }
    } else if str_eq(t, "content_block_delta") {
        match ev.get("delta") {
            Some(d) => if is_some_str(d.str_field("type"), "text_delta") {
                match d.str_field("text") {
                    Some(x) => Some(agent_delta_event(thread_id, turn_id, x)),
                    None => None,
                }
            } else {
                None
            },
            None => None,
        }
    } else if str_eq(t, "content_block_start") {
        match ev.get("content_block") {
            Some(b) => if is_some_str(b.str_field("type"), "tool_use") {
                match b.str_field("name") {
                    Some(name) => {
                        let id = str_or(b.str_field("id"), "");
                        Some(tool_started_event(thread_id, turn_id, id, name))
                    },
                    None => None,
                }
            } else {
                None
            },
            None => None,
        }
    } else if str_eq(t, "tool_result") {
        let id = str_or(ev.str_field("tool_use_id"), "");
        Some(tool_completed_event(thread_id, turn_id, id))
    } else if str_eq(t, "result") {
        let cost = field_or_null(ev, "cost_usd");
        let duration = field_or_null(ev, "duration_ms");
        Some(turn_completed_costed_event(thread_id, turn_id, cost, duration))
    } else {
        None
    }
}

/// Translates one output line of the content-block tool into a normalized event; lines that are not JSON, or of
/// a shape that carries no event, give nothing.
pub fn parse_stream_json_line(line: &str, thread_id: &str, turn_id: &str) -> (r: Option<Json>)
    ensures
        opt_json_view(r) == on_parsed(line@, |ev: JsonValue| claude_event(ev, thread_id@, turn_id@)),
{
    match parse_json(line) {
        Ok(ev) => claude_event_from_json(&ev, thread_id, turn_id),
        Err(_) => None,
    }
}

/// Translates one parsed Gemini line.
pub fn gemini_event_from_json(ev: &Json, thread_id: &str, turn_id: &str) -> (r: Option<Json>)
    ensures
        opt_json_view(r) == gemini_event(ev@, thread_id@, turn_id@),
{
    let t = match ev.str_field("type") {
        Some(t) => t,
        None => return None,
    };
    if str_eq(t, "init") {
        Some(turn_started_event(thread_id, turn_id))
    } else if str_eq(t, "message") {
        if is_some_str(ev.str_field("role"), "assistant") {
            match ev.str_field("content") {
                Some(x) => Some(agent_delta_event(thread_id, turn_id, x)),
                None => None,
            }
        } else {
            None
        }
    } else if str_eq(t, "tool_use") {
        let name = str_or(ev.str_field("tool_name"), "tool");
        let id = str_or(ev.str_field("tool_id"), "");
        Some(tool_started_event(thread_id, turn_id, id, name))
    } else if str_eq(t, "tool_result") {
        let id = str_or(ev.str_field("tool_id"), "");
        Some(tool_completed_event(thread_id, turn_id, id))
    } else if str_eq(t, "result") {
        let d = match ev.get("stats") {
            Some(s) => field_or_null(s, "duration_ms"),
            None => Json::Null,
        };
        Some(turn_completed_timed_event(thread_id, turn_id, d))
    } else {
        None
    }
}

/// Translates one Gemini output line into a normalized event.
pub fn parse_gemini_stream_line(line: &str, thread_id: &str, turn_id: &str) -> (r: Option<Json>)
    ensures
        opt_json_view(r) == on_parsed(line@, |ev: JsonValue| gemini_event(ev, thread_id@, turn_id@)),
{
    match parse_json(line) {
        Ok(ev) => gemini_event_from_json(&ev, thread_id, turn_id),
        Err(_) => None,
    }
}

fn cursor_message_text_of(ev: &Json) -> (r: Option<&str>)
    ensures
        crate::json::opt_str_view(r) == cursor_message_text(ev@),
{
    let m = match ev.get("message") {
        Some(m) => m,
        None => return None,
    };
    let c = match m.get("content") {
        Some(c) => c,
        None => return None,
    };
    match c.as_array() {
        Some(items) => {
            if items.len() > 0 {
                items[0].str_field("text")
            } else {
                None
            }
        },
        None => None,
    }
}

proof fn lemma_first_tool_call_key_from(m: Seq<(Seq<char>, JsonValue)>, i: int)
    requires
        0 <= i < m.len(),
        !has_suffix(m[i].0, "ToolCall"@),
    ensures
        shifted(first_tool_call_key(m.subrange(i, m.len() as int)), i) == shifted(
            first_tool_call_key(m.subrange(i + 1, m.len() as int)),
            i + 1,
        ),
{
    assert(m.subrange(i, m.len() as int).drop_first() =~= m.subrange(i + 1, m.len() as int));
}

pub open spec fn shifted(o: Option<int>, k: int) -> Option<int> {
    match o {
        Some(i) => Some(i + k),
        None => None,
    }
}

/// The tool name of a Cursor tool-call event.
pub fn extract_tool_name_from_cursor_event(ev: &Json) -> (r: String)
    ensures
        r@ == cursor_tool_name(ev@),
{
    if let Some(members) = ev.as_object() {
        let ghost m = ev@->Object_0;
        let n = members.len();
        let mut i: usize = 0;
        assert(m =~= m.subrange(0, n as int));
        while i < n
            invariant
                n == members.len(),
                ev@ == JsonValue::Object(m),
                crate::json::members_view(members@) == m,
                i <= n,
                first_tool_call_key(m) == shifted(first_tool_call_key(m.subrange(i as int, n as int)), i as int),
            decreases n - i,
        {
            let key = members[i].0.as_str();
            assert(m[i as int].0 == key@);
            if ends_with(key, "ToolCall") {
                proof {
                    reveal_strlit("ToolCall");
                    assert(m.subrange(i as int, n as int)[0] == m[i as int]);
                }
                let len = key.unicode_len();
                return String::from_str(key.substring_char(0, len - 8));
            }
            proof {
                lemma_first_tool_call_key_from(m, i as int);
            }
            i = i + 1;
        }
        assert(m.subrange(n as int, n as int).len() == 0);
    }
    proof {
        reveal_strlit("tool");
    }
    String::from_str(str_or(ev.str_field("tool_name"), "tool"))
}

/// Translates one parsed Cursor line.
pub fn cursor_event_from_json(ev: &Json, thread_id: &str, turn_id: &str) -> (r: Option<Json>)
    ensures
        opt_json_view(r) == cursor_event(ev@, thread_id@, turn_id@),
{
    let t = match ev.str_field("type") {
        Some(t) => t,
        None => return None,
    };
    if str_eq(t, "system") {
        if is_some_str(ev.str_field("subtype"), "init") {
            Some(turn_started_event(thread_id, turn_id))
        } else {
            None
        }
    } else if str_eq(t, "assistant") {
        match cursor_message_text_of(ev) {
            Some(x) => Some(agent_delta_event(thread_id, turn_id, x)),
            None => None,
        }
    } else if str_eq(t, "tool_call") {
        let call_id = str_or(ev.str_field("call_id"), "");
        if is_some_str(ev.str_field("subtype"), "started") {
            let name = extract_tool_name_from_cursor_event(ev);
            Some(tool_started_event(thread_id, turn_id, call_id, name.as_str()))
        } else if is_some_str(ev.str_field("subtype"), "completed") {
            Some(tool_completed_event(thread_id, turn_id, call_id))
        } else {
            None
        }
    } else if str_eq(t, "result") {
        Some(turn_completed_timed_event(thread_id, turn_id, field_or_null(ev, "duration_ms")))
    } else {
        None
    }
}

/// Translates one Cursor output line into a normalized event.
pub fn parse_cursor_stream_line(line: &str, thread_id: &str, turn_id: &str) -> (r: Option<Json>)
    ensures
        opt_json_view(r) == on_parsed(line@, |ev: JsonValue| cursor_event(ev, thread_id@, turn_id@)),
{
    match parse_json(line) {
        Ok(ev) => cursor_event_from_json(&ev, thread_id, turn_id),
        Err(_) => None,
    }
}

fn owned(t: Option<&str>) -> (r: Option<String>)
    ensures
        opt_string_view(r) == crate::json::opt_str_view(t),
{
    match t {
        Some(s) => Some(String::from_str(s)),
        None => None,
    }
}

/// The session id of a parsed content-block or Cursor line.
pub fn init_session_id_from_json(ev: &Json) -> (r: Option<String>)
    ensures
        opt_string_view(r) == init_line_session_id(ev@),
{
    if is_some_str(ev.str_field("type"), "system") && is_some_str(ev.str_field("subtype"), "init") {
        owned(ev.str_field("session_id"))
    } else {
        None
    }
}

/// The session id of a parsed Gemini line.
pub fn gemini_session_id_from_json(ev: &Json) -> (r: Option<String>)
    ensures
        opt_string_view(r) == gemini_line_session_id(ev@),
{
    if is_some_str(ev.str_field("type"), "init") {
        owned(ev.str_field("session_id"))
    } else {
        None
    }
}

/// The session id that an output line of the content-block tool reports.
pub fn extract_session_id_from_line(line: &str) -> (r: Option<String>)
    ensures
        opt_string_view(r) == on_parsed(line@, |ev: JsonValue| init_line_session_id(ev)),
{
    match parse_json(line) {
        Ok(ev) => init_session_id_from_json(&ev),
        Err(_) => None,
    }
}

/// The session id that a Cursor output line reports.
pub fn extract_cursor_session_id(line: &str) -> (r: Option<String>)
    ensures
        opt_string_view(r) == on_parsed(line@, |ev: JsonValue| init_line_session_id(ev)),
{
    match parse_json(line) {
        Ok(ev) => init_session_id_from_json(&ev),
        Err(_) => None,
    }
}

/// The session id that a Gemini output line reports.
pub fn extract_gemini_session_id(line: &str) -> (r: Option<String>)
    ensures
        opt_string_view(r) == on_parsed(line@, |ev: JsonValue| gemini_line_session_id(ev)),
{
    match parse_json(line) {
        Ok(ev) => gemini_session_id_from_json(&ev),
        Err(_) => None,
    }
}

} // verus!
