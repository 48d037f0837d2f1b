//! The native JSON-RPC transport's line handling and the request helpers shared with the
//! compatible mode.
use vstd::prelude::*;
use crate::event::{obj1, obj2, obj3, object1, object2, object3, notification, notification_event};
use crate::json::{Json, JsonValue, opt_string_view, parse_json, parsed_json, items_view};
use crate::text::{join, join_strings, str_eq, trim, trimmed, is_blank, is_blank_str, replace_all, replace_str, contains};
use crate::decimal::{is_numeral, digits_value, parse_u64};

verus! {

/// The thread a message concerns: `params.threadId` (or, where absent, `params.thread_id`),
/// else `params.thread.id`.
pub open spec fn thread_id_of(v: JsonValue) -> Option<Seq<char>> {
    match v.field("params"@) {
        None => None,
        Some(p) => {
            let direct = match p.field("threadId"@) {
                Some(t) => Some(t),
                None => p.field("thread_id"@),
            };
            let direct_text = match direct {
                Some(t) => t.text(),
                None => None,
            };
            match direct_text {
                Some(t) => Some(t),
                None => match p.field("thread"@) {
                    Some(th) => th.str_field("id"@),
                    None => None,
                },
            }
        },
    }
}

/// The thread a message concerns.
pub fn extract_thread_id(value: &Json) -> (r: Option<String>)
    ensures
        opt_string_view(r) == thread_id_of(value@),
{
    let params = match value.get("params") {
        Some(p) => p,
        None => return None,
    };
    let direct = match params.get("threadId") {
        Some(t) => Some(t),
        None => params.get("thread_id"),
    };
    let direct_text = match direct {
        Some(t) => t.as_str(),
        None => None,
    };
    match direct_text {
        Some(t) => Some(String::from_str(t)),
        None => match params.get("thread") {
            Some(th) => match th.str_field("id") {
                Some(t) => Some(String::from_str(t)),
                None => None,
            },
            None => None,
        },
    }
}

/// The trimmed, non-empty texts of the `text` items of a turn's input, in order.
pub open spec fn user_texts(items: Seq<JsonValue>) -> Seq<Seq<char>>
    decreases items.len(),
{
    if items.len() == 0 {
        Seq::empty()
    } else {
        let rest = user_texts(items.drop_last());
        let it = items.last();
        if it.str_field("type"@) == Some("text"@) && !is_blank(crate::profile::text_or_empty(it.str_field("text"@))) {
            rest.push(trimmed(crate::profile::text_or_empty(it.str_field("text"@))))
        } else {
            rest
        }
    }
}

/// The prompt a turn's input gives: its texts joined by blank lines, or nothing where it has
/// none.
pub open spec fn user_prompt(params: JsonValue) -> Option<Seq<char>> {
    match params.field("input"@) {
        Some(JsonValue::Array(items)) => if user_texts(items).len() == 0 {
            None
        } else {
            Some(join(user_texts(items), "\n\n"@))
        },
        _ => None,
    }
}

/// The prompt a turn's input gives.
pub fn extract_user_text_from_turn_input(params: &Json) -> (r: Option<String>)
    ensures
        opt_string_view(r) == user_prompt(params@),
{
    let input = match params.get("input") {
        Some(i) => i,
        None => return None,
    };
    let items = match input.as_array() {
        Some(a) => a,
        None => return None,
    };
    let ghost iv = items_view(items@);
    let mut parts: Vec<String> = Vec::new();
    let mut i: usize = 0;
    assert(iv.subrange(0, 0) =~= Seq::<JsonValue>::empty());
    while i < items.len()
        invariant
            iv == items_view(items@),
            i <= items@.len(),
            parts@.map_values(|l: String| l@) == user_texts(iv.subrange(0, i as int)),
        decreases items@.len() - i,
    {
        let ghost before = parts@;
        assert(iv.subrange(0, i + 1).drop_last() =~= iv.subrange(0, i as int));
        let it = &items[i];
        let is_text = match it.str_field("type") {
            Some(t) => str_eq(t, "text"),
            None => false,
        };
        if is_text {
            let text = match it.str_field("text") {
                Some(t) => t,
                None => "",
            };
            let t = trim(text);
            if t.unicode_len() > 0 {
                parts.push(String::from_str(t));
                assert(parts@.map_values(|l: String| l@) =~= before.map_values(|l: String| l@).push(t@));
            }
        }
        i = i + 1;
    }
    assert(iv.subrange(0, i as int) =~= iv);
    if parts.len() == 0 {
        None
    } else {
        Some(join_strings(&parts, "\n\n"))
    }
}

/// The arguments of a compatible-mode invocation: `{prompt}` in each replaced by the prompt.
pub open spec fn templated_args(base: Seq<Seq<char>>, prompt: Seq<char>) -> Seq<Seq<char>> {
    base.map_values(|a: Seq<char>| replace_all(a, "{prompt}"@, prompt))
}

/// Whether any argument holds the `{prompt}` placeholder.
pub open spec fn has_placeholder(base: Seq<Seq<char>>) -> bool {
    exists|i: int| 0 <= i < base.len() && contains(#[trigger] base[i], "{prompt}"@)
}

/// The arguments with the prompt put in place of `{prompt}`, and whether the prompt must
/// instead go to the terminal's input (where no argument had the placeholder).
pub fn build_compatible_cli_invocation(base_args: &Vec<String>, prompt: &str) -> (r: (Vec<String>, bool))
    ensures
        r.0@.map_values(|a: String| a@) == templated_args(base_args@.map_values(|a: String| a@), prompt@),
        r.1 == !has_placeholder(base_args@.map_values(|a: String| a@)),
{
    let ghost bv = base_args@.map_values(|a: String| a@);
    proof {
        reveal_strlit("{prompt}");
    }
    let mut out: Vec<String> = Vec::new();
    let mut replaced = false;
    let mut i: usize = 0;
    while i < base_args.len()
        invariant
            bv == base_args@.map_values(|a: String| a@),
            "{prompt}"@.len() > 0,
            i <= base_args@.len(),
            out@.map_values(|a: String| a@) == templated_args(bv.subrange(0, i as int), prompt@),
            replaced == has_placeholder(bv.subrange(0, i as int)),
        decreases base_args@.len() - i,
    {
        let ghost before = out@;
        let (a, found) = replace_str(base_args[i].as_str(), "{prompt}", prompt);
        out.push(a);
        proof {
            assert(out@.map_values(|a: String| a@) =~= before.map_values(|a: String| a@).push(replace_all(bv[i as int], "{prompt}"@, prompt@)));
            assert(templated_args(bv.subrange(0, i + 1), prompt@) =~= templated_args(bv.subrange(0, i as int), prompt@).push(replace_all(bv[i as int], "{prompt}"@, prompt@)));
            assert(out@.map_values(|a: String| a@) =~= templated_args(bv.subrange(0, i + 1), prompt@));
            let b1 = bv.subrange(0, i + 1);
            if found {
                assert(contains(b1[i as int], "{prompt}"@));
            }
            if has_placeholder(b1) && !replaced {
                let k = choose|k: int| 0 <= k < b1.len() && contains(#[trigger] b1[k], "{prompt}"@);
                if k < i {
                    assert(bv.subrange(0, i as int)[k] == b1[k]);
                }
            }
            if replaced {
                let k = choose|k: int| 0 <= k < i && contains(#[trigger] bv.subrange(0, i as int)[k], "{prompt}"@);
                assert(b1[k] == bv.subrange(0, i as int)[k]);
            }
        }
        replaced = replaced || found;
        i = i + 1;
    }
    assert(bv.subrange(0, i as int) =~= bv);
    (out, !replaced)
}

/// The parameters of the `initialize` handshake.
pub open spec fn initialize_params(version: Seq<char>) -> JsonValue {
    obj2(
        "clientInfo"@,
        obj3("name"@, JsonValue::Str("codex_monitor"@), "title"@, JsonValue::Str("Agent Monitor"@), "version"@, JsonValue::Str(version)),
        "capabilities"@,
        obj1("experimentalApi"@, JsonValue::Bool(true)),
    )
}

/// The parameters of the `initialize` handshake.
pub fn build_initialize_params(client_version: &str) -> (r: Json)
    ensures
        r@ == initialize_params(client_version@),
{
    let info = object3(
        "name",
        Json::text("codex_monitor"),
        "title",
        Json::text("Agent Monitor"),
        "version",
        Json::text(client_version),
    );
    object2("clientInfo", info, "capabilities", object1("experimentalApi", Json::Bool(true)))
}

/// What one line of the native transport is.
#[derive(Debug)]
pub enum RpcLine {
    /// A blank line, skipped.
    Blank,
    /// A line that is not JSON: a diagnostic to surface.
    Unparsable(Json),
    /// The answer to the pending request with this id.
    Response(u64, Json),
    /// A notification or a request of the server, with the thread it concerns.
    Notification(Option<String>, Json),
    /// A message that is neither.
    Ignored,
}

/// The numeric id of a message.
pub open spec fn message_id(v: JsonValue) -> Option<u64> {
    match v.field("id"@) {
        Some(JsonValue::Number(t)) => if is_numeral(t) && digits_value(t) <= u64::MAX {
            Some(digits_value(t) as u64)
        } else {
            None
        },
        _ => None,
    }
}

pub open spec fn parse_error_event(raw: Seq<char>, error: Seq<char>) -> JsonValue {
    notification("codex/parseError"@, obj2("error"@, JsonValue::Str(error), "raw"@, JsonValue::Str(raw)))
}

/// Classifies one line of the native transport: by id, result or error, and method.
pub fn classify_rpc_line(line: &str) -> (r: RpcLine)
    ensures
        is_blank(line@) <==> r is Blank,
        !is_blank(line@) ==> match parsed_json(line@) {
            None => r is Unparsable && exists|e: Seq<char>| r->Unparsable_0@ == parse_error_event(line@, e),
            Some(v) => {
                let has_method = v.field("method"@) is Some;
                let answers = v.field("result"@) is Some || v.field("error"@) is Some;
                match message_id(v) {
                    Some(id) => if answers || !has_method {
                        r is Response && r->Response_0 == id && r->Response_1@ == v
                    } else {
                        r is Notification && opt_string_view(r->Notification_0) == thread_id_of(v) && r->Notification_1@ == v
                    },
                    None => if has_method {
                        r is Notification && opt_string_view(r->Notification_0) == thread_id_of(v) && r->Notification_1@ == v
                    } else {
                        r is Ignored
                    },
                }
            },
        },
{
    if is_blank_str(line) {
        return RpcLine::Blank;
    }
    let value = match parse_json(line) {
        Ok(v) => v,
        Err(e) => {
            let params = object2("error", Json::text(e.as_str()), "raw", Json::text(line));
            let ev = notification_event("codex/parseError", params);
            assert(ev@ == parse_error_event(line@, e@));
            return RpcLine::Unparsable(ev);
        },
    };
    let id = match value.get("id") {
        Some(Json::Number(t)) => parse_u64(t.as_str()),
        _ => None,
    };
    let has_method = value.get("method").is_some();
    let answers = value.get("result").is_some() || value.get("error").is_some();
    match id {
        Some(id) => if answers || !has_method {
            RpcLine::Response(id, value)
        } else {
            let thread = extract_thread_id(&value);
            RpcLine::Notification(thread, value)
        },
        None => if has_method {
            let thread = extract_thread_id(&value);
            RpcLine::Notification(thread, value)
        } else {
            RpcLine::Ignored
        },
    }
}

/// A line of the transport's error stream as a diagnostic event; blank lines give none.
pub fn stderr_event(line: &str) -> (r: Option<Json>)
    ensures
        is_blank(line@) <==> r is None,
        r is Some ==> r->Some_0@ == notification("codex/stderr"@, obj1("message"@, JsonValue::Str(line@))),
{
    if is_blank_str(line) {
        None
    } else {
        Some(notification_event("codex/stderr", object1("message", Json::text(line))))
    }
}

} // verus!
