//! The normalized event vocabulary that every tool's output is translated into.
use vstd::prelude::*;
use crate::json::{Json, JsonValue, member};

verus! {

pub open spec fn obj1(k1: Seq<char>, v1: JsonValue) -> JsonValue {
    JsonValue::Object(seq![(k1, v1)])
}

pub open spec fn empty_obj() -> JsonValue {
    JsonValue::Object(Seq::empty())
}

pub fn object1(k1: &str, v1: Json) -> (r: Json)
    ensures
        r@ == obj1(k1@, v1@),
{
    let mut m: Vec<(String, Json)> = Vec::new();
    m.push(member(k1, v1));
    let r = Json::object(m);
    assert(r@->Object_0 =~= obj1(k1@, v1@)->Object_0);
    r
}

pub fn empty_object() -> (r: Json)
    ensures
        r@ == empty_obj(),
{
    let m: Vec<(String, Json)> = Vec::new();
    let r = Json::object(m);
    assert(r@->Object_0 =~= empty_obj()->Object_0);
    r
}

pub open spec fn obj2(k1: Seq<char>, v1: JsonValue, k2: Seq<char>, v2: JsonValue) -> JsonValue {
    JsonValue::Object(seq![(k1, v1), (k2, v2)])
}

pub open spec fn obj3(
    k1: Seq<char>,
    v1: JsonValue,
    k2: Seq<char>,
    v2: JsonValue,
    k3: Seq<char>,
    v3: JsonValue,
) -> JsonValue {
    JsonValue::Object(seq![(k1, v1), (k2, v2), (k3, v3)])
}

pub open spec fn obj4(
    k1: Seq<char>,
    v1: JsonValue,
    k2: Seq<char>,
    v2: JsonValue,
    k3: Seq<char>,
    v3: JsonValue,
    k4: Seq<char>,
    v4: JsonValue,
) -> JsonValue {
    JsonValue::Object(seq![(k1, v1), (k2, v2), (k3, v3), (k4, v4)])
}

pub fn object2(k1: &str, v1: Json, k2: &str, v2: Json) -> (r: Json)
    ensures
        r@ == obj2(k1@, v1@, k2@, v2@),
{
    let mut m: Vec<(String, Json)> = Vec::new();
    m.push(member(k1, v1));
    m.push(member(k2, v2));
    let r = Json::object(m);
    assert(r@->Object_0 =~= obj2(k1@, v1@, k2@, v2@)->Object_0);
    r
}

pub fn object3(k1: &str, v1: Json, k2: &str, v2: Json, k3: &str, v3: Json) -> (r: Json)
    ensures
        r@ == obj3(k1@, v1@, k2@, v2@, k3@, v3@),
{
    let mut m: Vec<(String, Json)> = Vec::new();
    m.push(member(k1, v1));
    m.push(member(k2, v2));
    m.push(member(k3, v3));
    let r = Json::object(m);
    assert(r@->Object_0 =~= obj3(k1@, v1@, k2@, v2@, k3@, v3@)->Object_0);
    r
}

pub fn object4(k1: &str, v1: Json, k2: &str, v2: Json, k3: &str, v3: Json, k4: &str, v4: Json) -> (r:
    Json)
    ensures
        r@ == obj4(k1@, v1@, k2@, v2@, k3@, v3@, k4@, v4@),
{
    let mut m: Vec<(String, Json)> = Vec::new();
    m.push(member(k1, v1));
    m.push(member(k2, v2));
    m.push(member(k3, v3));
    m.push(member(k4, v4));
    let r = Json::object(m);
    assert(r@->Object_0 =~= obj4(k1@, v1@, k2@, v2@, k3@, v3@, k4@, v4@)->Object_0);
    r
}

/// A notification: a method name and its parameters.
pub open spec fn notification(method: Seq<char>, params: JsonValue) -> JsonValue {
    obj2("method"@, JsonValue::Str(method), "params"@, params)
}

/// The method name of a notification.
pub open spec fn method_of(ev: JsonValue) -> Option<Seq<char>> {
    ev.str_field("method"@)
}

pub open spec fn turn_ids(thread: Seq<char>, turn: Seq<char>) -> JsonValue {
    obj2("threadId"@, JsonValue::Str(thread), "turnId"@, JsonValue::Str(turn))
}

pub open spec fn turn_started(thread: Seq<char>, turn: Seq<char>) -> JsonValue {
    notification("turn/started"@, turn_ids(thread, turn))
}

/// The identifier of the assistant-message item of a turn.
pub open spec fn message_item_id(turn: Seq<char>) -> Seq<char> {
    "msg_"@ + turn
}

pub open spec fn agent_delta(thread: Seq<char>, turn: Seq<char>, text: Seq<char>) -> JsonValue {
    notification(
        "item/agentMessage/delta"@,
        obj4(
            "threadId"@,
            JsonValue::Str(thread),
            "turnId"@,
            JsonValue::Str(turn),
            "itemId"@,
            JsonValue::Str(message_item_id(turn)),
            "delta"@,
            JsonValue::Str(text),
        ),
    )
}

pub open spec fn tool_started(thread: Seq<char>, turn: Seq<char>, id: Seq<char>, name: Seq<char>) -> JsonValue {
    notification(
        "item/started"@,
        obj3(
            "threadId"@,
            JsonValue::Str(thread),
            "turnId"@,
            JsonValue::Str(turn),
            "item"@,
            obj3(
                "id"@,
                JsonValue::Str(id),
                "type"@,
                JsonValue::Str("tool_use"@),
                "name"@,
                JsonValue::Str(name),
            ),
        ),
    )
}

pub open spec fn tool_completed(thread: Seq<char>, turn: Seq<char>, id: Seq<char>) -> JsonValue {
    notification(
        "item/completed"@,
        obj3(
            "threadId"@,
            JsonValue::Str(thread),
            "turnId"@,
            JsonValue::Str(turn),
            "item"@,
            obj2("id"@, JsonValue::Str(id), "type"@, JsonValue::Str("tool_use"@)),
        ),
    )
}

/// Completion carrying the turn's duration.
pub open spec fn turn_completed_timed(thread: Seq<char>, turn: Seq<char>, duration: JsonValue) -> JsonValue {
    notification(
        "turn/completed"@,
        obj3("threadId"@, JsonValue::Str(thread), "turnId"@, JsonValue::Str(turn), "durationMs"@, duration),
    )
}

/// Completion carrying the turn's cost and duration.
pub open spec fn turn_completed_costed(
    thread: Seq<char>,
    turn: Seq<char>,
    cost: JsonValue,
    duration: JsonValue,
) -> JsonValue {
    notification(
        "turn/completed"@,
        obj4(
            "threadId"@,
            JsonValue::Str(thread),
            "turnId"@,
            JsonValue::Str(turn),
            "costUsd"@,
            cost,
            "durationMs"@,
            duration,
        ),
    )
}

/// The completion that the session supplies when a tool reported none.
pub open spec fn turn_completed_fallback(thread: Seq<char>, turn: Seq<char>) -> JsonValue {
    notification("turn/completed"@, turn_ids(thread, turn))
}

pub fn notification_event(method: &str, params: Json) -> (r: Json)
    ensures
        r@ == notification(method@, params@),
{
    object2("method", Json::text(method), "params", params)
}

fn turn_ids_value(thread_id: &str, turn_id: &str) -> (r: Json)
    ensures
        r@ == turn_ids(thread_id@, turn_id@),
{
    object2("threadId", Json::text(thread_id), "turnId", Json::text(turn_id))
}

pub fn turn_started_event(thread_id: &str, turn_id: &str) -> (r: Json)
    ensures
        r@ == turn_started(thread_id@, turn_id@),
{
    notification_event("turn/started", turn_ids_value(thread_id, turn_id))
}

pub fn message_item_id_for(turn_id: &str) -> (r: String)
    ensures
        r@ == message_item_id(turn_id@),
{
    String::from_str("msg_").concat(turn_id)
}

pub fn agent_delta_event(thread_id: &str, turn_id: &str, text: &str) -> (r: Json)
    ensures
        r@ == agent_delta(thread_id@, turn_id@, text@),
{
    let item = message_item_id_for(turn_id);
    let params = object4(
        "threadId",
        Json::text(thread_id),
        "turnId",
        Json::text(turn_id),
        "itemId",
        Json::text(item.as_str()),
        "delta",
        Json::text(text),
    );
    notification_event("item/agentMessage/delta", params)
}

pub fn tool_started_event(thread_id: &str, turn_id: &str, id: &str, name: &str) -> (r: Json)
    ensures
        r@ == tool_started(thread_id@, turn_id@, id@, name@),
{
    let item = object3("id", Json::text(id), "type", Json::text("tool_use"), "name", Json::text(name));
    let params = object3("threadId", Json::text(thread_id), "turnId", Json::text(turn_id), "item", item);
    notification_event("item/started", params)
}

pub fn tool_completed_event(thread_id: &str, turn_id: &str, id: &str) -> (r: Json)
    ensures
        r@ == tool_completed(thread_id@, turn_id@, id@),
{
    let item = object2("id", Json::text(id), "type", Json::text("tool_use"));
    let params = object3("threadId", Json::text(thread_id), "turnId", Json::text(turn_id), "item", item);
    notification_event("item/completed", params)
}

pub fn turn_completed_timed_event(thread_id: &str, turn_id: &str, duration: Json) -> (r: Json)
    ensures
        r@ == turn_completed_timed(thread_id@, turn_id@, duration@),
{
    let params = object3(
        "threadId",
        Json::text(thread_id),
        "turnId",
        Json::text(turn_id),
        "durationMs",
        duration,
    );
    notification_event("turn/completed", params)
}

pub fn turn_completed_costed_event(thread_id: &str, turn_id: &str, cost: Json, duration: Json) -> (r:
    Json)
    ensures
        r@ == turn_completed_costed(thread_id@, turn_id@, cost@, duration@),
{
    let params = object4(
        "threadId",
        Json::text(thread_id),
        "turnId",
        Json::text(turn_id),
        "costUsd",
        cost,
        "durationMs",
        duration,
    );
    notification_event("turn/completed", params)
}

pub fn turn_completed_fallback_event(thread_id: &str, turn_id: &str) -> (r: Json)
    ensures
        r@ == turn_completed_fallback(thread_id@, turn_id@),
{
    notification_event("turn/completed", turn_ids_value(thread_id, turn_id))
}

} // verus!
