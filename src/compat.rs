//! The compatible session: the request surface emulated in memory for a tool that has no
//! RPC server mode, with one terminal invocation per turn.
use vstd::prelude::*;
use vstd::string::StringSliceAdditionalSpecFns;
use crate::decimal::{decimal, u64_to_decimal, parse_u64, is_numeral, digits_value};
use crate::event::{
    empty_obj, empty_object, notification, notification_event, obj1, obj2, obj4, object1, object2, object4,
};
use crate::json::{Json, JsonValue, items_view, opt_string_view};
use crate::rpc::{extract_user_text_from_turn_input, user_prompt};
use crate::text::{str_eq, trim, trimmed, is_blank, lines_of};

verus! {

/// A conversation of the compatible session.
#[derive(Debug)]
pub struct CompatibleThread {
    pub id: String,
    pub name: String,
    pub preview: String,
    pub cwd: String,
    pub created_at: u64,
    pub updated_at: u64,
    pub archived: bool,
}

pub struct CThreadView {
    pub id: Seq<char>,
    pub name: Seq<char>,
    pub preview: Seq<char>,
    pub cwd: Seq<char>,
    pub created_at: u64,
    pub updated_at: u64,
    pub archived: bool,
}

impl View for CompatibleThread {
    type V = CThreadView;

    open spec fn view(&self) -> CThreadView {
        CThreadView {
            id: self.id@,
            name: self.name@,
            preview: self.preview@,
            cwd: self.cwd@,
            created_at: self.created_at,
            updated_at: self.updated_at,
            archived: self.archived,
        }
    }
}

impl CompatibleThread {
    fn copy(&self) -> (r: CompatibleThread)
        ensures
            r@ == self@,
    {
        CompatibleThread {
            id: self.id.clone(),
            name: self.name.clone(),
            preview: self.preview.clone(),
            cwd: self.cwd.clone(),
            created_at: self.created_at,
            updated_at: self.updated_at,
            archived: self.archived,
        }
    }
}

/// How a thread appears in replies and events.
pub open spec fn thread_value(t: CThreadView) -> JsonValue {
    JsonValue::Object(
        seq![
            ("id"@, JsonValue::Str(t.id)),
            ("title"@, JsonValue::Str(t.name)),
            ("preview"@, JsonValue::Str(t.preview)),
            ("cwd"@, JsonValue::Str(t.cwd)),
            ("createdAt"@, JsonValue::Number(decimal(t.created_at as nat))),
            ("updatedAt"@, JsonValue::Number(decimal(t.updated_at as nat))),
        ],
    )
}

/// How a thread appears in replies and events.
pub fn build_compatible_thread_value(t: &CompatibleThread) -> (r: Json)
    ensures
        r@ == thread_value(t@),
{
    let mut m: Vec<(String, Json)> = Vec::new();
    m.push(crate::json::member("id", Json::text(t.id.as_str())));
    m.push(crate::json::member("title", Json::text(t.name.as_str())));
    m.push(crate::json::member("preview", Json::text(t.preview.as_str())));
    m.push(crate::json::member("cwd", Json::text(t.cwd.as_str())));
    m.push(crate::json::member("createdAt", Json::Number(u64_to_decimal(t.created_at))));
    m.push(crate::json::member("updatedAt", Json::Number(u64_to_decimal(t.updated_at))));
    let r = Json::object(m);
    assert(r@->Object_0 =~= thread_value(t@)->Object_0);
    r
}

/// Text order: by characters, a proper prefix first.
pub open spec fn lex_less(a: Seq<char>, b: Seq<char>) -> bool
    decreases a.len(),
{
    if a.len() == 0 {
        b.len() > 0
    } else if b.len() == 0 {
        false
    } else if a[0] != b[0] {
        a[0] < b[0]
    } else {
        lex_less(a.drop_first(), b.drop_first())
    }
}

proof fn lemma_lex_total(a: Seq<char>, b: Seq<char>)
    requires
        a != b,
    ensures
        lex_less(a, b) || lex_less(b, a),
    decreases a.len(),
{
    if a.len() > 0 && b.len() > 0 && a[0] == b[0] {
        if a.drop_first() == b.drop_first() {
            assert(a =~= seq![a[0]] + a.drop_first());
            assert(b =~= seq![b[0]] + b.drop_first());
            assert(a =~= b);
        } else {
            lemma_lex_total(a.drop_first(), b.drop_first());
        }
    } else if a.len() == 0 && b.len() == 0 {
        assert(a =~= b);
    }
}

/// Text order.
pub fn str_less(a: &str, b: &str) -> (r: bool)
    ensures
        r == lex_less(a@, b@),
{
    let n = a.unicode_len();
    let m = b.unicode_len();
    let mut i: usize = 0;
    assert(a@.subrange(0, n as int) =~= a@);
    assert(b@.subrange(0, m as int) =~= b@);
    while i < n && i < m
        invariant
            n == a@.len(),
            m == b@.len(),
            i <= n,
            i <= m,
            lex_less(a@, b@) == lex_less(a@.subrange(i as int, n as int), b@.subrange(i as int, m as int)),
        decreases n - i,
    {
        let x = a.get_char(i);
        let y = b.get_char(i);
        let ghost sa = a@.subrange(i as int, n as int);
        let ghost sb = b@.subrange(i as int, m as int);
        assert(sa[0] == x && sb[0] == y);
        if x != y {
            return x < y;
        }
        assert(sa.drop_first() =~= a@.subrange(i + 1, n as int));
        assert(sb.drop_first() =~= b@.subrange(i + 1, m as int));
        i = i + 1;
    }
    i < m
}

/// The key a listing sorts by.
pub open spec fn sort_key(t: CThreadView, by_created: bool) -> u64 {
    if by_created {
        t.created_at
    } else {
        t.updated_at
    }
}

/// Listing order: newest first, then by id.
pub open spec fn precedes(a: CThreadView, b: CThreadView, by_created: bool) -> bool {
    sort_key(a, by_created) > sort_key(b, by_created) || (sort_key(a, by_created) == sort_key(b, by_created)
        && lex_less(a.id, b.id))
}

pub open spec fn sorted_by(s: Seq<CThreadView>, by_created: bool) -> bool {
    forall|k: int| 0 <= k < s.len() - 1 ==> precedes(#[trigger] s[k], s[k + 1], by_created)
}

pub open spec fn distinct_ids(s: Seq<CThreadView>) -> bool {
    forall|a: int, b: int| 0 <= a < s.len() && 0 <= b < s.len() && a != b ==> #[trigger] s[a].id != #[trigger] s[b].id
}

/// Whether `x` is one of the first `i` threads of `all` and is not archived.
pub open spec fn active_in(all: Seq<CThreadView>, i: int, x: CThreadView) -> bool {
    exists|k: int| 0 <= k < i && !all[k].archived && all[k] == x
}

/// Whether `s` holds exactly the threads of `all` that are not archived.
pub open spec fn same_active(s: Seq<CThreadView>, all: Seq<CThreadView>) -> bool {
    &&& forall|j: int| 0 <= j < s.len() ==> active_in(all, all.len() as int, #[trigger] s[j])
    &&& forall|k: int| 0 <= k < all.len() && !all[k].archived ==> s.contains(#[trigger] all[k])
}

pub open spec fn views(v: Seq<CompatibleThread>) -> Seq<CThreadView> {
    v.map_values(|t: CompatibleThread| t@)
}

fn precedes_exec(a: &CompatibleThread, b: &CompatibleThread, by_created: bool) -> (r: bool)
    ensures
        r == precedes(a@, b@, by_created),
{
    let ka = if by_created { a.created_at } else { a.updated_at };
    let kb = if by_created { b.created_at } else { b.updated_at };
    ka > kb || (ka == kb && str_less(a.id.as_str(), b.id.as_str()))
}

proof fn lemma_insert_sorted(ov: Seq<CThreadView>, xv: CThreadView, p: int, bc: bool)
    requires
        sorted_by(ov, bc),
        0 <= p <= ov.len(),
        p < ov.len() ==> precedes(xv, ov[p], bc),
        p > 0 ==> precedes(ov[p - 1], xv, bc),
    ensures
        sorted_by(ov.insert(p, xv), bc),
{
    let nv = ov.insert(p, xv);
    assert forall|k: int| 0 <= k < nv.len() - 1 implies precedes(#[trigger] nv[k], nv[k + 1], bc) by {
        if k < p - 1 {
            assert(nv[k] == ov[k] && nv[k + 1] == ov[k + 1]);
        } else if k == p - 1 {
        } else if k == p {
        } else {
            assert(nv[k] == ov[k - 1] && nv[k + 1] == ov[k]);
        }
    }
}

proof fn lemma_insert_distinct(ov: Seq<CThreadView>, xv: CThreadView, p: int)
    requires
        distinct_ids(ov),
        0 <= p <= ov.len(),
        forall|j: int| 0 <= j < ov.len() ==> #[trigger] ov[j].id != xv.id,
    ensures
        distinct_ids(ov.insert(p, xv)),
{
    let nv = ov.insert(p, xv);
    assert forall|a: int, b: int| 0 <= a < nv.len() && 0 <= b < nv.len() && a != b implies #[trigger] nv[a].id != #[trigger] nv[b].id by {
        if a != p && b != p {
            let a0 = if a < p { a } else { a - 1 };
            let b0 = if b < p { b } else { b - 1 };
            assert(nv[a] == ov[a0] && nv[b] == ov[b0]);
        } else if a == p {
            let b0 = if b < p { b } else { b - 1 };
            assert(nv[b] == ov[b0]);
        } else {
            let a0 = if a < p { a } else { a - 1 };
            assert(nv[a] == ov[a0]);
        }
    }
}

pub open spec fn members_upto(s: Seq<CThreadView>, all: Seq<CThreadView>, i: int) -> bool {
    &&& forall|j: int| 0 <= j < s.len() ==> active_in(all, i, #[trigger] s[j])
    &&& forall|k: int| 0 <= k < i && !all[k].archived ==> s.contains(#[trigger] all[k])
}

proof fn lemma_insert_members(ov: Seq<CThreadView>, all: Seq<CThreadView>, i: int, p: int)
    requires
        members_upto(ov, all, i),
        0 <= i < all.len(),
        !all[i].archived,
        0 <= p <= ov.len(),
    ensures
        members_upto(ov.insert(p, all[i]), all, i + 1),
{
    let nv = ov.insert(p, all[i]);
    assert forall|j: int| 0 <= j < nv.len() implies active_in(all, i + 1, #[trigger] nv[j]) by {
        if j == p {
            assert(nv[j] == all[i]);
        } else {
            let j0 = if j < p { j } else { j - 1 };
            assert(nv[j] == ov[j0]);
            assert(active_in(all, i, ov[j0]));
        }
    }
    assert forall|k: int| 0 <= k < i + 1 && !all[k].archived implies nv.contains(#[trigger] all[k]) by {
        if k == i {
            assert(nv[p] == all[k]);
        } else {
            assert(ov.contains(all[k]));
            let j0 = choose|j: int| 0 <= j < ov.len() && ov[j] == all[k];
            let j = if j0 < p { j0 } else { j0 + 1 };
            assert(nv[j] == ov[j0]);
        }
    }
}

proof fn lemma_skip_member(ov: Seq<CThreadView>, all: Seq<CThreadView>, i: int)
    requires
        members_upto(ov, all, i),
        0 <= i < all.len(),
        all[i].archived,
    ensures
        members_upto(ov, all, i + 1),
{
    assert forall|j: int| 0 <= j < ov.len() implies active_in(all, i + 1, #[trigger] ov[j]) by {
        assert(active_in(all, i, ov[j]));
    }
}

proof fn lemma_members_done(ov: Seq<CThreadView>, all: Seq<CThreadView>)
    requires
        members_upto(ov, all, all.len() as int),
    ensures
        same_active(ov, all),
{
}

proof fn lemma_new_id_fresh(ov: Seq<CThreadView>, all: Seq<CThreadView>, i: int)
    requires
        members_upto(ov, all, i),
        distinct_ids(all),
        0 <= i < all.len(),
    ensures
        forall|j: int| 0 <= j < ov.len() ==> #[trigger] ov[j].id != all[i].id,
{
    assert forall|j: int| 0 <= j < ov.len() implies #[trigger] ov[j].id != all[i].id by {
        assert(active_in(all, i, ov[j]));
        let k = choose|k: int| 0 <= k < i && !all[k].archived && all[k] == ov[j];
        assert(all[k].id != all[i].id);
    }
}

proof fn lemma_precedes_total(a: CThreadView, b: CThreadView, bc: bool)
    requires
        a.id != b.id,
        !precedes(b, a, bc),
    ensures
        precedes(a, b, bc),
{
    lemma_lex_total(a.id, b.id);
}

/// The threads that are not archived, in listing order.
pub fn sorted_active_threads(threads: &Vec<CompatibleThread>, by_created: bool) -> (r: Vec<CompatibleThread>)
    requires
        distinct_ids(views(threads@)),
    ensures
        sorted_by(views(r@), by_created),
        distinct_ids(views(r@)),
        same_active(views(r@), views(threads@)),
{
    let ghost all = views(threads@);
    let mut out: Vec<CompatibleThread> = Vec::new();
    let mut i: usize = 0;
    assert(views(out@) =~= Seq::<CThreadView>::empty());
    while i < threads.len()
        invariant
            all == views(threads@),
            distinct_ids(all),
            i <= threads@.len(),
            sorted_by(views(out@), by_created),
            distinct_ids(views(out@)),
            members_upto(views(out@), all, i as int),
        decreases threads@.len() - i,
    {
        let ghost ov = views(out@);
        if !threads[i].archived {
            let x = threads[i].copy();
            let mut p: usize = 0;
            while p < out.len() && !precedes_exec(&x, &out[p], by_created)
                invariant
                    p <= out@.len(),
                    ov == views(out@),
                    x@ == all[i as int],
                    forall|q: int| 0 <= q < p ==> !precedes(all[i as int], #[trigger] ov[q], by_created),
                decreases out@.len() - p,
            {
                p = p + 1;
            }
            proof {
                lemma_new_id_fresh(ov, all, i as int);
                if p > 0 {
                    lemma_precedes_total(ov[p - 1], all[i as int], by_created);
                }
                lemma_insert_sorted(ov, all[i as int], p as int, by_created);
                lemma_insert_distinct(ov, all[i as int], p as int);
                lemma_insert_members(ov, all, i as int, p as int);
            }
            out.insert(p, x);
            assert(views(out@) =~= ov.insert(p as int, all[i as int]));
        } else {
            proof {
                lemma_skip_member(ov, all, i as int);
            }
        }
        i = i + 1;
    }
    proof {
        lemma_members_done(views(out@), all);
    }
    out
}

/// The text that a run of bytes decodes to, invalid sequences replaced.
pub uninterp spec fn lossy_text(b: Seq<u8>) -> Seq<char>;

/// Relies on String::from_utf8_lossy: the bytes decoded as UTF-8, each invalid sequence
/// replaced by U+FFFD.
#[verifier::external_body]
fn lossy_utf8(b: &[u8]) -> (r: String)
    ensures
        r@ == lossy_text(b@),
{
    String::from_utf8_lossy(b).to_string()
}

/// The bytes of `b` cut into runs of `size` (the last may be shorter).
pub open spec fn byte_chunks(b: Seq<u8>, size: nat) -> Seq<Seq<u8>>
    decreases b.len(),
{
    if b.len() == 0 || size == 0 {
        Seq::empty()
    } else if b.len() <= size {
        seq![b]
    } else {
        seq![b.subrange(0, size as int)] + byte_chunks(b.subrange(size as int, b.len() as int), size)
    }
}

/// The bytes of a text, cut into runs of 1024, each decoded as UTF-8 on its own.
pub open spec fn output_deltas(out: &str) -> Seq<Seq<char>> {
    byte_chunks(out.spec_bytes(), 1024).map_values(|c: Seq<u8>| lossy_text(c))
}

/// The pieces in which a turn's output streams: its bytes in runs of 1024, each decoded.
pub fn chunk_output(out: &str) -> (r: Vec<String>)
    ensures
        r@.map_values(|x: String| x@) == output_deltas(out),
{
    let bytes = out.as_bytes();
    let n = bytes.len();
    let ghost all = out.spec_bytes();
    let mut res: Vec<String> = Vec::new();
    let mut i: usize = 0;
    assert(all.subrange(0, n as int) =~= all);
    while i < n
        invariant
            bytes@ == all,
            n == all.len(),
            i <= n,
            res@.map_values(|x: String| x@) + byte_chunks(all.subrange(i as int, n as int), 1024).map_values(|c: Seq<u8>| lossy_text(c))
                == byte_chunks(all, 1024).map_values(|c: Seq<u8>| lossy_text(c)),
        decreases n - i,
    {
        let end: usize = if n - i <= 1024 { n } else { i + 1024 };
        let mut piece: Vec<u8> = Vec::new();
        let mut k: usize = i;
        while k < end
            invariant
                bytes@ == all,
                i <= k <= end <= n,
                n == all.len(),
                piece@ == all.subrange(i as int, k as int),
            decreases end - k,
        {
            piece.push(bytes[k]);
            assert(piece@ =~= all.subrange(i as int, k + 1));
            k = k + 1;
        }
        let text = lossy_utf8(piece.as_slice());
        let ghost rest = all.subrange(i as int, n as int);
        let ghost before = res@;
        res.push(text);
        proof {
            let f = |c: Seq<u8>| lossy_text(c);
            assert(res@.map_values(|x: String| x@) =~= before.map_values(|x: String| x@).push(lossy_text(all.subrange(i as int, end as int))));
            if n - i <= 1024 {
                assert(rest.subrange(0, rest.len() as int) =~= rest);
                assert(byte_chunks(rest, 1024) == seq![rest]);
                assert(all.subrange(end as int, n as int).len() == 0);
                assert(byte_chunks(all.subrange(end as int, n as int), 1024) =~= Seq::<Seq<u8>>::empty());
                assert(all.subrange(i as int, end as int) =~= rest);
            } else {
                assert(rest.subrange(0, 1024) =~= all.subrange(i as int, end as int));
                assert(rest.subrange(1024, rest.len() as int) =~= all.subrange(end as int, n as int));
            }
            let tail = byte_chunks(all.subrange(end as int, n as int), 1024);
            assert(byte_chunks(rest, 1024) == seq![all.subrange(i as int, end as int)] + tail);
            assert((seq![all.subrange(i as int, end as int)] + tail).map_values(f) =~= seq![lossy_text(all.subrange(i as int, end as int))] + tail.map_values(f));
            assert(res@.map_values(|x: String| x@) + tail.map_values(f) =~= before.map_values(|x: String| x@) + (seq![lossy_text(all.subrange(i as int, end as int))] + tail.map_values(f)));
        }
        i = end;
    }
    proof {
        assert(all.subrange(n as int, n as int).len() == 0);
        assert(byte_chunks(all.subrange(n as int, n as int), 1024) =~= Seq::<Seq<u8>>::empty());
        assert(res@.map_values(|x: String| x@) =~= res@.map_values(|x: String| x@) + Seq::<Seq<char>>::empty());
    }
    res
}

/// The preview of a turn's output: its first line that is not blank, trimmed and cut to
/// 120 characters; `Response completed` where every line is blank.
pub open spec fn preview_of(out: Seq<char>) -> Seq<char> {
    let ls = lines_of(out);
    if exists|i: int| 0 <= i < ls.len() && !is_blank(#[trigger] ls[i]) {
        let i = choose|i: int| 0 <= i < ls.len() && !is_blank(#[trigger] ls[i]) && forall|k: int| 0 <= k < i ==> is_blank(#[trigger] ls[k]);
        let t = trimmed(ls[i]);
        if t.len() <= 120 { t } else { t.subrange(0, 120) }
    } else {
        "Response completed"@
    }
}

/// The preview of a turn's output.
pub fn output_preview(out: &str) -> (r: String)
    ensures
        r@ == preview_of(out@),
{
    let ls = crate::text::lines(out);
    let ghost lv = ls@.map_values(|l: String| l@);
    let mut i: usize = 0;
    while i < ls.len()
        invariant
            lv == ls@.map_values(|l: String| l@),
            lv == lines_of(out@),
            i <= ls@.len(),
            forall|k: int| 0 <= k < i ==> is_blank(#[trigger] lv[k]),
        decreases ls@.len() - i,
    {
        let t = trim(ls[i].as_str());
        let len = t.unicode_len();
        if len > 0 {
            proof {
                assert(0 <= i < lv.len() && !is_blank(lv[i as int]) && forall|k: int| 0 <= k < i ==> is_blank(#[trigger] lv[k]));
                let j = choose|j: int| 0 <= j < lv.len() && !is_blank(#[trigger] lv[j]) && forall|k: int| 0 <= k < j ==> is_blank(#[trigger] lv[k]);
                if j < i {
                    assert(is_blank(lv[j]));
                } else if j > i {
                    assert(is_blank(lv[i as int]));
                }
            }
            if len <= 120 {
                return String::from_str(t);
            } else {
                return String::from_str(t.substring_char(0, 120));
            }
        }
        i = i + 1;
    }
    String::from_str("Response completed")
}

/// The events that end a compatible turn whose invocation printed `out`: a delta per
/// non-empty piece, the completed message, then the completed turn.
pub open spec fn finished_events(thread: Seq<char>, turn: Seq<char>, item: Seq<char>, out: Seq<char>, deltas: Seq<Seq<char>>) -> Seq<JsonValue> {
    deltas.filter(|d: Seq<char>| d.len() > 0).map_values(|d: Seq<char>| delta_event(thread, item, d)) + seq![
        notification(
            "item/completed"@,
            obj2(
                "threadId"@,
                JsonValue::Str(thread),
                "item"@,
                obj4("id"@, JsonValue::Str(item), "type"@, JsonValue::Str("agentMessage"@), "status"@, JsonValue::Str("completed"@), "text"@, JsonValue::Str(out)),
            ),
        ),
        notification(
            "turn/completed"@,
            obj2("threadId"@, JsonValue::Str(thread), "turn"@, obj2("id"@, JsonValue::Str(turn), "threadId"@, JsonValue::Str(thread))),
        ),
    ]
}

pub open spec fn delta_event(thread: Seq<char>, item: Seq<char>, d: Seq<char>) -> JsonValue {
    notification("item/agentMessage/delta"@, crate::event::obj3("threadId"@, JsonValue::Str(thread), "itemId"@, JsonValue::Str(item), "delta"@, JsonValue::Str(d)))
}

/// The error event of a compatible turn that failed.
pub open spec fn turn_error_event(thread: Seq<char>, turn: Seq<char>, message: Seq<char>) -> JsonValue {
    notification(
        "error"@,
        obj4(
            "threadId"@,
            JsonValue::Str(thread),
            "turnId"@,
            JsonValue::Str(turn),
            "error"@,
            obj1("message"@, JsonValue::Str(message)),
            "willRetry"@,
            JsonValue::Bool(false),
        ),
    )
}

/// A compatible-mode turn to run: one terminal invocation of the tool.
#[derive(Debug)]
pub struct CompatLaunch {
    pub thread_id: String,
    pub turn_id: String,
    pub item_id: String,
    pub cli_bin: String,
    pub args: Vec<String>,
    /// Whether the prompt goes to the terminal's input (no argument took it).
    pub use_stdin_prompt: bool,
    pub prompt: String,
    pub cwd: String,
}

/// What the caller of a compatible-mode request must do and answer.
#[derive(Debug)]
pub struct CompatOutcome {
    pub reply: Result<Json, String>,
    /// Events to emit, in order, before the reply is returned.
    pub events: Vec<Json>,
    /// A turn to run in the background.
    pub launch: Option<CompatLaunch>,
    /// A running turn whose interrupt flag must be raised.
    pub interrupt: Option<String>,
}

/// The in-memory state of a compatible session.
pub struct CompatibleSessionState {
    cli_bin: String,
    cli_args: Vec<String>,
    cwd: String,
    threads: Vec<CompatibleThread>,
    next_thread_seq: u64,
    next_turn_seq: u64,
    next_item_seq: u64,
    active_turns: Vec<String>,
}

pub open spec fn seq_id(prefix: Seq<char>, n: u64) -> Seq<char> {
    prefix + decimal(n as nat)
}

/// The thread id named by `threadId`, or else by `thread_id`.
pub open spec fn param_id(params: JsonValue, camel: Seq<char>, snake: Seq<char>) -> Option<Seq<char>> {
    let v = match params.field(camel) {
        Some(t) => Some(t),
        None => params.field(snake),
    };
    match v {
        Some(t) => t.text(),
        None => None,
    }
}

fn param_id_exec<'a>(params: &'a Json, camel: &str, snake: &str) -> (r: Option<&'a str>)
    ensures
        crate::json::opt_str_view(r) == param_id(params@, camel@, snake@),
{
    let v = match params.get(camel) {
        Some(t) => Some(t),
        None => params.get(snake),
    };
    match v {
        Some(t) => t.as_str(),
        None => None,
    }
}

pub open spec fn index_of_id(ts: Seq<CThreadView>, id: Seq<char>) -> Option<int> {
    if exists|i: int| 0 <= i < ts.len() && #[trigger] ts[i].id == id {
        Some(choose|i: int| 0 <= i < ts.len() && #[trigger] ts[i].id == id)
    } else {
        None
    }
}

pub open spec fn events_view(v: Vec<Json>) -> Seq<JsonValue> {
    v@.map_values(|e: Json| e@)
}

pub open spec fn err_of(r: Result<JsonValue, Seq<char>>) -> Option<Seq<char>> {
    match r {
        Ok(_) => None,
        Err(e) => Some(e),
    }
}

/// The parts of the state that only turns and new threads change.
pub open spec fn same_setup(old: CompatibleSessionState, new: CompatibleSessionState) -> bool {
    &&& new.next_turn() == old.next_turn()
    &&& new.next_item() == old.next_item()
    &&& new.cwd_view() == old.cwd_view()
    &&& new.cli_bin_view() == old.cli_bin_view()
    &&& new.cli_args_view() == old.cli_args_view()
    &&& new.active_turns_view() == old.active_turns_view()
}

/// Nothing of the state changed.
pub open spec fn unchanged(old: CompatibleSessionState, new: CompatibleSessionState) -> bool {
    same_setup(old, new) && new.threads_view() == old.threads_view() && new.next_thread() == old.next_thread()
}

/// The id the next new thread takes.
pub open spec fn new_thread_id(st: CompatibleSessionState) -> Seq<char> {
    seq_id("compat-thread-"@, st.next_thread())
}

/// Whether a new thread can be added: its sequence number is not the last, and its id is
/// not taken.
pub open spec fn can_add_thread(st: CompatibleSessionState) -> bool {
    st.next_thread() < u64::MAX && index_of_id(st.threads_view(), new_thread_id(st)) is None
}

/// A new thread of the given name, preview and directory is added where it can be; the
/// reply and one `thread/started` event show it.
pub open spec fn added(
    old: CompatibleSessionState,
    new: CompatibleSessionState,
    r: CompatOutcome,
    name: Seq<char>,
    preview: Seq<char>,
    cwd: Seq<char>,
    now: u64,
) -> bool {
    &&& same_setup(old, new)
    &&& r.launch is None && r.interrupt is None
    &&& if can_add_thread(old) {
        let t = CThreadView { id: new_thread_id(old), name, preview, cwd, created_at: now, updated_at: now, archived: false };
        &&& new.threads_view() == old.threads_view().push(t)
        &&& new.next_thread() == old.next_thread() + 1
        &&& reply_view(r.reply) == Ok::<JsonValue, Seq<char>>(
            obj1("result"@, obj2("threadId"@, JsonValue::Str(t.id), "thread"@, thread_value(t))),
        )
        &&& events_view(r.events) == seq![notification("thread/started"@, obj1("thread"@, thread_value(t)))]
    } else {
        r.reply is Err && new.threads_view() == old.threads_view() && new.next_thread() == old.next_thread()
            && r.events@.len() == 0
    }
}

/// `thread/start`: a thread named `New Agent` in the session's directory.
pub open spec fn thread_start_outcome(old: CompatibleSessionState, new: CompatibleSessionState, r: CompatOutcome, now: u64) -> bool {
    added(old, new, r, "New Agent"@, Seq::empty(), old.cwd_view(), now)
}

/// A failed request that changed nothing.
pub open spec fn failed_with(old: CompatibleSessionState, new: CompatibleSessionState, r: CompatOutcome, msg: Seq<char>) -> bool {
    unchanged(old, new) && reply_err(r.reply) == Some(msg) && r.events@.len() == 0 && r.launch is None
        && r.interrupt is None
}

/// `thread/fork`: a copy of the source thread, its name with " (fork)" appended.
pub open spec fn fork_outcome(old: CompatibleSessionState, new: CompatibleSessionState, params: JsonValue, r: CompatOutcome, now: u64) -> bool {
    match param_id(params, "threadId"@, "thread_id"@) {
        None => failed_with(old, new, r, "threadId is required"@),
        Some(t) => match index_of_id(old.threads_view(), t) {
            None => failed_with(old, new, r, "thread not found"@),
            Some(i) => added(
                old,
                new,
                r,
                old.threads_view()[i].name + " (fork)"@,
                old.threads_view()[i].preview,
                old.threads_view()[i].cwd,
                now,
            ),
        },
    }
}

/// `thread/list`: the page that the parameters ask for of the threads not archived, in
/// listing order.
pub open spec fn list_reply(st: CompatibleSessionState, params: JsonValue, reply: JsonValue) -> bool {
    exists|s: Seq<CThreadView>| sorted_by(s, list_by_created(params)) && distinct_ids(s)
        && same_active(s, st.threads_view())
        && reply == page_json(s, list_cursor(params), list_limit(params))
}

/// `thread/resume`: the thread named in the parameters, where it exists.
pub open spec fn resume_reply(st: CompatibleSessionState, params: JsonValue, r: Result<JsonValue, Seq<char>>) -> bool {
    match param_id(params, "threadId"@, "thread_id"@) {
        None => r == Err::<JsonValue, Seq<char>>("threadId is required"@),
        Some(t) => match index_of_id(st.threads_view(), t) {
            None => r == Err::<JsonValue, Seq<char>>("thread not found"@),
            Some(i) => r == Ok::<JsonValue, Seq<char>>(
                obj1("result"@, obj2("threadId"@, JsonValue::Str(t), "thread"@, thread_value(st.threads_view()[i]))),
            ),
        },
    }
}

/// `thread/archive`: the thread named in the parameters is marked archived.
pub open spec fn archive_outcome(old: CompatibleSessionState, new: CompatibleSessionState, params: JsonValue, r: Result<JsonValue, Seq<char>>) -> bool {
    &&& same_setup(old, new)
    &&& new.next_thread() == old.next_thread()
    &&& match param_id(params, "threadId"@, "thread_id"@) {
        None => err_of(r) == Some("threadId is required"@) && new.threads_view() == old.threads_view(),
        Some(t) => r == Ok::<JsonValue, Seq<char>>(ok_result()) && match index_of_id(old.threads_view(), t) {
            None => new.threads_view() == old.threads_view(),
            Some(i) => new.threads_view() == old.threads_view().update(i, CThreadView { archived: true, ..old.threads_view()[i] }),
        },
    }
}

/// `thread/name/set`: the thread named in the parameters takes the trimmed name.
pub open spec fn name_set_outcome(old: CompatibleSessionState, new: CompatibleSessionState, params: JsonValue, r: CompatOutcome, now: u64) -> bool {
    &&& same_setup(old, new)
    &&& new.next_thread() == old.next_thread()
    &&& r.launch is None && r.interrupt is None
    &&& match (param_id(params, "threadId"@, "thread_id"@), params.str_field("name"@)) {
        (None, _) => reply_err(r.reply) == Some("threadId is required"@) && new.threads_view() == old.threads_view(),
        (Some(_), None) => reply_err(r.reply) == Some("name is required"@) && new.threads_view() == old.threads_view(),
        (Some(t), Some(n)) => if is_blank(n) {
            reply_err(r.reply) == Some("name is required"@) && new.threads_view() == old.threads_view()
        } else {
            r.reply is Ok && r.reply->Ok_0@ == ok_result() && r.events@.len() == 1
                && r.events@[0]@ == notification("thread/name/updated"@, obj2("threadId"@, JsonValue::Str(t), "threadName"@, JsonValue::Str(trimmed(n))))
                && match index_of_id(old.threads_view(), t) {
                None => new.threads_view() == old.threads_view(),
                Some(i) => new.threads_view() == old.threads_view().update(i, CThreadView { name: trimmed(n), updated_at: now, ..old.threads_view()[i] }),
            }
        },
    }
}

/// `turn/start`: the turn's ids, its two opening events, and the invocation to run.
pub open spec fn turn_start_outcome(old: CompatibleSessionState, new: CompatibleSessionState, params: JsonValue, r: CompatOutcome) -> bool {
    match param_id(params, "threadId"@, "thread_id"@) {
        None => failed_with(old, new, r, "threadId is required"@),
        Some(t) => match user_prompt(params) {
            None => failed_with(old, new, r, "No text input provided for compatible CLI turn"@),
            Some(prompt) => match index_of_id(old.threads_view(), t) {
                None => failed_with(old, new, r, "thread not found"@),
                Some(_) => if old.next_turn() < u64::MAX && old.next_item() < u64::MAX {
                    let turn = seq_id("compat-turn-"@, old.next_turn());
                    let item = seq_id("compat-item-"@, old.next_item());
                    let turn_value = obj2("id"@, JsonValue::Str(turn), "threadId"@, JsonValue::Str(t));
                    &&& new.threads_view() == old.threads_view()
                    &&& new.next_thread() == old.next_thread()
                    &&& new.next_turn() == old.next_turn() + 1
                    &&& new.next_item() == old.next_item() + 1
                    &&& new.cwd_view() == old.cwd_view()
                    &&& new.cli_bin_view() == old.cli_bin_view()
                    &&& new.cli_args_view() == old.cli_args_view()
                    &&& new.active_turns_view() == old.active_turns_view().push(turn)
                    &&& reply_view(r.reply) == Ok::<JsonValue, Seq<char>>(obj1("result"@, obj1("turn"@, turn_value)))
                    &&& events_view(r.events) == seq![
                        notification("turn/started"@, obj2("threadId"@, JsonValue::Str(t), "turn"@, turn_value)),
                        notification(
                            "item/started"@,
                            obj2(
                                "threadId"@,
                                JsonValue::Str(t),
                                "item"@,
                                crate::event::obj3(
                                    "id"@,
                                    JsonValue::Str(item),
                                    "type"@,
                                    JsonValue::Str("agentMessage"@),
                                    "status"@,
                                    JsonValue::Str("inProgress"@),
                                ),
                            ),
                        ),
                    ]
                    &&& r.interrupt is None
                    &&& r.launch is Some
                    &&& r.launch->Some_0.thread_id@ == t
                    &&& r.launch->Some_0.turn_id@ == turn
                    &&& r.launch->Some_0.item_id@ == item
                    &&& r.launch->Some_0.cli_bin@ == old.cli_bin_view()
                    &&& r.launch->Some_0.args@.map_values(|a: String| a@) == crate::rpc::templated_args(old.cli_args_view(), prompt)
                    &&& r.launch->Some_0.use_stdin_prompt == !crate::rpc::has_placeholder(old.cli_args_view())
                    &&& r.launch->Some_0.prompt@ == prompt
                    &&& r.launch->Some_0.cwd@ == old.cwd_view()
                } else {
                    failed_with(old, new, r, "turn sequence exhausted"@)
                },
            },
        },
    }
}

/// In the compatible session, an archived thread is left out of every listing but can still
/// be resumed: its id still names it.
pub proof fn lemma_compat_archive_hides_but_keeps(ts: Seq<CThreadView>, i: int, s: Seq<CThreadView>)
    requires
        distinct_ids(ts),
        0 <= i < ts.len(),
        same_active(s, ts.update(i, CThreadView { archived: true, ..ts[i] })),
    ensures
        forall|j: int| 0 <= j < s.len() ==> #[trigger] s[j].id != ts[i].id,
        index_of_id(ts.update(i, CThreadView { archived: true, ..ts[i] }), ts[i].id) == Some(i),
{
    let u = ts.update(i, CThreadView { archived: true, ..ts[i] });
    assert forall|j: int| 0 <= j < s.len() implies #[trigger] s[j].id != ts[i].id by {
        assert(active_in(u, u.len() as int, s[j]));
        let k = choose|k: int| 0 <= k < u.len() && !u[k].archived && u[k] == s[j];
        if k != i {
            assert(u[k].id == ts[k].id);
        }
    }
    assert(u[i].id == ts[i].id);
    let c = choose|c: int| 0 <= c < u.len() && #[trigger] u[c].id == ts[i].id;
    if c != i {
        assert(u[c].id == ts[c].id);
    }
}

/// `turn/interrupt`: the named turn's flag is to be raised where it runs.
pub open spec fn interrupt_outcome(st: CompatibleSessionState, params: JsonValue, r: CompatOutcome) -> bool {
    &&& r.launch is None && r.events@.len() == 0
    &&& match param_id(params, "turnId"@, "turn_id"@) {
        None => reply_err(r.reply) == Some("turnId is required"@) && r.interrupt is None,
        Some(t) => reply_view(r.reply) == Ok::<JsonValue, Seq<char>>(ok_result())
            && (r.interrupt is Some <==> st.active_turns_view().contains(t))
            && (r.interrupt is Some ==> r.interrupt->Some_0@ == t),
    }
}

impl CompatibleSessionState {
    pub closed spec fn wf(&self) -> bool {
        distinct_ids(views(self.threads@))
    }

    /// The session's threads, in creation order.
    pub closed spec fn threads_view(&self) -> Seq<CThreadView> {
        views(self.threads@)
    }

    pub closed spec fn next_thread(&self) -> u64 {
        self.next_thread_seq
    }

    pub closed spec fn cwd_view(&self) -> Seq<char> {
        self.cwd@
    }

    pub closed spec fn next_turn(&self) -> u64 {
        self.next_turn_seq
    }

    pub closed spec fn next_item(&self) -> u64 {
        self.next_item_seq
    }

    pub closed spec fn cli_bin_view(&self) -> Seq<char> {
        self.cli_bin@
    }

    pub closed spec fn cli_args_view(&self) -> Seq<Seq<char>> {
        self.cli_args@.map_values(|a: String| a@)
    }

    /// The turns that run and may be interrupted.
    pub closed spec fn active_turns_view(&self) -> Seq<Seq<char>> {
        self.active_turns@.map_values(|t: String| t@)
    }

    /// A session with no threads, to run `cli_bin` with `cli_args` in `cwd`.
    pub fn new(cli_bin: String, cli_args: Vec<String>, cwd: String) -> (r: CompatibleSessionState)
        ensures
            r.wf(),
            r.threads_view() == Seq::<CThreadView>::empty(),
            r.next_thread() == 1,
            r.cwd_view() == cwd@,
    {
        let r = CompatibleSessionState {
            cli_bin,
            cli_args,
            cwd,
            threads: Vec::new(),
            next_thread_seq: 1,
            next_turn_seq: 1,
            next_item_seq: 1,
            active_turns: Vec::new(),
        };
        assert(views(r.threads@) =~= Seq::<CThreadView>::empty());
        r
    }

    fn find(&self, id: &str) -> (r: Option<usize>)
        requires
            self.wf(),
        ensures
            match r {
                Some(i) => i < self.threads@.len() && self.threads_view()[i as int].id == id@
                    && index_of_id(self.threads_view(), id@) == Some(i as int),
                None => index_of_id(self.threads_view(), id@) is None,
            },
    {
        let mut i: usize = 0;
        while i < self.threads.len()
            invariant
                self.wf(),
                i <= self.threads@.len(),
                forall|k: int| 0 <= k < i ==> #[trigger] self.threads_view()[k].id != id@,
            decreases self.threads@.len() - i,
        {
            if str_eq(self.threads[i].id.as_str(), id) {
                proof {
                    assert(self.threads_view()[i as int] == self.threads@[i as int]@);
                    assert(self.threads_view()[i as int].id == id@);
                    let j = choose|j: int| 0 <= j < self.threads_view().len() && #[trigger] self.threads_view()[j].id == id@;
                    if j != i {
                        assert(self.threads_view()[j].id != self.threads_view()[i as int].id);
                    }
                }
                return Some(i);
            }
            i = i + 1;
        }
        None
    }

    /// Appends a new thread, named as a new one or as a copy of `source`.
    fn add_thread(&mut self, name: String, preview: String, cwd: String, now: u64) -> (r: Result<usize, String>)
        requires
            old(self).wf(),
        ensures
            final(self).wf(),
            match r {
                Ok(i) => i == old(self).threads_view().len() && i < final(self).threads@.len() && old(self).next_thread() < u64::MAX
                    && final(self).next_thread() == old(self).next_thread() + 1
                    && final(self).threads_view() == old(self).threads_view().push(CThreadView {
                        id: seq_id("compat-thread-"@, old(self).next_thread()),
                        name: name@,
                        preview: preview@,
                        cwd: cwd@,
                        created_at: now,
                        updated_at: now,
                        archived: false,
                    }),
                Err(_) => final(self).threads_view() == old(self).threads_view() && final(self).next_thread() == old(self).next_thread(),
            },
            (r is Ok) == can_add_thread(*old(self)),
            same_setup(*old(self), *final(self)),
    {
        if self.next_thread_seq == u64::MAX {
            return Err(String::from_str("thread sequence exhausted"));
        }
        let id = String::from_str("compat-thread-").concat(u64_to_decimal(self.next_thread_seq).as_str());
        if self.find(id.as_str()).is_some() {
            return Err(String::from_str("thread id already in use"));
        }
        self.next_thread_seq = self.next_thread_seq + 1;
        let ghost before = views(self.threads@);
        let t = CompatibleThread { id, name, preview, cwd, created_at: now, updated_at: now, archived: false };
        let ghost tv = t@;
        self.threads.push(t);
        proof {
            let nv = views(self.threads@);
            assert(nv =~= before.push(tv));
            assert forall|a: int, b: int| 0 <= a < nv.len() && 0 <= b < nv.len() && a != b implies #[trigger] nv[a].id != #[trigger] nv[b].id by {
                if a < before.len() && b < before.len() {
                    assert(nv[a] == before[a] && nv[b] == before[b]);
                } else if a < before.len() {
                    assert(nv[a] == before[a]);
                } else {
                    assert(nv[b] == before[b]);
                }
            }
        }
        Ok(self.threads.len() - 1)
    }

    fn thread_started_reply(&self, i: usize) -> (r: (Json, Json))
        requires
            i < self.threads@.len(),
        ensures
            r.0@ == obj1("result"@, obj2("threadId"@, JsonValue::Str(self.threads_view()[i as int].id), "thread"@, thread_value(self.threads_view()[i as int]))),
            r.1@ == notification("thread/started"@, obj1("thread"@, thread_value(self.threads_view()[i as int]))),
    {
        let t = &self.threads[i];
        let reply = object1("result", object2("threadId", Json::text(t.id.as_str()), "thread", build_compatible_thread_value(t)));
        let ev = notification_event("thread/started", object1("thread", build_compatible_thread_value(t)));
        (reply, ev)
    }

    /// Opens a new thread.
    pub fn thread_start(&mut self, now: u64) -> (r: CompatOutcome)
        requires
            old(self).wf(),
        ensures
            final(self).wf(),
            thread_start_outcome(*old(self), *final(self), r, now),
    {
        let cwd = self.cwd.clone();
        self.add_thread_outcome(String::from_str("New Agent"), String::new(), cwd, now)
    }

    fn add_thread_outcome(&mut self, name: String, preview: String, cwd: String, now: u64) -> (r: CompatOutcome)
        requires
            old(self).wf(),
        ensures
            final(self).wf(),
            added(*old(self), *final(self), r, name@, preview@, cwd@, now),
    {
        match self.add_thread(name, preview, cwd, now) {
            Ok(i) => {
                let (reply, ev) = self.thread_started_reply(i);
                let mut events: Vec<Json> = Vec::new();
                events.push(ev);
                assert(events_view(events) =~= seq![ev@]);
                CompatOutcome { reply: Ok(reply), events, launch: None, interrupt: None }
            },
            Err(e) => CompatOutcome { reply: Err(e), events: Vec::new(), launch: None, interrupt: None },
        }
    }

    /// A page of the threads that are not archived, newest first by `sortKey`.
    pub fn thread_list(&self, params: &Json) -> (r: Json)
        requires
            self.wf(),
        ensures
            list_reply(*self, params@, r@),
    {
        let by_created = match params.str_field("sortKey") {
            Some(k) => str_eq(k, "created_at"),
            None => false,
        };
        let sorted = sorted_active_threads(&self.threads, by_created);
        let cursor = cursor_param(params);
        let limit = limit_param(params);
        let total = sorted.len();
        let start = if cursor < total { cursor } else { total };
        let end = if limit <= total - start { start + limit } else { total };
        let ghost sv = views(sorted@);
        let mut page: Vec<Json> = Vec::new();
        let mut i: usize = start;
        while i < end
            invariant
                sv == views(sorted@),
                start <= i <= end <= sorted@.len(),
                items_view(page@) == sv.subrange(start as int, i as int).map_values(|t: CThreadView| thread_value(t)),
            decreases end - i,
        {
            let ghost before = page@;
            page.push(build_compatible_thread_value(&sorted[i]));
            assert(sv.subrange(start as int, i + 1) =~= sv.subrange(start as int, i as int).push(sv[i as int]));
            assert(items_view(page@) =~= items_view(before).push(thread_value(sv[i as int])));
            i = i + 1;
        }
        let shown = end - start;
        let next = if cursor < total && cursor + shown < total {
            Json::Number(u64_to_decimal((cursor + shown) as u64))
        } else {
            Json::Null
        };
        let next = match next {
            Json::Number(t) => Json::Str(t),
            other => other,
        };
        object1("result", object2("data", Json::array(page), "nextCursor", next))
    }

    /// Opens an existing thread.
    pub fn thread_resume(&self, params: &Json) -> (r: Result<Json, String>)
        requires
            self.wf(),
        ensures
            resume_reply(*self, params@, reply_view(r)),
    {
        let id = match param_id_exec(params, "threadId", "thread_id") {
            Some(t) => t,
            None => return Err(String::from_str("threadId is required")),
        };
        match self.find(id) {
            Some(i) => Ok(object1("result", object2("threadId", Json::text(id), "thread", build_compatible_thread_value(&self.threads[i])))),
            None => Err(String::from_str("thread not found")),
        }
    }

    /// Copies a thread into a new thread: its name with " (fork)" appended, its preview and
    /// its directory.
    pub fn thread_fork(&mut self, params: &Json, now: u64) -> (r: CompatOutcome)
        requires
            old(self).wf(),
        ensures
            final(self).wf(),
            fork_outcome(*old(self), *final(self), params@, r, now),
    {
        let id = match param_id_exec(params, "threadId", "thread_id") {
            Some(t) => t,
            None => return failed("threadId is required"),
        };
        let src = match self.find(id) {
            Some(i) => i,
            None => return failed("thread not found"),
        };
        let name = self.threads[src].name.clone().concat(" (fork)");
        let preview = self.threads[src].preview.clone();
        let cwd = self.threads[src].cwd.clone();
        self.add_thread_outcome(name, preview, cwd, now)
    }

    fn set_thread(&mut self, i: usize, t: CompatibleThread)
        requires
            old(self).wf(),
            i < old(self).threads@.len(),
            t@.id == old(self).threads_view()[i as int].id,
        ensures
            final(self).wf(),
            final(self).threads_view() == old(self).threads_view().update(i as int, t@),
            final(self).next_thread() == old(self).next_thread(),
            same_setup(*old(self), *final(self)),
    {
        let ghost tv = t@;
        self.threads.set(i, t);
        proof {
            let nv = views(self.threads@);
            assert(nv =~= old(self).threads_view().update(i as int, tv));
            assert forall|a: int, b: int| 0 <= a < nv.len() && 0 <= b < nv.len() && a != b implies #[trigger] nv[a].id != #[trigger] nv[b].id by {
                assert(nv[a].id == old(self).threads_view()[a].id);
                assert(nv[b].id == old(self).threads_view()[b].id);
            }
        }
    }

    /// Archives a thread; an unknown id changes nothing.
    pub fn thread_archive(&mut self, params: &Json) -> (r: Result<Json, String>)
        requires
            old(self).wf(),
        ensures
            final(self).wf(),
            same_setup(*old(self), *final(self)),
            final(self).next_thread() == old(self).next_thread(),
            archive_outcome(*old(self), *final(self), params@, reply_view(r)),
    {
        let id = match param_id_exec(params, "threadId", "thread_id") {
            Some(t) => t,
            None => return Err(String::from_str("threadId is required")),
        };
        if let Some(i) = self.find(id) {
            let mut t = self.threads[i].copy();
            t.archived = true;
            self.set_thread(i, t);
        }
        Ok(ok_json())
    }

    /// Renames a thread to the trimmed `name`, which must not be blank.
    pub fn thread_name_set(&mut self, params: &Json, now: u64) -> (r: CompatOutcome)
        requires
            old(self).wf(),
        ensures
            final(self).wf(),
            same_setup(*old(self), *final(self)),
            final(self).next_thread() == old(self).next_thread(),
            r.launch is None && r.interrupt is None,
            name_set_outcome(*old(self), *final(self), params@, r, now),
    {
        let id = match param_id_exec(params, "threadId", "thread_id") {
            Some(t) => t,
            None => return CompatOutcome { reply: Err(String::from_str("threadId is required")), events: Vec::new(), launch: None, interrupt: None },
        };
        let name = match params.str_field("name") {
            Some(n) => trim(n),
            None => return CompatOutcome { reply: Err(String::from_str("name is required")), events: Vec::new(), launch: None, interrupt: None },
        };
        if name.unicode_len() == 0 {
            return CompatOutcome { reply: Err(String::from_str("name is required")), events: Vec::new(), launch: None, interrupt: None };
        }
        if let Some(i) = self.find(id) {
            let mut t = self.threads[i].copy();
            t.name = String::from_str(name);
            t.updated_at = now;
            self.set_thread(i, t);
        }
        let mut events: Vec<Json> = Vec::new();
        events.push(notification_event("thread/name/updated", object2("threadId", Json::text(id), "threadName", Json::text(name))));
        CompatOutcome { reply: Ok(ok_json()), events, launch: None, interrupt: None }
    }
}

/// The reply `{"result": {"ok": true}}`.
pub open spec fn ok_result() -> JsonValue {
    obj1("result"@, obj1("ok"@, JsonValue::Bool(true)))
}

fn ok_json() -> (r: Json)
    ensures
        r@ == ok_result(),
{
    object1("result", object1("ok", Json::Bool(true)))
}

pub open spec fn reply_err(r: Result<Json, String>) -> Option<Seq<char>> {
    match r {
        Ok(_) => None,
        Err(e) => Some(e@),
    }
}

/// Whether a listing sorts by creation time (else by update time).
pub open spec fn list_by_created(params: JsonValue) -> bool {
    params.str_field("sortKey"@) == Some("created_at"@)
}

/// Where a listing page starts: the `cursor` text as a number, else 0.
pub open spec fn list_cursor(params: JsonValue) -> nat {
    match params.str_field("cursor"@) {
        Some(t) => if is_numeral(t) && digits_value(t) <= usize::MAX {
            digits_value(t)
        } else {
            0
        },
        None => 0,
    }
}

/// How many threads a listing page holds: `limit` (at least 1), else 20.
pub open spec fn list_limit(params: JsonValue) -> nat {
    match params.field("limit"@) {
        Some(JsonValue::Number(t)) => if is_numeral(t) && digits_value(t) <= u64::MAX {
            if digits_value(t) == 0 { 1 } else { (digits_value(t) as u64) as usize as nat }
        } else {
            20
        },
        _ => 20,
    }
}

/// The page of `s` from `cursor`, of at most `limit` threads, with the cursor of the next
/// page where one follows.
pub open spec fn page_json(s: Seq<CThreadView>, cursor: nat, limit: nat) -> JsonValue {
    let start = if cursor < s.len() { cursor as int } else { s.len() as int };
    let end = if limit <= s.len() - start { start + limit } else { s.len() as int };
    obj1(
        "result"@,
        obj2(
            "data"@,
            JsonValue::Array(s.subrange(start, end).map_values(|t: CThreadView| thread_value(t))),
            "nextCursor"@,
            if cursor < s.len() && end < s.len() {
                JsonValue::Str(decimal(end as nat))
            } else {
                JsonValue::Null
            },
        ),
    )
}

fn cursor_param(params: &Json) -> (r: usize)
    ensures
        r as nat == list_cursor(params@),
{
    match params.str_field("cursor") {
        Some(t) => match parse_u64(t) {
            Some(v) => if v <= usize::MAX as u64 {
                v as usize
            } else {
                0
            },
            None => 0,
        },
        None => 0,
    }
}

fn limit_param(params: &Json) -> (r: usize)
    ensures
        r as nat == list_limit(params@),
        r >= 1 || list_limit(params@) == 0,
{
    match params.get("limit") {
        Some(Json::Number(t)) => match parse_u64(t.as_str()) {
            Some(v) => if v == 0 {
                1
            } else {
                v as usize
            },
            None => 20,
        },
        _ => 20,
    }
}

/// The request methods that the compatible session knows.
#[derive(Clone, Copy, Debug, PartialEq, Eq, Structural)]
pub enum CompatMethod {
    ThreadStart,
    ThreadList,
    ThreadResume,
    ThreadFork,
    ThreadArchive,
    ThreadNameSet,
    TurnStart,
    TurnInterrupt,
    EmptyList,
    AccountRead,
    AccountRateLimitsRead,
    Unknown,
}

/// Which method of the compatible surface a method name names.
pub open spec fn compat_kind(m: Seq<char>) -> CompatMethod {
    if m == "thread/start"@ {
        CompatMethod::ThreadStart
    } else if m == "thread/list"@ {
        CompatMethod::ThreadList
    } else if m == "thread/resume"@ {
        CompatMethod::ThreadResume
    } else if m == "thread/fork"@ {
        CompatMethod::ThreadFork
    } else if m == "thread/archive"@ {
        CompatMethod::ThreadArchive
    } else if m == "thread/name/set"@ {
        CompatMethod::ThreadNameSet
    } else if m == "turn/start"@ {
        CompatMethod::TurnStart
    } else if m == "turn/interrupt"@ {
        CompatMethod::TurnInterrupt
    } else if m == "model/list"@ || m == "skills/list"@ || m == "app/list"@ || m == "mcpServerStatus/list"@
        || m == "collaborationMode/list"@ {
        CompatMethod::EmptyList
    } else if m == "account/read"@ {
        CompatMethod::AccountRead
    } else if m == "account/rateLimits/read"@ {
        CompatMethod::AccountRateLimitsRead
    } else {
        CompatMethod::Unknown
    }
}

pub fn classify_compat_method(m: &str) -> (r: CompatMethod)
    ensures
        r == compat_kind(m@),
{
    if str_eq(m, "thread/start") {
        CompatMethod::ThreadStart
    } else if str_eq(m, "thread/list") {
        CompatMethod::ThreadList
    } else if str_eq(m, "thread/resume") {
        CompatMethod::ThreadResume
    } else if str_eq(m, "thread/fork") {
        CompatMethod::ThreadFork
    } else if str_eq(m, "thread/archive") {
        CompatMethod::ThreadArchive
    } else if str_eq(m, "thread/name/set") {
        CompatMethod::ThreadNameSet
    } else if str_eq(m, "turn/start") {
        CompatMethod::TurnStart
    } else if str_eq(m, "turn/interrupt") {
        CompatMethod::TurnInterrupt
    } else if str_eq(m, "model/list") || str_eq(m, "skills/list") || str_eq(m, "app/list") || str_eq(
        m,
        "mcpServerStatus/list",
    ) || str_eq(m, "collaborationMode/list") {
        CompatMethod::EmptyList
    } else if str_eq(m, "account/read") {
        CompatMethod::AccountRead
    } else if str_eq(m, "account/rateLimits/read") {
        CompatMethod::AccountRateLimitsRead
    } else {
        CompatMethod::Unknown
    }
}

/// The error for a method that the compatible session does not offer.
pub open spec fn compat_unavailable(m: Seq<char>) -> Seq<char> {
    "Method `"@ + m + "` is not available in compatible CLI mode."@
}

/// The fixed reply of the compatible session to the methods that have one.
pub open spec fn compat_static(k: CompatMethod) -> Option<Result<JsonValue, Seq<char>>> {
    match k {
        CompatMethod::EmptyList => Some(Ok(obj1("result"@, obj1("data"@, JsonValue::Array(Seq::empty()))))),
        CompatMethod::AccountRead => Some(Ok(obj1("result"@, obj1("authMode"@, JsonValue::Str("unknown"@))))),
        CompatMethod::AccountRateLimitsRead => Some(Ok(obj1("result"@, empty_obj()))),
        _ => None,
    }
}

pub open spec fn reply_view(r: Result<Json, String>) -> Result<JsonValue, Seq<char>> {
    match r {
        Ok(j) => Ok(j@),
        Err(e) => Err(e@),
    }
}

fn compat_static_reply(k: CompatMethod) -> (r: Option<Result<Json, String>>)
    ensures
        match r {
            Some(x) => compat_static(k) == Some(reply_view(x)),
            None => compat_static(k) is None,
        },
{
    match k {
        CompatMethod::EmptyList => {
            let items: Vec<Json> = Vec::new();
            let a = Json::array(items);
            assert(items_view(items@) =~= Seq::<JsonValue>::empty());
            Some(Ok(object1("result", object1("data", a))))
        },
        CompatMethod::AccountRead => Some(Ok(object1("result", object1("authMode", Json::text("unknown"))))),
        CompatMethod::AccountRateLimitsRead => Some(Ok(object1("result", empty_object()))),
        _ => None,
    }
}

fn failed(msg: &str) -> (r: CompatOutcome)
    ensures
        reply_err(r.reply) == Some(msg@),
        r.events@.len() == 0,
        r.launch is None,
        r.interrupt is None,
{
    CompatOutcome { reply: Err(String::from_str(msg)), events: Vec::new(), launch: None, interrupt: None }
}

impl CompatibleSessionState {
    /// Starts a turn of a thread: its events, and the invocation to run.
    pub fn turn_start(&mut self, params: &Json) -> (r: CompatOutcome)
        requires
            old(self).wf(),
        ensures
            final(self).wf(),
            turn_start_outcome(*old(self), *final(self), params@, r),
    {
        let thread_id = match param_id_exec(params, "threadId", "thread_id") {
            Some(t) => t,
            None => return failed("threadId is required"),
        };
        let prompt = match extract_user_text_from_turn_input(params) {
            Some(p) => p,
            None => return failed("No text input provided for compatible CLI turn"),
        };
        if self.find(thread_id).is_none() {
            return failed("thread not found");
        }
        if self.next_turn_seq == u64::MAX || self.next_item_seq == u64::MAX {
            return failed("turn sequence exhausted");
        }
        let turn_id = String::from_str("compat-turn-").concat(u64_to_decimal(self.next_turn_seq).as_str());
        self.next_turn_seq = self.next_turn_seq + 1;
        let item_id = String::from_str("compat-item-").concat(u64_to_decimal(self.next_item_seq).as_str());
        self.next_item_seq = self.next_item_seq + 1;
        let ghost before = self.active_turns@;
        self.active_turns.push(turn_id.clone());
        assert(self.active_turns@.map_values(|t: String| t@) =~= before.map_values(|t: String| t@).push(turn_id@));
        let mut events: Vec<Json> = Vec::new();
        let turn_value = object2("id", Json::text(turn_id.as_str()), "threadId", Json::text(thread_id));
        events.push(notification_event("turn/started", object2("threadId", Json::text(thread_id), "turn", turn_value)));
        let item = crate::event::object3("id", Json::text(item_id.as_str()), "type", Json::text("agentMessage"), "status", Json::text("inProgress"));
        events.push(notification_event("item/started", object2("threadId", Json::text(thread_id), "item", item)));
        let (args, use_stdin_prompt) = crate::rpc::build_compatible_cli_invocation(&self.cli_args, prompt.as_str());
        assert(events_view(events) =~= seq![events@[0]@, events@[1]@]);
        let reply = object1("result", object1("turn", object2("id", Json::text(turn_id.as_str()), "threadId", Json::text(thread_id))));
        let launch = CompatLaunch {
            thread_id: String::from_str(thread_id),
            turn_id,
            item_id,
            cli_bin: self.cli_bin.clone(),
            args,
            use_stdin_prompt,
            prompt,
            cwd: self.cwd.clone(),
        };
        CompatOutcome { reply: Ok(reply), events, launch: Some(launch), interrupt: None }
    }

    fn active_turn_index(&self, turn_id: &str) -> (r: Option<usize>)
        ensures
            match r {
                Some(i) => i < self.active_turns@.len() && self.active_turns_view()[i as int] == turn_id@,
                None => !self.active_turns_view().contains(turn_id@),
            },
    {
        let mut i: usize = 0;
        while i < self.active_turns.len()
            invariant
                i <= self.active_turns@.len(),
                forall|k: int| 0 <= k < i ==> #[trigger] self.active_turns_view()[k] != turn_id@,
            decreases self.active_turns@.len() - i,
        {
            if str_eq(self.active_turns[i].as_str(), turn_id) {
                return Some(i);
            }
            i = i + 1;
        }
        None
    }

    /// Asks a running turn to stop: its interrupt flag is to be raised.
    pub fn turn_interrupt(&self, params: &Json) -> (r: CompatOutcome)
        ensures
            interrupt_outcome(*self, params@, r),
    {
        let turn_id = match param_id_exec(params, "turnId", "turn_id") {
            Some(t) => t,
            None => return failed("turnId is required"),
        };
        let interrupt = match self.active_turn_index(turn_id) {
            Some(_) => Some(String::from_str(turn_id)),
            None => None,
        };
        CompatOutcome { reply: Ok(ok_json()), events: Vec::new(), launch: None, interrupt }
    }

    /// Ends a turn: its output's events, or its error event; a successful turn's thread takes
    /// the output's preview.
    pub fn turn_finished(&mut self, thread_id: &str, turn_id: &str, item_id: &str, output: Result<&str, &str>, now: u64) -> (r: Vec<Json>)
        requires
            old(self).wf(),
        ensures
            final(self).wf(),
            match output {
                Ok(out) => r@.map_values(|e: Json| e@) == finished_events(thread_id@, turn_id@, item_id@, out@, output_deltas(out))
                    && match index_of_id(old(self).threads_view(), thread_id@) {
                        None => final(self).threads_view() == old(self).threads_view(),
                        Some(i) => final(self).threads_view() == old(self).threads_view().update(i, CThreadView { updated_at: now, preview: preview_of(out@), ..old(self).threads_view()[i] }),
                    },
                Err(e) => r@.map_values(|x: Json| x@) == seq![turn_error_event(thread_id@, turn_id@, e@)]
                    && final(self).threads_view() == old(self).threads_view(),
            },
    {
        if let Some(i) = self.active_turn_index(turn_id) {
            self.active_turns.remove(i);
        }
        match output {
            Ok(out) => {
                let deltas = chunk_output(out);
                let ghost dv = deltas@.map_values(|x: String| x@);
                let mut events: Vec<Json> = Vec::new();
                let mut k: usize = 0;
                assert(dv.subrange(0, 0).filter(|d: Seq<char>| d.len() > 0) =~= Seq::<Seq<char>>::empty()) by {
                    reveal(Seq::filter);
                }
                while k < deltas.len()
                    invariant
                        dv == deltas@.map_values(|x: String| x@),
                        k <= deltas@.len(),
                        events@.map_values(|e: Json| e@) == dv.subrange(0, k as int).filter(|d: Seq<char>| d.len() > 0).map_values(|d: Seq<char>| delta_event(thread_id@, item_id@, d)),
                    decreases deltas@.len() - k,
                {
                    let ghost before = events@;
                    assert(dv.subrange(0, k + 1).drop_last() =~= dv.subrange(0, k as int));
                    proof {
                        reveal(Seq::filter);
                    }
                    if deltas[k].as_str().unicode_len() > 0 {
                        let ev = notification_event(
                            "item/agentMessage/delta",
                            crate::event::object3("threadId", Json::text(thread_id), "itemId", Json::text(item_id), "delta", Json::text(deltas[k].as_str())),
                        );
                        events.push(ev);
                        assert(events@.map_values(|e: Json| e@) =~= before.map_values(|e: Json| e@).push(delta_event(thread_id@, item_id@, dv[k as int])));
                        assert(dv.subrange(0, k + 1).filter(|d: Seq<char>| d.len() > 0) == dv.subrange(0, k as int).filter(|d: Seq<char>| d.len() > 0).push(dv[k as int]));
                    }
                    k = k + 1;
                }
                assert(dv.subrange(0, k as int) =~= dv);
                let ghost mid = events@;
                let item = object4("id", Json::text(item_id), "type", Json::text("agentMessage"), "status", Json::text("completed"), "text", Json::text(out));
                events.push(notification_event("item/completed", object2("threadId", Json::text(thread_id), "item", item)));
                let turn = object2("id", Json::text(turn_id), "threadId", Json::text(thread_id));
                events.push(notification_event("turn/completed", object2("threadId", Json::text(thread_id), "turn", turn)));
                assert(events@.map_values(|e: Json| e@) =~= finished_events(thread_id@, turn_id@, item_id@, out@, output_deltas(out)));
                if let Some(i) = self.find(thread_id) {
                    let mut t = self.threads[i].copy();
                    t.updated_at = now;
                    t.preview = output_preview(out);
                    self.set_thread(i, t);
                }
                events
            },
            Err(e) => {
                let params = object4(
                    "threadId",
                    Json::text(thread_id),
                    "turnId",
                    Json::text(turn_id),
                    "error",
                    object1("message", Json::text(e)),
                    "willRetry",
                    Json::Bool(false),
                );
                let mut events: Vec<Json> = Vec::new();
                events.push(notification_event("error", params));
                assert(events@.map_values(|x: Json| x@) =~= seq![turn_error_event(thread_id@, turn_id@, e@)]);
                events
            },
        }
    }

    /// Answers one request of the compatible surface at time `now`.
    pub fn send_request_compatible(&mut self, method: &str, params: &Json, now: u64) -> (r: CompatOutcome)
        requires
            old(self).wf(),
        ensures
            final(self).wf(),
            compat_kind(method@) == CompatMethod::Unknown ==> failed_with(*old(self), *final(self), r, compat_unavailable(method@)),
            compat_static(compat_kind(method@)) is Some ==> compat_static(compat_kind(method@)) == Some(reply_view(r.reply))
                && unchanged(*old(self), *final(self)) && r.events@.len() == 0 && r.launch is None && r.interrupt is None,
            compat_kind(method@) == CompatMethod::ThreadStart ==> thread_start_outcome(*old(self), *final(self), r, now),
            compat_kind(method@) == CompatMethod::ThreadList ==> unchanged(*old(self), *final(self)) && r.reply is Ok
                && list_reply(*old(self), params@, r.reply->Ok_0@) && r.events@.len() == 0 && r.launch is None
                && r.interrupt is None,
            compat_kind(method@) == CompatMethod::ThreadResume ==> unchanged(*old(self), *final(self))
                && resume_reply(*old(self), params@, reply_view(r.reply)) && r.events@.len() == 0 && r.launch is None
                && r.interrupt is None,
            compat_kind(method@) == CompatMethod::ThreadFork ==> fork_outcome(*old(self), *final(self), params@, r, now),
            compat_kind(method@) == CompatMethod::ThreadArchive ==> archive_outcome(*old(self), *final(self), params@, reply_view(r.reply))
                && r.events@.len() == 0 && r.launch is None && r.interrupt is None,
            compat_kind(method@) == CompatMethod::ThreadNameSet ==> name_set_outcome(*old(self), *final(self), params@, r, now),
            compat_kind(method@) == CompatMethod::TurnStart ==> turn_start_outcome(*old(self), *final(self), params@, r),
            compat_kind(method@) == CompatMethod::TurnInterrupt ==> unchanged(*old(self), *final(self))
                && interrupt_outcome(*old(self), params@, r),
    {
        let kind = classify_compat_method(method);
        if let Some(reply) = compat_static_reply(kind) {
            return CompatOutcome { reply, events: Vec::new(), launch: None, interrupt: None };
        }
        match kind {
            CompatMethod::ThreadStart => self.thread_start(now),
            CompatMethod::ThreadList => {
                let reply = self.thread_list(params);
                CompatOutcome { reply: Ok(reply), events: Vec::new(), launch: None, interrupt: None }
            },
            CompatMethod::ThreadResume => {
                let reply = self.thread_resume(params);
                CompatOutcome { reply, events: Vec::new(), launch: None, interrupt: None }
            },
            CompatMethod::ThreadFork => self.thread_fork(params, now),
            CompatMethod::ThreadArchive => {
                let reply = self.thread_archive(params);
                CompatOutcome { reply, events: Vec::new(), launch: None, interrupt: None }
            },
            CompatMethod::ThreadNameSet => self.thread_name_set(params, now),
            CompatMethod::TurnStart => self.turn_start(params),
            CompatMethod::TurnInterrupt => self.turn_interrupt(params),
            _ => {
                let msg = String::from_str("Method `").concat(method).concat("` is not available in compatible CLI mode.");
                CompatOutcome { reply: Err(msg), events: Vec::new(), launch: None, interrupt: None }
            },
        }
    }
}

} // verus!
