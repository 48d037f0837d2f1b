//! The per-workspace thread store: conversation id to metadata, with its JSON form.
use vstd::prelude::*;
use crate::json::{
    Json, JsonValue, lemma_lookup_absent, lemma_lookup_at, lookup, member, members_view, opt_str_view, opt_string_view, opt_text, parse_json,
    parsed_json,
};
use crate::decimal::{decimal, digits_value, is_numeral, lemma_decimal, parse_u64, u64_to_decimal};
use crate::text::str_eq;

verus! {

/// What the store records of one conversation.
#[derive(Debug)]
pub struct ThreadMetadata {
    /// The tool's own resumable session token.
    pub cli_session_id: Option<String>,
    pub name: Option<String>,
    pub created_at: u64,
    pub updated_at: u64,
    pub archived: bool,
}

/// The model of a thread's metadata.
pub struct MetaView {
    pub session: Option<Seq<char>>,
    pub name: Option<Seq<char>>,
    pub created_at: u64,
    pub updated_at: u64,
    pub archived: bool,
}

impl View for ThreadMetadata {
    type V = MetaView;

    open spec fn view(&self) -> MetaView {
        MetaView {
            session: opt_string_view(self.cli_session_id),
            name: opt_string_view(self.name),
            created_at: self.created_at,
            updated_at: self.updated_at,
            archived: self.archived,
        }
    }
}

fn clone_opt(s: &Option<String>) -> (r: Option<String>)
    ensures
        opt_string_view(r) == opt_string_view(*s),
{
    match s {
        Some(t) => Some(t.clone()),
        None => None,
    }
}

impl ThreadMetadata {
    /// Metadata of a thread created at `now`.
    pub fn fresh(now: u64) -> (r: ThreadMetadata)
        ensures
            r@ == fresh_meta(now),
    {
        ThreadMetadata { cli_session_id: None, name: None, created_at: now, updated_at: now, archived: false }
    }

    pub fn copy(&self) -> (r: ThreadMetadata)
        ensures
            r@ == self@,
    {
        ThreadMetadata {
            cli_session_id: clone_opt(&self.cli_session_id),
            name: clone_opt(&self.name),
            created_at: self.created_at,
            updated_at: self.updated_at,
            archived: self.archived,
        }
    }
}

pub open spec fn fresh_meta(now: u64) -> MetaView {
    MetaView { session: None, name: None, created_at: now, updated_at: now, archived: false }
}

/// The model of a store: thread id to metadata.
pub type StoreView = Map<Seq<char>, MetaView>;

/// The map that a list of entries stands for; a later entry for an id wins.
pub open spec fn map_of(s: Seq<(Seq<char>, MetaView)>) -> StoreView
    decreases s.len(),
{
    if s.len() == 0 {
        Map::empty()
    } else {
        map_of(s.drop_last()).insert(s.last().0, s.last().1)
    }
}

pub open spec fn unique_ids(s: Seq<(Seq<char>, MetaView)>) -> bool {
    forall|i: int, j: int| 0 <= i < s.len() && 0 <= j < s.len() && i != j ==> s[i].0 != s[j].0
}

pub open spec fn entries_view(t: Seq<(String, ThreadMetadata)>) -> Seq<(Seq<char>, MetaView)> {
    t.map_values(|e: (String, ThreadMetadata)| (e.0@, e.1@))
}

proof fn lemma_map_of_contains(s: Seq<(Seq<char>, MetaView)>, k: Seq<char>)
    ensures
        map_of(s).contains_key(k) <==> exists|i: int| 0 <= i < s.len() && #[trigger] s[i].0 == k,
    decreases s.len(),
{
    if s.len() > 0 {
        lemma_map_of_contains(s.drop_last(), k);
        if map_of(s.drop_last()).contains_key(k) {
            let i = choose|i: int| 0 <= i < s.drop_last().len() && #[trigger] s.drop_last()[i].0 == k;
            assert(s[i].0 == k);
        }
        if exists|i: int| 0 <= i < s.len() && #[trigger] s[i].0 == k {
            let i = choose|i: int| 0 <= i < s.len() && #[trigger] s[i].0 == k;
            if i < s.len() - 1 {
                assert(s.drop_last()[i].0 == k);
            }
        }
    }
}

proof fn lemma_map_of_index(s: Seq<(Seq<char>, MetaView)>, i: int)
    requires
        unique_ids(s),
        0 <= i < s.len(),
    ensures
        map_of(s).contains_key(s[i].0),
        map_of(s)[s[i].0] == s[i].1,
    decreases s.len(),
{
    if i < s.len() - 1 {
        lemma_map_of_index(s.drop_last(), i);
        assert(s.drop_last()[i] == s[i]);
    }
}

proof fn lemma_map_of_update(s: Seq<(Seq<char>, MetaView)>, i: int, v: MetaView)
    requires
        unique_ids(s),
        0 <= i < s.len(),
    ensures
        map_of(s.update(i, (s[i].0, v))) == map_of(s).insert(s[i].0, v),
    decreases s.len(),
{
    let t = s.update(i, (s[i].0, v));
    if i == s.len() - 1 {
        assert(t.drop_last() =~= s.drop_last());
        assert(map_of(t) =~= map_of(s).insert(s[i].0, v));
    } else {
        assert(t.drop_last() =~= s.drop_last().update(i, (s[i].0, v)));
        lemma_map_of_update(s.drop_last(), i, v);
        assert(s.drop_last()[i] == s[i]);
        assert(s.last().0 != s[i].0);
        assert(map_of(t) =~= map_of(s).insert(s[i].0, v));
    }
}

/// Whether a thread appears in listings: it exists and is not archived.
pub open spec fn listed(m: StoreView, id: Seq<char>) -> bool {
    m.contains_key(id) && !m[id].archived
}

/// The store after archiving `id` at `now`; an unknown id leaves it as it was.
pub open spec fn archived_store(m: StoreView, id: Seq<char>, now: u64) -> StoreView {
    if m.contains_key(id) {
        m.insert(id, MetaView { archived: true, updated_at: now, ..m[id] })
    } else {
        m
    }
}

/// The store after naming `id` at `now`; an unknown id leaves it as it was.
pub open spec fn named_store(m: StoreView, id: Seq<char>, name: Seq<char>, now: u64) -> StoreView {
    if m.contains_key(id) {
        m.insert(id, MetaView { name: Some(name), updated_at: now, ..m[id] })
    } else {
        m
    }
}

/// The store after recording the tool's session id for `id` at `now`.
pub open spec fn session_store(m: StoreView, id: Seq<char>, session: Seq<char>, now: u64) -> StoreView {
    if m.contains_key(id) {
        m.insert(id, MetaView { session: Some(session), updated_at: now, ..m[id] })
    } else {
        m
    }
}

/// The name a fork takes from its source's name.
pub open spec fn fork_name(name: Option<Seq<char>>) -> Option<Seq<char>> {
    match name {
        Some(n) => Some(n + " (fork)"@),
        None => None,
    }
}

/// The metadata of a fork of `source` made at `now`: no session token of its own.
pub open spec fn fork_meta(source: MetaView, now: u64) -> MetaView {
    MetaView { session: None, name: fork_name(source.name), created_at: now, updated_at: now, archived: false }
}

/// All conversations of one workspace.
pub struct ThreadStore {
    threads: Vec<(String, ThreadMetadata)>,
}

impl View for ThreadStore {
    type V = StoreView;

    closed spec fn view(&self) -> StoreView {
        map_of(entries_view(self.threads@))
    }
}

impl ThreadStore {
    /// Each id names at most one entry.
    pub closed spec fn wf(&self) -> bool {
        unique_ids(entries_view(self.threads@))
    }

    /// An empty store.
    pub fn new() -> (r: ThreadStore)
        ensures
            r.wf(),
            r@ == Map::<Seq<char>, MetaView>::empty(),
    {
        let r = ThreadStore { threads: Vec::new() };
        assert(entries_view(r.threads@) =~= Seq::<(Seq<char>, MetaView)>::empty());
        r
    }

    /// The number of threads.
    pub fn len(&self) -> (r: usize)
        requires
            self.wf(),
        ensures
            r == self@.len(),
    {
        proof {
            self.lemma_dom_len();
        }
        self.threads.len()
    }

    proof fn lemma_dom_len(&self)
        requires
            self.wf(),
        ensures
            self@.dom().len() == self.threads@.len(),
            self@.dom().finite(),
        decreases self.threads@.len(),
    {
        lemma_map_of_dom_len(entries_view(self.threads@));
    }

    fn index_of(&self, id: &str) -> (r: Option<usize>)
        requires
            self.wf(),
        ensures
            match r {
                Some(i) => i < self.threads@.len() && self.threads@[i as int].0@ == id@,
                None => !self@.contains_key(id@),
            },
    {
        let n = self.threads.len();
        let mut i: usize = 0;
        while i < n
            invariant
                n == self.threads@.len(),
                i <= n,
                forall|k: int| 0 <= k < i ==> #[trigger] self.threads@[k].0@ != id@,
            decreases n - i,
        {
            if str_eq(self.threads[i].0.as_str(), id) {
                return Some(i);
            }
            i = i + 1;
        }
        proof {
            let s = entries_view(self.threads@);
            lemma_map_of_contains(s, id@);
            if exists|k: int| 0 <= k < s.len() && #[trigger] s[k].0 == id@ {
                let k = choose|k: int| 0 <= k < s.len() && #[trigger] s[k].0 == id@;
                assert(self.threads@[k].0@ == id@);
            }
        }
        None
    }

    proof fn lemma_entry(&self, i: int)
        requires
            self.wf(),
            0 <= i < self.threads@.len(),
        ensures
            self@.contains_key(self.threads@[i].0@),
            self@[self.threads@[i].0@] == self.threads@[i].1@,
    {
        lemma_map_of_index(entries_view(self.threads@), i);
    }

    /// Whether `id` names a thread of this store.
    pub fn contains(&self, id: &str) -> (r: bool)
        requires
            self.wf(),
        ensures
            r == self@.contains_key(id@),
    {
        match self.index_of(id) {
            Some(i) => {
                proof {
                    self.lemma_entry(i as int);
                }
                true
            },
            None => false,
        }
    }

    /// The metadata of `id`.
    pub fn get(&self, id: &str) -> (r: Option<&ThreadMetadata>)
        requires
            self.wf(),
        ensures
            match r {
                Some(m) => self@.contains_key(id@) && self@[id@] == m@,
                None => !self@.contains_key(id@),
            },
    {
        match self.index_of(id) {
            Some(i) => {
                proof {
                    self.lemma_entry(i as int);
                }
                Some(&self.threads[i].1)
            },
            None => None,
        }
    }

    /// Adds a thread under an id that the store does not hold yet.
    pub fn insert_new(&mut self, id: String, meta: ThreadMetadata)
        requires
            old(self).wf(),
            !old(self)@.contains_key(id@),
        ensures
            final(self).wf(),
            final(self)@ == old(self)@.insert(id@, meta@),
    {
        let ghost k = id@;
        let ghost v = meta@;
        proof {
            lemma_map_of_contains(entries_view(self.threads@), k);
        }
        self.threads.push((id, meta));
        proof {
            let s = entries_view(self.threads@);
            assert(s.drop_last() =~= entries_view(old(self).threads@));
            assert(s.last() == (k, v));
            assert forall|i: int, j: int| 0 <= i < s.len() && 0 <= j < s.len() && i != j implies s[i].0 != s[j].0 by {
                if i < s.len() - 1 && j < s.len() - 1 {
                    assert(s[i] == s.drop_last()[i]);
                    assert(s[j] == s.drop_last()[j]);
                } else if i < s.len() - 1 {
                    assert(s.drop_last()[i].0 == s[i].0);
                } else {
                    assert(s.drop_last()[j].0 == s[j].0);
                }
            }
        }
    }

    /// Replaces the metadata of the entry at `i`.
    fn set_at(&mut self, i: usize, meta: ThreadMetadata)
        requires
            old(self).wf(),
            i < old(self).threads@.len(),
        ensures
            final(self).wf(),
            final(self).threads@.len() == old(self).threads@.len(),
            final(self)@ == old(self)@.insert(old(self).threads@[i as int].0@, meta@),
    {
        let ghost v = meta@;
        let ghost s0 = entries_view(self.threads@);
        let id = self.threads[i].0.clone();
        self.threads.set(i, (id, meta));
        proof {
            lemma_map_of_update(s0, i as int, v);
            assert(entries_view(self.threads@) =~= s0.update(i as int, (s0[i as int].0, v)));
        }
    }

    /// Marks `id` archived and touches it; an unknown id is left alone.
    pub fn archive(&mut self, id: &str, now: u64)
        requires
            old(self).wf(),
        ensures
            final(self).wf(),
            final(self)@ == archived_store(old(self)@, id@, now),
    {
        if let Some(i) = self.index_of(id) {
            proof {
                self.lemma_entry(i as int);
            }
            let mut meta = self.threads[i].1.copy();
            meta.archived = true;
            meta.updated_at = now;
            self.set_at(i, meta);
            proof {
                assert(final(self)@ =~= archived_store(old(self)@, id@, now));
            }
        }
    }

    /// Sets the display name of `id` and touches it; an unknown id is left alone.
    pub fn set_name(&mut self, id: &str, name: &str, now: u64)
        requires
            old(self).wf(),
        ensures
            final(self).wf(),
            final(self)@ == named_store(old(self)@, id@, name@, now),
    {
        if let Some(i) = self.index_of(id) {
            proof {
                self.lemma_entry(i as int);
            }
            let mut meta = self.threads[i].1.copy();
            meta.name = Some(String::from_str(name));
            meta.updated_at = now;
            self.set_at(i, meta);
        }
    }

    /// Records the tool's session id for `id` and touches it; an unknown id is left alone.
    pub fn set_session_id(&mut self, id: &str, session: &str, now: u64)
        requires
            old(self).wf(),
        ensures
            final(self).wf(),
            final(self)@ == session_store(old(self)@, id@, session@, now),
    {
        if let Some(i) = self.index_of(id) {
            proof {
                self.lemma_entry(i as int);
            }
            let mut meta = self.threads[i].1.copy();
            meta.cli_session_id = Some(String::from_str(session));
            meta.updated_at = now;
            self.set_at(i, meta);
        }
    }

    /// The threads that listings show, each once, in the store's order.
    pub fn active_threads(&self) -> (r: Vec<(String, ThreadMetadata)>)
        requires
            self.wf(),
        ensures
            unique_ids(entries_view(r@)),
            forall|k: Seq<char>| #![auto] map_of(entries_view(r@)).contains_key(k) <==> listed(self@, k),
            forall|k: Seq<char>| #![auto] map_of(entries_view(r@)).contains_key(k) ==> map_of(entries_view(r@))[k] == self@[k],
    {
        let ghost all = entries_view(self.threads@);
        let mut out: Vec<(String, ThreadMetadata)> = Vec::new();
        let n = self.threads.len();
        let mut i: usize = 0;
        assert(entries_view(out@) =~= active_entries(all.subrange(0, 0)));
        while i < n
            invariant
                all == entries_view(self.threads@),
                n == self.threads@.len(),
                i <= n,
                entries_view(out@) == active_entries(all.subrange(0, i as int)),
            decreases n - i,
        {
            let ghost before = out@;
            assert(all.subrange(0, i + 1).drop_last() =~= all.subrange(0, i as int));
            if !self.threads[i].1.archived {
                let e = (self.threads[i].0.clone(), self.threads[i].1.copy());
                out.push(e);
                assert(entries_view(out@) =~= entries_view(before).push(all[i as int]));
            }
            i = i + 1;
        }
        proof {
            assert(all.subrange(0, n as int) =~= all);
            lemma_active_entries(all);
        }
        out
    }
}

/// The entries of threads that are not archived, in order.
pub open spec fn active_entries(s: Seq<(Seq<char>, MetaView)>) -> Seq<(Seq<char>, MetaView)>
    decreases s.len(),
{
    if s.len() == 0 {
        s
    } else if s.last().1.archived {
        active_entries(s.drop_last())
    } else {
        active_entries(s.drop_last()).push(s.last())
    }
}

proof fn lemma_unique_drop_last(s: Seq<(Seq<char>, MetaView)>)
    requires
        unique_ids(s),
        s.len() > 0,
    ensures
        unique_ids(s.drop_last()),
{
    let t = s.drop_last();
    assert forall|i: int, j: int| 0 <= i < t.len() && 0 <= j < t.len() && i != j implies t[i].0 != t[j].0 by {
        assert(t[i] == s[i] && t[j] == s[j]);
    }
}

proof fn lemma_active_entries(s: Seq<(Seq<char>, MetaView)>)
    requires
        unique_ids(s),
    ensures
        unique_ids(active_entries(s)),
        forall|k: Seq<char>| #![auto] map_of(active_entries(s)).contains_key(k) <==> (map_of(s).contains_key(k) && !map_of(s)[k].archived),
        forall|k: Seq<char>| #![auto] map_of(active_entries(s)).contains_key(k) ==> map_of(active_entries(s))[k] == map_of(s)[k],
        forall|k: Seq<char>| #![auto] map_of(active_entries(s)).contains_key(k) ==> map_of(s).contains_key(k),
    decreases s.len(),
{
    if s.len() > 0 {
        let t = s.drop_last();
        lemma_unique_drop_last(s);
        lemma_active_entries(t);
        let last = s.last();
        lemma_map_of_contains(t, last.0);
        if map_of(t).contains_key(last.0) {
            let i = choose|i: int| 0 <= i < t.len() && #[trigger] t[i].0 == last.0;
            assert(t[i] == s[i]);
        }
        assert(map_of(s) == map_of(t).insert(last.0, last.1));
        if last.1.archived {
            assert(active_entries(s) == active_entries(t));
        } else {
            assert(active_entries(s) == active_entries(t).push(last));
            assert(active_entries(t).push(last).drop_last() =~= active_entries(t));
            assert(map_of(active_entries(s)) == map_of(active_entries(t)).insert(last.0, last.1));
        }
        assert forall|k: Seq<char>| #![auto] map_of(active_entries(s)).contains_key(k) implies map_of(s).contains_key(k) && map_of(active_entries(s))[k] == map_of(s)[k] by {
            if k != last.0 {
                assert(map_of(active_entries(t)).contains_key(k));
            }
        }
        assert forall|k: Seq<char>| #![auto] map_of(s).contains_key(k) && !map_of(s)[k].archived implies map_of(active_entries(s)).contains_key(k) by {
            if k != last.0 {
                assert(map_of(t).contains_key(k));
            }
        }
        if !last.1.archived {
            let a = active_entries(t);
            let b = a.push(last);
            assert forall|i: int, j: int| 0 <= i < b.len() && 0 <= j < b.len() && i != j implies b[i].0 != b[j].0 by {
                if i < a.len() && j < a.len() {
                } else {
                    let x = if i < a.len() { i } else { j };
                    lemma_map_of_contains(a, b[x].0);
                    assert(a[x].0 == b[x].0);
                }
            }
        }
    }
}

proof fn lemma_map_of_dom_len(s: Seq<(Seq<char>, MetaView)>)
    requires
        unique_ids(s),
    ensures
        map_of(s).dom().finite(),
        map_of(s).dom().len() == s.len(),
    decreases s.len(),
{
    if s.len() > 0 {
        let t = s.drop_last();
        assert(unique_ids(t)) by {
            assert forall|i: int, j: int| 0 <= i < t.len() && 0 <= j < t.len() && i != j implies t[i].0 != t[j].0 by {
                assert(t[i] == s[i] && t[j] == s[j]);
            }
        }
        lemma_map_of_dom_len(t);
        lemma_map_of_contains(t, s.last().0);
        if map_of(t).contains_key(s.last().0) {
            let i = choose|i: int| 0 <= i < t.len() && #[trigger] t[i].0 == s.last().0;
            assert(t[i] == s[i]);
        }
    }
}

/// The JSON form of one thread's metadata.
pub open spec fn meta_json(m: MetaView) -> JsonValue {
    JsonValue::Object(
        seq![
            ("cli_session_id"@, opt_text(m.session)),
            ("name"@, opt_text(m.name)),
            ("created_at"@, JsonValue::Number(decimal(m.created_at as nat))),
            ("updated_at"@, JsonValue::Number(decimal(m.updated_at as nat))),
            ("archived"@, JsonValue::Bool(m.archived)),
        ],
    )
}

/// The JSON form of a store whose entries are `e`, in that order.
pub open spec fn store_json(e: Seq<(Seq<char>, MetaView)>) -> JsonValue {
    JsonValue::Object(seq![("threads"@, JsonValue::Object(e.map_values(|x: (Seq<char>, MetaView)| (x.0, meta_json(x.1)))))])
}

/// An optional text member: absent or `null` is none, a string is some; anything else is
/// malformed.
pub open spec fn decode_opt_text(v: Option<JsonValue>) -> Option<Option<Seq<char>>> {
    match v {
        None => Some(None),
        Some(JsonValue::Null) => Some(None),
        Some(JsonValue::Str(s)) => Some(Some(s)),
        _ => None,
    }
}

/// A required unsigned 64-bit integer member.
pub open spec fn decode_u64(v: Option<JsonValue>) -> Option<u64> {
    match v {
        Some(JsonValue::Number(t)) => if is_numeral(t) && digits_value(t) <= u64::MAX {
            Some(digits_value(t) as u64)
        } else {
            None
        },
        _ => None,
    }
}

/// The session-token member, read under its current name or its legacy one
/// (`claude_session_id`); holding both is malformed.
pub open spec fn session_member(v: JsonValue) -> Option<Option<JsonValue>> {
    match (v.field("cli_session_id"@), v.field("claude_session_id"@)) {
        (Some(_), Some(_)) => None,
        (Some(a), None) => Some(Some(a)),
        (None, b) => Some(b),
    }
}

/// The metadata that a JSON value holds, or nothing where it is malformed. Members of other
/// names are ignored.
pub open spec fn decode_meta(v: JsonValue) -> Option<MetaView> {
    match v {
        JsonValue::Object(_) => match session_member(v) {
            Some(sm) => match (
                decode_opt_text(sm),
                decode_opt_text(v.field("name"@)),
                decode_u64(v.field("created_at"@)),
                decode_u64(v.field("updated_at"@)),
                v.field("archived"@),
            ) {
                (Some(session), Some(name), Some(c), Some(u), Some(JsonValue::Bool(a))) => Some(
                    MetaView { session, name, created_at: c, updated_at: u, archived: a },
                ),
                _ => None,
            },
            None => None,
        },
        _ => None,
    }
}

pub open spec fn decode_entries(m: Seq<(Seq<char>, JsonValue)>) -> Option<Seq<(Seq<char>, MetaView)>>
    decreases m.len(),
{
    if m.len() == 0 {
        Some(Seq::empty())
    } else {
        match (decode_entries(m.drop_last()), decode_meta(m.last().1)) {
            (Some(e), Some(x)) => Some(e.push((m.last().0, x))),
            _ => None,
        }
    }
}

/// The store that a JSON value holds, or nothing where it is malformed.
pub open spec fn decode_store(v: JsonValue) -> Option<StoreView> {
    match v {
        JsonValue::Object(_) => match v.field("threads"@) {
            Some(JsonValue::Object(m)) => match decode_entries(m) {
                Some(e) => Some(map_of(e)),
                None => None,
            },
            _ => None,
        },
        _ => None,
    }
}

/// What loading a store's file text gives: its store, or an empty store where the text is
/// not a well-formed store.
pub open spec fn loaded_store(text: Seq<char>) -> StoreView {
    match parsed_json(text) {
        Some(v) => match decode_store(v) {
            Some(m) => m,
            None => Map::empty(),
        },
        None => Map::empty(),
    }
}

proof fn lemma_decode_meta_json(m: MetaView)
    ensures
        decode_meta(meta_json(m)) == Some(m),
{
    reveal_strlit("cli_session_id");
    reveal_strlit("claude_session_id");
    reveal_strlit("name");
    reveal_strlit("created_at");
    reveal_strlit("updated_at");
    reveal_strlit("archived");
    let v = meta_json(m);
    let s = v->Object_0;
    lemma_meta_lookups(s, "cli_session_id"@, opt_text(m.session), m);
    lemma_key_names_differ();
    lemma_lookup_absent(s, "claude_session_id"@);
    lemma_decimal(m.created_at as nat);
    lemma_decimal(m.updated_at as nat);
}

proof fn lemma_key_names_differ()
    ensures
        "cli_session_id"@ != "claude_session_id"@,
        "cli_session_id"@ != "name"@,
        "cli_session_id"@ != "created_at"@,
        "cli_session_id"@ != "updated_at"@,
        "cli_session_id"@ != "archived"@,
        "claude_session_id"@ != "name"@,
        "claude_session_id"@ != "created_at"@,
        "claude_session_id"@ != "updated_at"@,
        "claude_session_id"@ != "archived"@,
        "name"@ != "created_at"@,
        "name"@ != "updated_at"@,
        "name"@ != "archived"@,
        "created_at"@ != "updated_at"@,
        "created_at"@ != "archived"@,
        "updated_at"@ != "archived"@,
{
    reveal_strlit("cli_session_id");
    reveal_strlit("claude_session_id");
    reveal_strlit("name");
    reveal_strlit("created_at");
    reveal_strlit("updated_at");
    reveal_strlit("archived");
    assert("cli_session_id"@.len() == 14);
    assert("claude_session_id"@.len() == 17);
    assert("name"@.len() == 4);
    assert("created_at"@.len() == 10);
    assert("updated_at"@.len() == 10);
    assert("archived"@.len() == 8);
    assert("created_at"@[0] == 'c');
    assert("updated_at"@[0] == 'u');
}

proof fn lemma_meta_lookups(s: Seq<(Seq<char>, JsonValue)>, k0: Seq<char>, v0: JsonValue, m: MetaView)
    requires
        k0 == "cli_session_id"@ || k0 == "claude_session_id"@,
        s == seq![
            (k0, v0),
            ("name"@, opt_text(m.name)),
            ("created_at"@, JsonValue::Number(decimal(m.created_at as nat))),
            ("updated_at"@, JsonValue::Number(decimal(m.updated_at as nat))),
            ("archived"@, JsonValue::Bool(m.archived)),
        ],
    ensures
        lookup(s, k0) == Some(v0),
        lookup(s, "name"@) == Some(opt_text(m.name)),
        lookup(s, "created_at"@) == Some(JsonValue::Number(decimal(m.created_at as nat))),
        lookup(s, "updated_at"@) == Some(JsonValue::Number(decimal(m.updated_at as nat))),
        lookup(s, "archived"@) == Some(JsonValue::Bool(m.archived)),
{
    reveal_strlit("cli_session_id");
    reveal_strlit("claude_session_id");
    reveal_strlit("name");
    reveal_strlit("created_at");
    reveal_strlit("updated_at");
    reveal_strlit("archived");
    lemma_key_names_differ();
    lemma_lookup_at(s, 0, k0);
    lemma_lookup_at(s, 1, "name"@);
    lemma_lookup_at(s, 2, "created_at"@);
    lemma_lookup_at(s, 3, "updated_at"@);
    lemma_lookup_at(s, 4, "archived"@);
}

/// A store's JSON form loads back to the same entries.
pub proof fn lemma_store_json_round_trip(e: Seq<(Seq<char>, MetaView)>)
    ensures
        decode_store(store_json(e)) == Some(map_of(e)),
{
    reveal_strlit("threads");
    let inner = e.map_values(|x: (Seq<char>, MetaView)| (x.0, meta_json(x.1)));
    lemma_decode_entries(e);
    assert(decode_entries(inner) == Some(e));
}

proof fn lemma_decode_entries_prefix(m: Seq<(Seq<char>, JsonValue)>, i: int)
    requires
        0 <= i <= m.len(),
        decode_entries(m) is Some,
    ensures
        decode_entries(m.subrange(0, i)) is Some,
    decreases m.len() - i,
{
    if i < m.len() {
        lemma_decode_entries_prefix(m, i + 1);
        assert(m.subrange(0, i + 1).drop_last() =~= m.subrange(0, i));
    } else {
        assert(m.subrange(0, i) =~= m);
    }
}

proof fn lemma_decode_entries(e: Seq<(Seq<char>, MetaView)>)
    ensures
        decode_entries(e.map_values(|x: (Seq<char>, MetaView)| (x.0, meta_json(x.1)))) == Some(e),
    decreases e.len(),
{
    let inner = e.map_values(|x: (Seq<char>, MetaView)| (x.0, meta_json(x.1)));
    if e.len() > 0 {
        lemma_decode_entries(e.drop_last());
        assert(inner.drop_last() =~= e.drop_last().map_values(|x: (Seq<char>, MetaView)| (x.0, meta_json(x.1))));
        lemma_decode_meta_json(e.last().1);
        assert(e.drop_last().push(e.last()) =~= e);
    } else {
        assert(e =~= Seq::<(Seq<char>, MetaView)>::empty());
    }
}

/// The legacy name of the session-token member reads the same as the current one.
pub proof fn lemma_legacy_session_field(m: MetaView)
    ensures
        decode_meta(
            JsonValue::Object(
                seq![
                    ("claude_session_id"@, opt_text(m.session)),
                    ("name"@, opt_text(m.name)),
                    ("created_at"@, JsonValue::Number(decimal(m.created_at as nat))),
                    ("updated_at"@, JsonValue::Number(decimal(m.updated_at as nat))),
                    ("archived"@, JsonValue::Bool(m.archived)),
                ],
            ),
        ) == Some(m),
{
    reveal_strlit("cli_session_id");
    reveal_strlit("claude_session_id");
    reveal_strlit("name");
    reveal_strlit("created_at");
    reveal_strlit("updated_at");
    reveal_strlit("archived");
    let s = seq![
        ("claude_session_id"@, opt_text(m.session)),
        ("name"@, opt_text(m.name)),
        ("created_at"@, JsonValue::Number(decimal(m.created_at as nat))),
        ("updated_at"@, JsonValue::Number(decimal(m.updated_at as nat))),
        ("archived"@, JsonValue::Bool(m.archived)),
    ];
    lemma_meta_lookups(s, "claude_session_id"@, opt_text(m.session), m);
    lemma_key_names_differ();
    lemma_lookup_absent(s, "cli_session_id"@);
    lemma_decimal(m.created_at as nat);
    lemma_decimal(m.updated_at as nat);
}

fn opt_text_json(t: &Option<String>) -> (r: Json)
    ensures
        r@ == opt_text(opt_string_view(*t)),
{
    match t {
        Some(s) => Json::text(s.as_str()),
        None => Json::Null,
    }
}

fn decode_opt_text_exec(v: Option<&Json>) -> (r: Option<Option<String>>)
    ensures
        match r {
            Some(t) => decode_opt_text(opt_ref_view(v)) == Some(opt_string_view(t)),
            None => decode_opt_text(opt_ref_view(v)) is None,
        },
{
    match v {
        None => Some(None),
        Some(Json::Null) => Some(None),
        Some(Json::Str(s)) => Some(Some(s.clone())),
        _ => None,
    }
}

pub open spec fn opt_ref_view(v: Option<&Json>) -> Option<JsonValue> {
    match v {
        Some(j) => Some(j@),
        None => None,
    }
}

fn decode_u64_exec(v: Option<&Json>) -> (r: Option<u64>)
    ensures
        r == decode_u64(opt_ref_view(v)),
{
    match v {
        Some(Json::Number(t)) => parse_u64(t.as_str()),
        _ => None,
    }
}

impl ThreadMetadata {
    /// The JSON form of this metadata.
    pub fn to_json(&self) -> (r: Json)
        ensures
            r@ == meta_json(self@),
    {
        let mut m: Vec<(String, Json)> = Vec::new();
        m.push(member("cli_session_id", opt_text_json(&self.cli_session_id)));
        m.push(member("name", opt_text_json(&self.name)));
        m.push(member("created_at", Json::Number(u64_to_decimal(self.created_at))));
        m.push(member("updated_at", Json::Number(u64_to_decimal(self.updated_at))));
        m.push(member("archived", Json::Bool(self.archived)));
        let r = Json::object(m);
        assert(r@->Object_0 =~= meta_json(self@)->Object_0);
        r
    }

    /// The metadata that a JSON value holds.
    pub fn from_json(v: &Json) -> (r: Option<ThreadMetadata>)
        ensures
            match r {
                Some(m) => decode_meta(v@) == Some(m@),
                None => decode_meta(v@) is None,
            },
    {
        if v.as_object().is_none() {
            return None;
        }
        let cli = v.get("cli_session_id");
        let legacy = v.get("claude_session_id");
        let session_json = match (cli, legacy) {
            (Some(_), Some(_)) => return None,
            (Some(a), None) => Some(a),
            (None, b) => b,
        };
        assert(session_member(v@) == Some(opt_ref_view(session_json)));
        let session = match decode_opt_text_exec(session_json) {
            Some(s) => s,
            None => return None,
        };
        let name = match decode_opt_text_exec(v.get("name")) {
            Some(s) => s,
            None => return None,
        };
        let created_at = match decode_u64_exec(v.get("created_at")) {
            Some(n) => n,
            None => return None,
        };
        let updated_at = match decode_u64_exec(v.get("updated_at")) {
            Some(n) => n,
            None => return None,
        };
        let archived = match v.get("archived") {
            Some(Json::Bool(b)) => *b,
            _ => return None,
        };
        Some(ThreadMetadata { cli_session_id: session, name, created_at, updated_at, archived })
    }
}

impl ThreadStore {
    /// Adds `meta` under `id`, replacing what `id` held.
    pub fn upsert(&mut self, id: String, meta: ThreadMetadata)
        requires
            old(self).wf(),
        ensures
            final(self).wf(),
            final(self)@ == old(self)@.insert(id@, meta@),
    {
        match self.index_of(id.as_str()) {
            Some(i) => self.set_at(i, meta),
            None => self.insert_new(id, meta),
        }
    }

    /// The JSON form of the store, as its file holds it.
    pub fn to_json(&self) -> (r: Json)
        requires
            self.wf(),
        ensures
            decode_store(r@) == Some(self@),
    {
        let ghost e = entries_view(self.threads@);
        let mut out: Vec<(String, Json)> = Vec::new();
        let mut i: usize = 0;
        while i < self.threads.len()
            invariant
                e == entries_view(self.threads@),
                i <= self.threads@.len(),
                members_view(out@) == e.subrange(0, i as int).map_values(|x: (Seq<char>, MetaView)| (x.0, meta_json(x.1))),
            decreases self.threads@.len() - i,
        {
            let ghost before = out@;
            out.push((self.threads[i].0.clone(), self.threads[i].1.to_json()));
            assert(e[i as int] == (self.threads@[i as int].0@, self.threads@[i as int].1@));
            assert(e.subrange(0, i + 1) =~= e.subrange(0, i as int).push(e[i as int]));
            assert(members_view(out@) =~= members_view(before).push((e[i as int].0, meta_json(e[i as int].1))));
            assert(members_view(out@) =~= e.subrange(0, i + 1).map_values(|x: (Seq<char>, MetaView)| (x.0, meta_json(x.1))));
            i = i + 1;
        }
        assert(e.subrange(0, i as int) =~= e);
        let mut top: Vec<(String, Json)> = Vec::new();
        top.push(member("threads", Json::object(out)));
        let r = Json::object(top);
        assert(members_view(top@) =~= store_json(e)->Object_0);
        proof {
            lemma_store_json_round_trip(e);
        }
        r
    }

    /// The store that a JSON value holds, or an empty store where it is malformed.
    pub fn from_json(v: &Json) -> (r: ThreadStore)
        ensures
            r.wf(),
            r@ == match decode_store(v@) {
                Some(m) => m,
                None => Map::empty(),
            },
    {
        let empty = ThreadStore::new();
        if v.as_object().is_none() {
            return empty;
        }
        let members = match v.get("threads") {
            Some(t) => match t.as_object() {
                Some(m) => m,
                None => return empty,
            },
            None => return empty,
        };
        let ghost mv = members_view(members@);
        let mut store = ThreadStore::new();
        let mut i: usize = 0;
        assert(mv.subrange(0, 0) =~= Seq::<(Seq<char>, JsonValue)>::empty());
        while i < members.len()
            invariant
                mv == members_view(members@),
                v@ is Object,
                v@.field("threads"@) == Some(JsonValue::Object(mv)),
                i <= members@.len(),
                store.wf(),
                decode_entries(mv.subrange(0, i as int)) is Some,
                store@ == map_of(decode_entries(mv.subrange(0, i as int))->Some_0),
            decreases members@.len() - i,
        {
            assert(mv.subrange(0, i + 1).drop_last() =~= mv.subrange(0, i as int));
            let ghost prev = decode_entries(mv.subrange(0, i as int))->Some_0;
            assert(mv[i as int] == (members@[i as int].0@, members@[i as int].1@));
            match ThreadMetadata::from_json(&members[i].1) {
                Some(meta) => {
                    let ghost x = meta@;
                    store.upsert(members[i].0.clone(), meta);
                    assert(decode_entries(mv.subrange(0, i + 1)) == Some(prev.push((mv[i as int].0, x))));
                    assert(prev.push((mv[i as int].0, x)).drop_last() =~= prev);
                },
                None => {
                    proof {
                        assert(decode_entries(mv.subrange(0, i + 1)) is None);
                        if decode_entries(mv) is Some {
                            lemma_decode_entries_prefix(mv, i + 1);
                        }
                    }
                    return ThreadStore::new();
                },
            }
            i = i + 1;
        }
        assert(mv.subrange(0, i as int) =~= mv);
        store
    }

    /// Loads a store from its file text: an empty store where the text is not a store.
    pub fn load_from_text(text: &str) -> (r: ThreadStore)
        ensures
            r.wf(),
            r@ == loaded_store(text@),
    {
        match parse_json(text) {
            Ok(v) => ThreadStore::from_json(&v),
            Err(_) => ThreadStore::new(),
        }
    }
}

} // verus!
