//! The generic adapter session: one workspace's threads, its at-most-one running turn
//! subprocess, and the request surface, for every tool profile.
use vstd::prelude::*;
use crate::command::{CliSpawnConfig, CommandSpec, CommandView, base_command, build_codex_command_with_bin, opt_view, strings_view};
use crate::event::{
    empty_obj, empty_object, method_of, obj1, obj2, object1, object2, turn_completed_fallback,
    turn_completed_fallback_event,
};
use crate::json::{Json, JsonValue, items_view, opt_json_view, opt_string_view, parsed_json};
use crate::profile::{
    claude_event, cursor_event, extract_cursor_session_id, extract_gemini_session_id,
    extract_session_id_from_line, gemini_event, gemini_line_session_id, init_line_session_id,
    parse_cursor_stream_line, parse_gemini_stream_line, parse_stream_json_line,
};
use crate::text::str_eq;
use crate::thread_store::{
    MetaView, StoreView, ThreadMetadata, ThreadStore, archived_store, entries_view, fork_meta,
    fresh_meta, listed, map_of, named_store, session_store, unique_ids,
};

verus! {

/// The supported tools; each knows its invocation, its output lines and its models.
#[derive(Clone, Copy, Debug, PartialEq, Eq, Structural)]
pub enum CliProfile {
    /// The tool whose output streams `system`, `content_block_*`, `tool_result` and `result`
    /// lines.
    ContentBlocks,
    Gemini,
    Cursor,
}

/// The event that a tool's output line stands for.
pub open spec fn line_event(p: CliProfile, line: Seq<char>, thread: Seq<char>, turn: Seq<char>) -> Option<JsonValue> {
    match parsed_json(line) {
        Some(ev) => match p {
            CliProfile::ContentBlocks => claude_event(ev, thread, turn),
            CliProfile::Gemini => gemini_event(ev, thread, turn),
            CliProfile::Cursor => cursor_event(ev, thread, turn),
        },
        None => None,
    }
}

/// The session id that a tool's output line reports.
pub open spec fn line_session_id(p: CliProfile, line: Seq<char>) -> Option<Seq<char>> {
    match parsed_json(line) {
        Some(ev) => match p {
            CliProfile::Gemini => gemini_line_session_id(ev),
            _ => init_line_session_id(ev),
        },
        None => None,
    }
}

pub open spec fn model_entry(id: Seq<char>, name: Seq<char>) -> JsonValue {
    obj2("id"@, JsonValue::Str(id), "name"@, JsonValue::Str(name))
}

/// The model catalog of a tool.
pub open spec fn model_catalog(p: CliProfile) -> JsonValue {
    let (models, default) = match p {
        CliProfile::Gemini => (
            seq![
                model_entry("gemini-2.5-flash"@, "Gemini 2.5 Flash"@),
                model_entry("gemini-2.5-pro"@, "Gemini 2.5 Pro"@),
            ],
            JsonValue::Str("gemini-2.5-flash"@),
        ),
        _ => (Seq::empty(), JsonValue::Null),
    };
    obj1("result"@, obj2("models"@, JsonValue::Array(models), "defaultModel"@, default))
}

/// The arguments of one turn's invocation.
pub open spec fn turn_args(p: CliProfile, session: Option<Seq<char>>, prompt: Seq<char>) -> Seq<Seq<char>> {
    let head = match p {
        CliProfile::ContentBlocks => seq!["-p"@, "--output-format"@, "stream-json"@, "--verbose"@],
        CliProfile::Gemini => seq!["--output-format"@, "stream-json"@, "-p"@],
        CliProfile::Cursor => seq!["-p"@, "--output-format"@, "stream-json"@],
    };
    let resume = match session {
        Some(s) => seq!["--resume"@, s],
        None => Seq::empty(),
    };
    head + resume + seq![prompt]
}

/// The environment of one turn's invocation: the tool's home where one is configured.
pub open spec fn turn_env(p: CliProfile, home: Option<Seq<char>>) -> Seq<(Seq<char>, Seq<char>)> {
    match (p, home) {
        (CliProfile::ContentBlocks, Some(h)) => seq![("CLAUDE_HOME"@, h)],
        (CliProfile::Gemini, Some(h)) => seq![("GEMINI_HOME"@, h)],
        _ => Seq::empty(),
    }
}

pub open spec fn config_view(c: CliSpawnConfig) -> (Option<Seq<char>>, Option<Seq<char>>, Option<Seq<char>>) {
    (opt_view(c.cli_bin), opt_view(c.cli_args), opt_view(c.cli_home))
}

/// The invocation of one turn, or nothing where the configured arguments cannot be split.
pub open spec fn turn_command(
    p: CliProfile,
    c: (Option<Seq<char>>, Option<Seq<char>>, Option<Seq<char>>),
    session: Option<Seq<char>>,
    prompt: Seq<char>,
    cwd: Seq<char>,
) -> Option<CommandView> {
    base_command(c.0, c.1, turn_args(p, session, prompt), cwd, turn_env(p, c.2))
}

fn push_str(v: &mut Vec<String>, s: &str)
    ensures
        strings_view(final(v)@) == strings_view(old(v)@).push(s@),
{
    let ghost before = v@;
    v.push(String::from_str(s));
    assert(strings_view(v@) =~= strings_view(before).push(s@));
}

impl CliProfile {
    /// Translates one output line of this tool.
    pub fn parse_stream_line(&self, line: &str, thread_id: &str, turn_id: &str) -> (r: Option<Json>)
        ensures
            opt_json_view(r) == line_event(*self, line@, thread_id@, turn_id@),
    {
        match self {
            CliProfile::ContentBlocks => parse_stream_json_line(line, thread_id, turn_id),
            CliProfile::Gemini => parse_gemini_stream_line(line, thread_id, turn_id),
            CliProfile::Cursor => parse_cursor_stream_line(line, thread_id, turn_id),
        }
    }

    /// The session id that one output line of this tool reports.
    pub fn extract_session_id(&self, line: &str) -> (r: Option<String>)
        ensures
            opt_string_view(r) == line_session_id(*self, line@),
    {
        match self {
            CliProfile::ContentBlocks => extract_session_id_from_line(line),
            CliProfile::Gemini => extract_gemini_session_id(line),
            CliProfile::Cursor => extract_cursor_session_id(line),
        }
    }

    /// The tool's model catalog.
    pub fn model_list(&self) -> (r: Json)
        ensures
            r@ == model_catalog(*self),
    {
        let mut models: Vec<Json> = Vec::new();
        let default = match self {
            CliProfile::Gemini => {
                models.push(object2("id", Json::text("gemini-2.5-flash"), "name", Json::text("Gemini 2.5 Flash")));
                models.push(object2("id", Json::text("gemini-2.5-pro"), "name", Json::text("Gemini 2.5 Pro")));
                Json::text("gemini-2.5-flash")
            },
            _ => Json::Null,
        };
        let ghost mv = items_view(models@);
        let r = object1("result", object2("models", Json::array(models), "defaultModel", default));
        assert(mv =~= model_catalog(*self)->Object_0[0].1->Object_0[0].1->Array_0);
        r
    }

    /// The invocation of one turn of this tool.
    pub fn build_turn_command(
        &self,
        config: &CliSpawnConfig,
        session_id: Option<&str>,
        prompt: &str,
        cwd: &str,
    ) -> (r: Result<CommandSpec, String>)
        ensures
            match r {
                Ok(c) => turn_command(*self, config_view(*config), crate::command::opt_str(session_id), prompt@, cwd@) == Some(c@),
                Err(_) => turn_command(*self, config_view(*config), crate::command::opt_str(session_id), prompt@, cwd@) is None,
            },
    {
        let mut args: Vec<String> = Vec::new();
        match self {
            CliProfile::ContentBlocks => {
                push_str(&mut args, "-p");
                push_str(&mut args, "--output-format");
                push_str(&mut args, "stream-json");
                push_str(&mut args, "--verbose");
            },
            CliProfile::Gemini => {
                push_str(&mut args, "--output-format");
                push_str(&mut args, "stream-json");
                push_str(&mut args, "-p");
            },
            CliProfile::Cursor => {
                push_str(&mut args, "-p");
                push_str(&mut args, "--output-format");
                push_str(&mut args, "stream-json");
            },
        }
        let ghost head = strings_view(args@);
        if let Some(sid) = session_id {
            push_str(&mut args, "--resume");
            push_str(&mut args, sid);
        }
        let ghost mid = strings_view(args@);
        push_str(&mut args, prompt);
        assert(strings_view(args@) =~= turn_args(*self, crate::command::opt_str(session_id), prompt@));
        let mut env: Vec<(String, String)> = Vec::new();
        match (self, &config.cli_home) {
            (CliProfile::ContentBlocks, Some(h)) => env.push((String::from_str("CLAUDE_HOME"), h.clone())),
            (CliProfile::Gemini, Some(h)) => env.push((String::from_str("GEMINI_HOME"), h.clone())),
            _ => {},
        }
        assert(env@.map_values(|e: (String, String)| (e.0@, e.1@)) =~= turn_env(*self, opt_view(config.cli_home)));
        let bin = match &config.cli_bin {
            Some(b) => Some(b.as_str()),
            None => None,
        };
        let extra = match &config.cli_args {
            Some(a) => Some(a.as_str()),
            None => None,
        };
        build_codex_command_with_bin(bin, extra, args, cwd, env)
    }
}

/// The reply to a request that creates or opens a thread.
pub open spec fn thread_ack(id: Seq<char>) -> JsonValue {
    obj1("result"@, obj2("threadId"@, JsonValue::Str(id), "thread"@, obj1("id"@, JsonValue::Str(id))))
}

/// An empty successful reply.
pub open spec fn empty_result() -> JsonValue {
    obj1("result"@, empty_obj())
}

/// The reply to a started turn.
pub open spec fn turn_ack(thread: Seq<char>, turn: Seq<char>) -> JsonValue {
    obj1("result"@, obj2("turn"@, obj1("id"@, JsonValue::Str(turn)), "threadId"@, JsonValue::Str(thread)))
}

/// How a thread appears in a listing.
pub open spec fn thread_summary(id: Seq<char>, m: MetaView) -> JsonValue {
    JsonValue::Object(
        seq![
            ("id"@, JsonValue::Str(id)),
            ("name"@, crate::json::opt_text(m.name)),
            ("createdAt"@, JsonValue::Number(crate::decimal::decimal(m.created_at as nat))),
            ("updatedAt"@, JsonValue::Number(crate::decimal::decimal(m.updated_at as nat))),
            ("archived"@, JsonValue::Bool(m.archived)),
        ],
    )
}

/// A listing of the entries `e`, in that order.
pub open spec fn thread_listing(e: Seq<(Seq<char>, MetaView)>) -> JsonValue {
    obj1(
        "result"@,
        obj2(
            "threads"@,
            JsonValue::Array(e.map_values(|x: (Seq<char>, MetaView)| thread_summary(x.0, x.1))),
            "hasMore"@,
            JsonValue::Bool(false),
        ),
    )
}

/// Whether `e` lists exactly the threads of `m` that listings show, each once.
pub open spec fn lists_active(e: Seq<(Seq<char>, MetaView)>, m: StoreView) -> bool {
    &&& unique_ids(e)
    &&& forall|k: Seq<char>| #![auto] map_of(e).contains_key(k) <==> listed(m, k)
    &&& forall|k: Seq<char>| #![auto] map_of(e).contains_key(k) ==> map_of(e)[k] == m[k]
}

/// The request methods of the adapter surface.
#[derive(Clone, Copy, Debug, PartialEq, Eq, Structural)]
pub enum RequestMethod {
    Initialize,
    ThreadStart,
    ThreadResume,
    ThreadFork,
    ThreadList,
    ThreadArchive,
    ThreadNameSet,
    TurnStart,
    TurnInterrupt,
    ModelList,
    AccountRead,
    AccountRateLimitsRead,
    CollaborationModeList,
    SkillsList,
    AppList,
    McpServerStatusList,
    Unsupported,
}

/// Which method of the surface a method name names.
pub open spec fn method_kind(m: Seq<char>) -> RequestMethod {
    if m == "initialize"@ {
        RequestMethod::Initialize
    } else if m == "thread/start"@ {
        RequestMethod::ThreadStart
    } else if m == "thread/resume"@ {
        RequestMethod::ThreadResume
    } else if m == "thread/fork"@ {
        RequestMethod::ThreadFork
    } else if m == "thread/list"@ {
        RequestMethod::ThreadList
    } else if m == "thread/archive"@ {
        RequestMethod::ThreadArchive
    } else if m == "thread/name/set"@ {
        RequestMethod::ThreadNameSet
    } else if m == "turn/start"@ {
        RequestMethod::TurnStart
    } else if m == "turn/interrupt"@ {
        RequestMethod::TurnInterrupt
    } else if m == "model/list"@ {
        RequestMethod::ModelList
    } else if m == "account/read"@ {
        RequestMethod::AccountRead
    } else if m == "account/rateLimits/read"@ {
        RequestMethod::AccountRateLimitsRead
    } else if m == "collaborationMode/list"@ {
        RequestMethod::CollaborationModeList
    } else if m == "skills/list"@ {
        RequestMethod::SkillsList
    } else if m == "app/list"@ {
        RequestMethod::AppList
    } else if m == "mcpServerStatus/list"@ {
        RequestMethod::McpServerStatusList
    } else {
        RequestMethod::Unsupported
    }
}

/// Whether a method name belongs to the adapter surface.
pub open spec fn is_supported(method: Seq<char>) -> bool {
    method_kind(method) != RequestMethod::Unsupported
}

/// Which method of the surface `m` names.
pub fn classify_method(m: &str) -> (r: RequestMethod)
    ensures
        r == method_kind(m@),
{
    if str_eq(m, "initialize") {
        RequestMethod::Initialize
    } else if str_eq(m, "thread/start") {
        RequestMethod::ThreadStart
    } else if str_eq(m, "thread/resume") {
        RequestMethod::ThreadResume
    } else if str_eq(m, "thread/fork") {
        RequestMethod::ThreadFork
    } else if str_eq(m, "thread/list") {
        RequestMethod::ThreadList
    } else if str_eq(m, "thread/archive") {
        RequestMethod::ThreadArchive
    } else if str_eq(m, "thread/name/set") {
        RequestMethod::ThreadNameSet
    } else if str_eq(m, "turn/start") {
        RequestMethod::TurnStart
    } else if str_eq(m, "turn/interrupt") {
        RequestMethod::TurnInterrupt
    } else if str_eq(m, "model/list") {
        RequestMethod::ModelList
    } else if str_eq(m, "account/read") {
        RequestMethod::AccountRead
    } else if str_eq(m, "account/rateLimits/read") {
        RequestMethod::AccountRateLimitsRead
    } else if str_eq(m, "collaborationMode/list") {
        RequestMethod::CollaborationModeList
    } else if str_eq(m, "skills/list") {
        RequestMethod::SkillsList
    } else if str_eq(m, "app/list") {
        RequestMethod::AppList
    } else if str_eq(m, "mcpServerStatus/list") {
        RequestMethod::McpServerStatusList
    } else {
        RequestMethod::Unsupported
    }
}

/// The error naming a method that no adapter answers.
pub open spec fn unsupported_error(method: Seq<char>) -> Seq<char> {
    "unsupported method: "@ + method
}

pub open spec fn reply_view(r: Result<Json, String>) -> Result<JsonValue, Seq<char>> {
    match r {
        Ok(j) => Ok(j@),
        Err(e) => Err(e@),
    }
}

/// A turn subprocess to start: the thread and turn it serves, and its invocation.
#[derive(Debug)]
pub struct TurnLaunch {
    pub thread_id: String,
    pub turn_id: String,
    pub command: CommandSpec,
    /// The reply to send once the subprocess runs.
    pub ack: Json,
}

/// What the caller of a request must do and answer.
#[derive(Debug)]
pub struct Outcome {
    /// The reply to the request.
    pub reply: Result<Json, String>,
    /// Whether the thread store changed and must be written out.
    pub persist: bool,
    /// A running subprocess to terminate (with its descendants) before anything else.
    pub kill: Option<u64>,
    /// A turn subprocess to start; the reply stands only once it runs.
    pub launch: Option<TurnLaunch>,
}

/// One workspace's adapter session.
pub struct AdapterSession {
    profile: CliProfile,
    workspace_id: String,
    cwd: String,
    config: CliSpawnConfig,
    store: ThreadStore,
    active_child: Option<u64>,
}

impl AdapterSession {
    pub closed spec fn wf(&self) -> bool {
        self.store.wf()
    }

    /// The session's threads.
    pub closed spec fn threads(&self) -> StoreView {
        self.store@
    }

    /// The running turn subprocess, if any.
    pub closed spec fn active(&self) -> Option<u64> {
        self.active_child
    }

    pub closed spec fn profile_of(&self) -> CliProfile {
        self.profile
    }

    /// The tool's name, as configured: used in identification fields.
    pub closed spec fn provider(&self) -> Seq<char> {
        self.config.cli_type@
    }

    pub closed spec fn cwd_of(&self) -> Seq<char> {
        self.cwd@
    }

    pub closed spec fn config_of(&self) -> (Option<Seq<char>>, Option<Seq<char>>, Option<Seq<char>>) {
        config_view(self.config)
    }

    /// A session over a loaded store, with no subprocess running.
    pub fn new(profile: CliProfile, workspace_id: String, cwd: String, config: CliSpawnConfig, store: ThreadStore) -> (r: AdapterSession)
        requires
            store.wf(),
        ensures
            r.wf(),
            r.threads() == store@,
            r.active() is None,
            r.profile_of() == profile,
            r.cwd_of() == cwd@,
            r.config_of() == config_view(config),
    {
        AdapterSession { profile, workspace_id, cwd, config, store, active_child: None }
    }

    pub fn profile(&self) -> (r: CliProfile)
        ensures
            r == self.profile_of(),
    {
        self.profile
    }

    pub fn workspace_id(&self) -> &str {
        self.workspace_id.as_str()
    }

    /// The store, for writing it out.
    pub fn store(&self) -> (r: &ThreadStore)
        requires
            self.wf(),
        ensures
            r.wf(),
            r@ == self.threads(),
    {
        &self.store
    }

    /// Opens a new thread under `id`, created at `now`.
    pub fn handle_thread_start(&mut self, id: &str, now: u64) -> (r: Result<Json, String>)
        requires
            old(self).wf(),
        ensures
            final(self).wf(),
            final(self).active() == old(self).active(),
            old(self).threads().contains_key(id@) ==> reply_view(r) == Err::<JsonValue, Seq<char>>("thread id already in use"@)
                && final(self).threads() == old(self).threads(),
            !old(self).threads().contains_key(id@) ==> reply_view(r) == Ok::<JsonValue, Seq<char>>(thread_ack(id@))
                && final(self).threads() == old(self).threads().insert(id@, fresh_meta(now)),
    {
        if self.store.contains(id) {
            return Err(String::from_str("thread id already in use"));
        }
        self.store.insert_new(String::from_str(id), ThreadMetadata::fresh(now));
        Ok(thread_ack_json(id))
    }

    /// Checks that the thread named in `params` exists.
    pub fn handle_thread_resume(&self, params: &Json) -> (r: Result<Json, String>)
        requires
            self.wf(),
        ensures
            match params@.str_field("threadId"@) {
                None => reply_view(r) == Err::<JsonValue, Seq<char>>("missing threadId"@),
                Some(t) => if self.threads().contains_key(t) {
                    reply_view(r) == Ok::<JsonValue, Seq<char>>(thread_ack(t))
                } else {
                    reply_view(r) == Err::<JsonValue, Seq<char>>("thread not found"@)
                },
            },
    {
        let id = match params.str_field("threadId") {
            Some(t) => t,
            None => return Err(String::from_str("missing threadId")),
        };
        if !self.store.contains(id) {
            return Err(String::from_str("thread not found"));
        }
        Ok(thread_ack_json(id))
    }

    /// Lists the threads that are not archived, in no particular order.
    pub fn handle_thread_list(&self) -> (r: Json)
        requires
            self.wf(),
        ensures
            exists|e: Seq<(Seq<char>, MetaView)>| lists_active(e, self.threads()) && r@ == thread_listing(e),
    {
        let active = self.store.active_threads();
        let ghost e = entries_view(active@);
        let mut items: Vec<Json> = Vec::new();
        let mut i: usize = 0;
        while i < active.len()
            invariant
                e == entries_view(active@),
                i <= active@.len(),
                items_view(items@) == e.subrange(0, i as int).map_values(|x: (Seq<char>, MetaView)| thread_summary(x.0, x.1)),
            decreases active@.len() - i,
        {
            let ghost before = items@;
            let item = thread_summary_json(active[i].0.as_str(), &active[i].1);
            items.push(item);
            assert(e.subrange(0, i + 1) =~= e.subrange(0, i as int).push(e[i as int]));
            assert(items_view(items@) =~= items_view(before).push(thread_summary(e[i as int].0, e[i as int].1)));
            i = i + 1;
        }
        assert(e.subrange(0, i as int) =~= e);
        assert(items_view(items@) == e.map_values(|x: (Seq<char>, MetaView)| thread_summary(x.0, x.1)));
        let r = object1("result", object2("threads", Json::array(items), "hasMore", Json::Bool(false)));
        assert(lists_active(e, self.threads()));
        assert(r@ == thread_listing(e));
        r
    }

    /// Archives the thread named in `params`; archiving is idempotent, and an unknown id
    /// changes nothing.
    pub fn handle_thread_archive(&mut self, params: &Json, now: u64) -> (r: Result<Json, String>)
        requires
            old(self).wf(),
        ensures
            final(self).wf(),
            final(self).active() == old(self).active(),
            match params@.str_field("threadId"@) {
                None => reply_view(r) == Err::<JsonValue, Seq<char>>("missing threadId"@)
                    && final(self).threads() == old(self).threads(),
                Some(t) => reply_view(r) == Ok::<JsonValue, Seq<char>>(empty_result())
                    && final(self).threads() == archived_store(old(self).threads(), t, now),
            },
    {
        let id = match params.str_field("threadId") {
            Some(t) => t,
            None => return Err(String::from_str("missing threadId")),
        };
        self.store.archive(id, now);
        Ok(object1("result", empty_object()))
    }

    /// Sets the display name of the thread named in `params` (an absent name sets the empty
    /// name).
    pub fn handle_thread_name_set(&mut self, params: &Json, now: u64) -> (r: Result<Json, String>)
        requires
            old(self).wf(),
        ensures
            final(self).wf(),
            final(self).active() == old(self).active(),
            match params@.str_field("threadId"@) {
                None => reply_view(r) == Err::<JsonValue, Seq<char>>("missing threadId"@)
                    && final(self).threads() == old(self).threads(),
                Some(t) => reply_view(r) == Ok::<JsonValue, Seq<char>>(empty_result())
                    && final(self).threads() == named_store(
                        old(self).threads(),
                        t,
                        crate::profile::text_or_empty(params@.str_field("name"@)),
                        now,
                    ),
            },
    {
        let id = match params.str_field("threadId") {
            Some(t) => t,
            None => return Err(String::from_str("missing threadId")),
        };
        let name = match params.str_field("name") {
            Some(n) => n,
            None => "",
        };
        self.store.set_name(id, name, now);
        Ok(object1("result", empty_object()))
    }

    /// Forks the thread named in `params` into a new thread `new_id`: its name with a
    /// " (fork)" suffix, none of its session token.
    pub fn handle_thread_fork(&mut self, params: &Json, new_id: &str, now: u64) -> (r: Result<Json, String>)
        requires
            old(self).wf(),
        ensures
            final(self).wf(),
            final(self).active() == old(self).active(),
            match params@.str_field("threadId"@) {
                None => reply_view(r) == Err::<JsonValue, Seq<char>>("missing threadId"@)
                    && final(self).threads() == old(self).threads(),
                Some(t) => if !old(self).threads().contains_key(t) {
                    reply_view(r) == Err::<JsonValue, Seq<char>>("thread not found"@)
                        && final(self).threads() == old(self).threads()
                } else if old(self).threads().contains_key(new_id@) {
                    reply_view(r) == Err::<JsonValue, Seq<char>>("thread id already in use"@) && final(self).threads() == old(self).threads()
                } else {
                    reply_view(r) == Ok::<JsonValue, Seq<char>>(thread_ack(new_id@))
                        && final(self).threads() == old(self).threads().insert(
                        new_id@,
                        fork_meta(old(self).threads()[t], now),
                    )
                },
            },
    {
        let source_id = match params.str_field("threadId") {
            Some(t) => t,
            None => return Err(String::from_str("missing threadId")),
        };
        let name = match self.store.get(source_id) {
            Some(m) => match &m.name {
                Some(n) => Some(n.clone().concat(" (fork)")),
                None => None,
            },
            None => return Err(String::from_str("thread not found")),
        };
        if self.store.contains(new_id) {
            return Err(String::from_str("thread id already in use"));
        }
        let meta = ThreadMetadata { cli_session_id: None, name, created_at: now, updated_at: now, archived: false };
        self.store.insert_new(String::from_str(new_id), meta);
        Ok(thread_ack_json(new_id))
    }

    /// Stops the running turn subprocess, if any: it is handed back to be terminated.
    pub fn interrupt(&mut self) -> (r: Option<u64>)
        requires
            old(self).wf(),
        ensures
            final(self).wf(),
            r == old(self).active(),
            final(self).active() is None,
            final(self).threads() == old(self).threads(),
    {
        self.active_child.take()
    }

    /// Prepares a turn of the thread named in `params`, prompted by its `input` text, under
    /// `turn_id`. The running subprocess, if any, is handed back to be terminated first; the
    /// invocation resumes the thread's stored session.
    pub fn handle_turn_start(&mut self, params: &Json, turn_id: &str) -> (r: (Option<u64>, Result<TurnLaunch, String>))
        requires
            old(self).wf(),
        ensures
            final(self).wf(),
            final(self).threads() == old(self).threads(),
            match (params@.str_field("threadId"@), params@.str_field("input"@)) {
                (None, _) => r.0 is None && final(self).active() == old(self).active()
                    && reply_of(r.1) == Err::<JsonValue, Seq<char>>("missing threadId"@),
                (Some(_), None) => r.0 is None && final(self).active() == old(self).active()
                    && reply_of(r.1) == Err::<JsonValue, Seq<char>>("missing input"@),
                (Some(t), Some(prompt)) => {
                    let session = if old(self).threads().contains_key(t) {
                        old(self).threads()[t].session
                    } else {
                        None
                    };
                    &&& turn_start_effect(old(self).active(), r.0, final(self).active())
                    &&& match turn_command(old(self).profile_of(), old(self).config_of(), session, prompt, old(self).cwd_of()) {
                        Some(c) => r.1 is Ok && r.1->Ok_0.command@ == c && r.1->Ok_0.thread_id@ == t
                            && r.1->Ok_0.turn_id@ == turn_id@ && r.1->Ok_0.ack@ == turn_ack(t, turn_id@),
                        None => r.1 is Err,
                    }
                },
            },
    {
        let thread_id = match params.str_field("threadId") {
            Some(t) => t,
            None => return (None, Err(String::from_str("missing threadId"))),
        };
        let prompt = match params.str_field("input") {
            Some(p) => p,
            None => return (None, Err(String::from_str("missing input"))),
        };
        let session: Option<&str> = match self.store.get(thread_id) {
            Some(m) => match &m.cli_session_id {
                Some(s) => Some(s.as_str()),
                None => None,
            },
            None => None,
        };
        let command = self.profile.build_turn_command(&self.config, session, prompt, self.cwd.as_str());
        let kill = self.active_child.take();
        match command {
            Ok(c) => {
                let ack = object1(
                    "result",
                    object2("turn", object1("id", Json::text(turn_id)), "threadId", Json::text(thread_id)),
                );
                (kill, Ok(TurnLaunch { thread_id: String::from_str(thread_id), turn_id: String::from_str(turn_id), command: c, ack }))
            },
            Err(e) => (kill, Err(e)),
        }
    }

    /// Records the subprocess that now runs the session's turn.
    pub fn turn_spawned(&mut self, child: u64)
        requires
            old(self).wf(),
        ensures
            final(self).wf(),
            spawn_effect(child, final(self).active()),
            final(self).threads() == old(self).threads(),
    {
        self.active_child = Some(child);
    }

    /// Notes that a turn's output ended: its subprocess, where it is still the running one,
    /// is no longer running; the answer says whether it was.
    pub fn turn_ended(&mut self, child: u64) -> (r: bool)
        requires
            old(self).wf(),
        ensures
            final(self).wf(),
            r == (old(self).active() == Some(child)),
            final(self).active() == if r { None } else { old(self).active() },
            final(self).threads() == old(self).threads(),
    {
        match self.active_child {
            Some(c) => if c == child {
                self.active_child = None;
                true
            } else {
                false
            },
            None => false,
        }
    }

    /// Records the session id that a turn's output reported for `thread_id`.
    pub fn record_session_id(&mut self, thread_id: &str, session_id: &str, now: u64)
        requires
            old(self).wf(),
        ensures
            final(self).wf(),
            final(self).active() == old(self).active(),
            final(self).threads() == session_store(old(self).threads(), thread_id@, session_id@, now),
    {
        self.store.set_session_id(thread_id, session_id, now);
    }
}

/// What starting a turn does to the running subprocess: the one that ran is handed back to
/// be terminated, and none runs until the new one is recorded.
pub open spec fn turn_start_effect(before: Option<u64>, kill: Option<u64>, after: Option<u64>) -> bool {
    kill == before && after is None
}

/// What recording a spawned turn subprocess does: it alone runs.
pub open spec fn spawn_effect(child: u64, after: Option<u64>) -> bool {
    after == Some(child)
}

/// A second turn on a session whose first turn's subprocess still runs terminates that
/// subprocess before the second is spawned; afterwards exactly the second one runs.
pub proof fn lemma_second_turn_replaces_first(
    first: u64,
    kill: Option<u64>,
    between: Option<u64>,
    second: u64,
    after: Option<u64>,
)
    requires
        turn_start_effect(Some(first), kill, between),
        spawn_effect(second, after),
    ensures
        kill == Some(first),
        between is None,
        after == Some(second),
{
}

pub open spec fn reply_of(r: Result<TurnLaunch, String>) -> Result<JsonValue, Seq<char>> {
    match r {
        Ok(l) => Ok(l.ack@),
        Err(e) => Err(e@),
    }
}

fn thread_ack_json(id: &str) -> (r: Json)
    ensures
        r@ == thread_ack(id@),
{
    object1("result", object2("threadId", Json::text(id), "thread", object1("id", Json::text(id))))
}

fn thread_summary_json(id: &str, m: &ThreadMetadata) -> (r: Json)
    ensures
        r@ == thread_summary(id@, m@),
{
    let mut v: Vec<(String, Json)> = Vec::new();
    v.push(crate::json::member("id", Json::text(id)));
    v.push(crate::json::member("name", match &m.name {
        Some(n) => Json::text(n.as_str()),
        None => Json::Null,
    }));
    v.push(crate::json::member("createdAt", Json::Number(crate::decimal::u64_to_decimal(m.created_at))));
    v.push(crate::json::member("updatedAt", Json::Number(crate::decimal::u64_to_decimal(m.updated_at))));
    v.push(crate::json::member("archived", Json::Bool(m.archived)));
    let r = Json::object(v);
    assert(r@->Object_0 =~= thread_summary(id@, m@)->Object_0);
    r
}

/// The reply to `initialize`.
pub open spec fn initialize_result(provider: Seq<char>) -> JsonValue {
    obj1(
        "result"@,
        obj2(
            "serverInfo"@,
            obj2("name"@, JsonValue::Str(provider + "-adapter"@), "version"@, JsonValue::Str("0.1.0"@)),
            "capabilities"@,
            empty_obj(),
        ),
    )
}

/// A reply holding one empty list under `key`.
pub open spec fn empty_list_result(key: Seq<char>) -> JsonValue {
    obj1("result"@, obj1(key, JsonValue::Array(Seq::empty())))
}

/// The fixed reply to a capability query, for the methods that have one.
pub open spec fn static_reply(p: CliProfile, provider: Seq<char>, k: RequestMethod) -> Option<JsonValue> {
    match k {
        RequestMethod::Initialize => Some(initialize_result(provider)),
        RequestMethod::ModelList => Some(model_catalog(p)),
        RequestMethod::AccountRead => Some(obj1("result"@, obj1("provider"@, JsonValue::Str(provider)))),
        RequestMethod::AccountRateLimitsRead => Some(obj1("result"@, JsonValue::Null)),
        RequestMethod::CollaborationModeList => Some(empty_list_result("modes"@)),
        RequestMethod::SkillsList => Some(empty_list_result("skills"@)),
        RequestMethod::AppList => Some(empty_list_result("apps"@)),
        RequestMethod::McpServerStatusList => Some(empty_list_result("servers"@)),
        _ => None,
    }
}

/// The reply and the effects of one request answered with `id` as the id of anything it
/// creates and `now` as the time.
pub open spec fn request_outcome(
    old: AdapterSession,
    new: AdapterSession,
    r: Outcome,
    method: Seq<char>,
    params: JsonValue,
    id: Seq<char>,
    now: u64,
) -> bool {
    let k = method_kind(method);
    let tid = params.str_field("threadId"@);
    &&& new.wf()
    &&& (k == RequestMethod::Unsupported ==> reply_view(r.reply) == Err::<JsonValue, Seq<char>>(unsupported_error(method))
        && new.threads() == old.threads() && new.active() == old.active()
        && !r.persist && r.kill is None && r.launch is None)
    &&& (static_reply(old.profile_of(), old.provider(), k) is Some ==> reply_view(r.reply) == Ok::<JsonValue, Seq<char>>(
        static_reply(old.profile_of(), old.provider(), k)->Some_0,
    ) && new.threads() == old.threads() && new.active() == old.active() && !r.persist
        && r.kill is None && r.launch is None)
    &&& (k == RequestMethod::ThreadStart ==> r.kill is None && r.launch is None
        && r.persist == (r.reply is Ok) && new.active() == old.active()
        && (if old.threads().contains_key(id) {
            reply_view(r.reply) == Err::<JsonValue, Seq<char>>("thread id already in use"@) && new.threads() == old.threads()
        } else {
            reply_view(r.reply) == Ok::<JsonValue, Seq<char>>(thread_ack(id))
                && new.threads() == old.threads().insert(id, fresh_meta(now))
        }))
    &&& (k == RequestMethod::ThreadResume ==> new.threads() == old.threads() && new.active() == old.active()
        && !r.persist && r.kill is None && r.launch is None
        && match tid {
            None => reply_view(r.reply) == Err::<JsonValue, Seq<char>>("missing threadId"@),
            Some(t) => if old.threads().contains_key(t) {
                reply_view(r.reply) == Ok::<JsonValue, Seq<char>>(thread_ack(t))
            } else {
                reply_view(r.reply) == Err::<JsonValue, Seq<char>>("thread not found"@)
            },
        })
    &&& (k == RequestMethod::ThreadList ==> new.threads() == old.threads() && new.active() == old.active()
        && !r.persist && r.kill is None && r.launch is None
        && exists|e: Seq<(Seq<char>, MetaView)>| lists_active(e, old.threads())
            && reply_view(r.reply) == Ok::<JsonValue, Seq<char>>(thread_listing(e)))
    &&& (k == RequestMethod::ThreadArchive ==> new.active() == old.active() && r.kill is None && r.launch is None
        && match tid {
            None => reply_view(r.reply) == Err::<JsonValue, Seq<char>>("missing threadId"@)
                && new.threads() == old.threads() && !r.persist,
            Some(t) => reply_view(r.reply) == Ok::<JsonValue, Seq<char>>(empty_result()) && r.persist
                && new.threads() == archived_store(old.threads(), t, now),
        })
    &&& (k == RequestMethod::ThreadNameSet ==> new.active() == old.active() && r.kill is None && r.launch is None
        && match tid {
            None => reply_view(r.reply) == Err::<JsonValue, Seq<char>>("missing threadId"@)
                && new.threads() == old.threads() && !r.persist,
            Some(t) => reply_view(r.reply) == Ok::<JsonValue, Seq<char>>(empty_result()) && r.persist
                && new.threads() == named_store(
                old.threads(),
                t,
                crate::profile::text_or_empty(params.str_field("name"@)),
                now,
            ),
        })
    &&& (k == RequestMethod::ThreadFork ==> new.active() == old.active() && r.kill is None && r.launch is None
        && r.persist == (r.reply is Ok)
        && match tid {
            None => reply_view(r.reply) == Err::<JsonValue, Seq<char>>("missing threadId"@)
                && new.threads() == old.threads(),
            Some(t) => if !old.threads().contains_key(t) {
                reply_view(r.reply) == Err::<JsonValue, Seq<char>>("thread not found"@)
                    && new.threads() == old.threads()
            } else if old.threads().contains_key(id) {
                reply_view(r.reply) == Err::<JsonValue, Seq<char>>("thread id already in use"@)
                    && new.threads() == old.threads()
            } else {
                reply_view(r.reply) == Ok::<JsonValue, Seq<char>>(thread_ack(id))
                    && new.threads() == old.threads().insert(id, fork_meta(old.threads()[t], now))
            },
        })
    &&& (k == RequestMethod::TurnStart ==> new.threads() == old.threads() && !r.persist
        && match (tid, params.str_field("input"@)) {
            (None, _) => r.kill is None && r.launch is None && new.active() == old.active()
                && reply_view(r.reply) == Err::<JsonValue, Seq<char>>("missing threadId"@),
            (Some(_), None) => r.kill is None && r.launch is None && new.active() == old.active()
                && reply_view(r.reply) == Err::<JsonValue, Seq<char>>("missing input"@),
            (Some(t), Some(prompt)) => {
                let session = if old.threads().contains_key(t) {
                    old.threads()[t].session
                } else {
                    None
                };
                &&& turn_start_effect(old.active(), r.kill, new.active())
                &&& match turn_command(old.profile_of(), old.config_of(), session, prompt, old.cwd_of()) {
                    Some(c) => r.launch is Some && r.launch->Some_0.command@ == c
                        && r.launch->Some_0.thread_id@ == t && r.launch->Some_0.turn_id@ == id
                        && r.launch->Some_0.ack@ == turn_ack(t, id)
                        && reply_view(r.reply) == Ok::<JsonValue, Seq<char>>(turn_ack(t, id)),
                    None => r.launch is None && r.reply is Err,
                }
            },
        })
    &&& (k == RequestMethod::TurnInterrupt ==> reply_view(r.reply) == Ok::<JsonValue, Seq<char>>(empty_result())
        && r.kill == old.active() && new.active() is None
        && new.threads() == old.threads() && !r.persist && r.launch is None)
}

fn empty_list_json(key: &str) -> (r: Json)
    ensures
        r@ == empty_list_result(key@),
{
    let items: Vec<Json> = Vec::new();
    let a = Json::array(items);
    assert(a@ == JsonValue::Array(Seq::<JsonValue>::empty())) by {
        assert(items_view(items@) =~= Seq::<JsonValue>::empty());
    }
    object1("result", object1(key, a))
}

fn done(reply: Result<Json, String>, persist: bool) -> (r: Outcome)
    ensures
        reply_view(r.reply) == reply_view(reply),
        r.persist == persist,
        r.kill is None,
        r.launch is None,
{
    Outcome { reply, persist, kill: None, launch: None }
}

impl AdapterSession {
    /// The fixed reply to a capability query.
    pub fn static_reply(&self, k: RequestMethod) -> (r: Option<Json>)
        ensures
            opt_json_view(r) == static_reply(self.profile_of(), self.provider(), k),
    {
        let provider = self.config.cli_type.as_str();
        match k {
            RequestMethod::Initialize => {
                let name = String::from_str(provider).concat("-adapter");
                let info = object2("name", Json::text(name.as_str()), "version", Json::text("0.1.0"));
                Some(object1("result", object2("serverInfo", info, "capabilities", empty_object())))
            },
            RequestMethod::ModelList => Some(self.profile.model_list()),
            RequestMethod::AccountRead => Some(object1("result", object1("provider", Json::text(provider)))),
            RequestMethod::AccountRateLimitsRead => Some(object1("result", Json::Null)),
            RequestMethod::CollaborationModeList => Some(empty_list_json("modes")),
            RequestMethod::SkillsList => Some(empty_list_json("skills")),
            RequestMethod::AppList => Some(empty_list_json("apps")),
            RequestMethod::McpServerStatusList => Some(empty_list_json("servers")),
            _ => None,
        }
    }

    /// Answers one request, with `new_id` as the id of anything it creates and `now` as the
    /// time.
    pub fn send_request_with(&mut self, method: &str, params: &Json, new_id: &str, now: u64) -> (r: Outcome)
        requires
            old(self).wf(),
        ensures
            final(self).wf(),
            request_outcome(*old(self), *final(self), r, method@, params@, new_id@, now),
    {
        let kind = classify_method(method);
        if let Some(reply) = self.static_reply(kind) {
            return done(Ok(reply), false);
        }
        match kind {
            RequestMethod::ThreadStart => {
                let reply = self.handle_thread_start(new_id, now);
                let ok = reply.is_ok();
                done(reply, ok)
            },
            RequestMethod::ThreadResume => done(self.handle_thread_resume(params), false),
            RequestMethod::ThreadFork => {
                let reply = self.handle_thread_fork(params, new_id, now);
                let ok = reply.is_ok();
                done(reply, ok)
            },
            RequestMethod::ThreadList => done(Ok(self.handle_thread_list()), false),
            RequestMethod::ThreadArchive => {
                let reply = self.handle_thread_archive(params, now);
                let ok = reply.is_ok();
                done(reply, ok)
            },
            RequestMethod::ThreadNameSet => {
                let reply = self.handle_thread_name_set(params, now);
                let ok = reply.is_ok();
                done(reply, ok)
            },
            RequestMethod::TurnStart => {
                let (kill, plan) = self.handle_turn_start(params, new_id);
                match plan {
                    Ok(launch) => {
                        let reply = Ok(launch.ack.deep_clone());
                        Outcome { reply, persist: false, kill, launch: Some(launch) }
                    },
                    Err(e) => Outcome { reply: Err(e), persist: false, kill, launch: None },
                }
            },
            RequestMethod::TurnInterrupt => {
                let kill = self.interrupt();
                Outcome { reply: Ok(object1("result", empty_object())), persist: false, kill, launch: None }
            },
            _ => {
                let msg = String::from_str("unsupported method: ").concat(method);
                done(Err(msg), false)
            },
        }
    }
}

/// Whether an event completes its turn.
pub open spec fn is_completion(ev: JsonValue) -> bool {
    method_of(ev) == Some("turn/completed"@)
}

/// How many of the events complete a turn.
pub open spec fn completions(s: Seq<JsonValue>) -> nat
    decreases s.len(),
{
    if s.len() == 0 {
        0
    } else {
        completions(s.drop_last()) + if is_completion(s.last()) { 1nat } else { 0nat }
    }
}

/// The events that a turn's output lines give, in order.
pub open spec fn stream_events(p: CliProfile, lines: Seq<Seq<char>>, thread: Seq<char>, turn: Seq<char>) -> Seq<JsonValue>
    decreases lines.len(),
{
    if lines.len() == 0 {
        Seq::empty()
    } else {
        let prev = stream_events(p, lines.drop_last(), thread, turn);
        match line_event(p, lines.last(), thread, turn) {
            Some(e) => prev.push(e),
            None => prev,
        }
    }
}

/// Every event of a turn: those of its output, then a completion of the session's own where
/// the output gave none.
pub open spec fn turn_events(p: CliProfile, lines: Seq<Seq<char>>, thread: Seq<char>, turn: Seq<char>) -> Seq<JsonValue> {
    let s = stream_events(p, lines, thread, turn);
    if completions(s) == 0 {
        s.push(turn_completed_fallback(thread, turn))
    } else {
        s
    }
}

/// What one output line gave: the session id it reported and the event it stands for.
#[derive(Debug)]
pub struct LineOutput {
    pub session_id: Option<String>,
    pub event: Option<Json>,
}

/// The translation of one turn's output, line by line.
pub struct TurnStream {
    profile: CliProfile,
    thread_id: String,
    turn_id: String,
    completed: bool,
    lines: Ghost<Seq<Seq<char>>>,
}

proof fn lemma_fallback_completes(thread: Seq<char>, turn: Seq<char>)
    ensures
        is_completion(turn_completed_fallback(thread, turn)),
{
    crate::json::lemma_lookup_at(turn_completed_fallback(thread, turn)->Object_0, 0, "method"@);
}

impl TurnStream {
    pub closed spec fn wf(&self) -> bool {
        self.completed == (completions(self.events()) > 0)
    }

    /// The output lines read so far.
    pub closed spec fn lines(&self) -> Seq<Seq<char>> {
        self.lines@
    }

    pub closed spec fn spec_profile(&self) -> CliProfile {
        self.profile
    }

    pub closed spec fn thread(&self) -> Seq<char> {
        self.thread_id@
    }

    pub closed spec fn turn(&self) -> Seq<char> {
        self.turn_id@
    }

    /// The events that the lines read so far gave.
    pub open spec fn events(&self) -> Seq<JsonValue> {
        stream_events(self.spec_profile(), self.lines(), self.thread(), self.turn())
    }

    /// The translation of a turn that has produced no output yet.
    pub fn new(profile: CliProfile, thread_id: &str, turn_id: &str) -> (r: TurnStream)
        ensures
            r.wf(),
            r.lines() == Seq::<Seq<char>>::empty(),
            r.spec_profile() == profile,
            r.thread() == thread_id@,
            r.turn() == turn_id@,
    {
        TurnStream {
            profile,
            thread_id: String::from_str(thread_id),
            turn_id: String::from_str(turn_id),
            completed: false,
            lines: Ghost(Seq::empty()),
        }
    }

    pub fn thread_id(&self) -> (r: &str)
        ensures
            r@ == self.thread(),
    {
        self.thread_id.as_str()
    }

    /// Translates the next output line.
    pub fn on_line(&mut self, line: &str) -> (r: LineOutput)
        requires
            old(self).wf(),
        ensures
            final(self).wf(),
            final(self).lines() == old(self).lines().push(line@),
            final(self).spec_profile() == old(self).spec_profile(),
            final(self).thread() == old(self).thread(),
            final(self).turn() == old(self).turn(),
            opt_string_view(r.session_id) == line_session_id(old(self).spec_profile(), line@),
            opt_json_view(r.event) == line_event(old(self).spec_profile(), line@, old(self).thread(), old(self).turn()),
    {
        let session_id = self.profile.extract_session_id(line);
        let event = self.profile.parse_stream_line(line, self.thread_id.as_str(), self.turn_id.as_str());
        let ghost old_events = self.events();
        self.lines = Ghost(self.lines@.push(line@));
        proof {
            assert(self.lines@.drop_last() =~= old(self).lines@);
        }
        if let Some(ev) = &event {
            let m = ev.str_field("method");
            if let Some(name) = m {
                if str_eq(name, "turn/completed") {
                    self.completed = true;
                }
            }
            proof {
                assert(self.events() == old_events.push(ev@));
                assert(self.events().drop_last() =~= old_events);
            }
        }
        LineOutput { session_id, event }
    }

    /// Ends the turn's output: the completion that the session supplies where the output
    /// gave none. A turn thus completes exactly once where its output never completed it.
    pub fn finish(&self) -> (r: Option<Json>)
        requires
            self.wf(),
        ensures
            r is Some <==> completions(self.events()) == 0,
            match r {
                Some(ev) => ev@ == turn_completed_fallback(self.thread(), self.turn()),
                None => true,
            },
            turn_events(self.spec_profile(), self.lines(), self.thread(), self.turn())
                == self.events() + match r {
                    Some(ev) => seq![ev@],
                    None => Seq::empty(),
                },
    {
        if self.completed {
            assert(self.events() + Seq::<JsonValue>::empty() =~= self.events());
            None
        } else {
            let ev = turn_completed_fallback_event(self.thread_id.as_str(), self.turn_id.as_str());
            assert(self.events().push(ev@) =~= self.events() + seq![ev@]);
            Some(ev)
        }
    }
}

/// A turn whose output never completes it still completes exactly once: the session supplies
/// the completion, as the last event.
pub proof fn lemma_turn_completes_once(p: CliProfile, lines: Seq<Seq<char>>, thread: Seq<char>, turn: Seq<char>)
    requires
        forall|i: int| 0 <= i < lines.len() ==> match #[trigger] line_event(p, lines[i], thread, turn) {
            Some(e) => !is_completion(e),
            None => true,
        },
    ensures
        completions(turn_events(p, lines, thread, turn)) == 1,
        turn_events(p, lines, thread, turn).last() == turn_completed_fallback(thread, turn),
{
    lemma_no_completions(p, lines, thread, turn);
    lemma_fallback_completes(thread, turn);
    let s = stream_events(p, lines, thread, turn);
    assert(s.push(turn_completed_fallback(thread, turn)).drop_last() =~= s);
}

proof fn lemma_no_completions(p: CliProfile, lines: Seq<Seq<char>>, thread: Seq<char>, turn: Seq<char>)
    requires
        forall|i: int| 0 <= i < lines.len() ==> match #[trigger] line_event(p, lines[i], thread, turn) {
            Some(e) => !is_completion(e),
            None => true,
        },
    ensures
        completions(stream_events(p, lines, thread, turn)) == 0,
    decreases lines.len(),
{
    if lines.len() > 0 {
        let t = lines.drop_last();
        assert forall|i: int| 0 <= i < t.len() implies match #[trigger] line_event(p, t[i], thread, turn) {
            Some(e) => !is_completion(e),
            None => true,
        } by {
            assert(t[i] == lines[i]);
        }
        lemma_no_completions(p, t, thread, turn);
        let prev = stream_events(p, t, thread, turn);
        assert(line_event(p, lines[lines.len() - 1], thread, turn) == line_event(p, lines.last(), thread, turn));
        match line_event(p, lines.last(), thread, turn) {
            Some(e) => {
                assert(prev.push(e).drop_last() =~= prev);
            },
            None => {},
        }
    }
}

/// Whatever a turn's output, its events complete it at least once.
pub proof fn lemma_turn_always_completes(p: CliProfile, lines: Seq<Seq<char>>, thread: Seq<char>, turn: Seq<char>)
    ensures
        completions(turn_events(p, lines, thread, turn)) >= 1,
{
    let s = stream_events(p, lines, thread, turn);
    if completions(s) == 0 {
        lemma_fallback_completes(thread, turn);
        assert(s.push(turn_completed_fallback(thread, turn)).drop_last() =~= s);
    }
}

/// Archiving a thread takes it out of listings but keeps it, so it can still be resumed.
pub proof fn lemma_archive_keeps_thread(m: StoreView, id: Seq<char>, now: u64)
    requires
        m.contains_key(id),
    ensures
        !listed(archived_store(m, id, now), id),
        archived_store(m, id, now).contains_key(id),
        archived_store(m, id, now)[id].session == m[id].session,
        archived_store(m, id, now)[id].name == m[id].name,
        forall|k: Seq<char>| k != id ==> (listed(archived_store(m, id, now), k) <==> listed(m, k)),
{
}

/// Archiving again changes nothing but the time the thread was touched.
pub proof fn lemma_archive_idempotent(m: StoreView, id: Seq<char>, first: u64, second: u64)
    ensures
        archived_store(archived_store(m, id, first), id, second) == archived_store(m, id, second),
{
    if m.contains_key(id) {
        assert(archived_store(archived_store(m, id, first), id, second) =~= archived_store(m, id, second));
    }
}

/// A fork has a new id, its source's name with " (fork)" appended where the source has a
/// name, no session token, and leaves its source as it was.
pub proof fn lemma_fork_independent(m: StoreView, source: Seq<char>, new_id: Seq<char>, now: u64)
    requires
        m.contains_key(source),
        !m.contains_key(new_id),
    ensures
        new_id != source,
        m.insert(new_id, fork_meta(m[source], now))[new_id].session is None,
        m[source].name is Some ==> m.insert(new_id, fork_meta(m[source], now))[new_id].name == Some(
            m[source].name->Some_0 + " (fork)"@,
        ),
        m[source].name is None ==> m.insert(new_id, fork_meta(m[source], now))[new_id].name is None,
        m.insert(new_id, fork_meta(m[source], now))[source] == m[source],
{
}

/// The error for a method outside the surface ends with that method's name.
pub proof fn lemma_unsupported_error_names_method(method: Seq<char>)
    requires
        !is_supported(method),
    ensures
        crate::text::has_suffix(unsupported_error(method), method),
{
    let e = unsupported_error(method);
    assert(e.subrange(e.len() - method.len(), e.len() as int) =~= method);
}

/// Relies on uuid::Uuid::new_v4 and its hyphenated text form: a fresh random identifier for
/// a thread or a turn.
#[verifier::external_body]
fn new_uuid() -> (r: String) {
    uuid::Uuid::new_v4().to_string()
}

/// Relies on std::time::SystemTime::now: whole seconds since the Unix epoch, or 0 where the
/// clock reads earlier than the epoch.
#[verifier::external_body]
pub fn now_epoch() -> (r: u64) {
    std::time::SystemTime::now().duration_since(std::time::UNIX_EPOCH).map(|d| d.as_secs()).unwrap_or(0)
}

impl AdapterSession {
    /// Answers one request, with a fresh id for anything it creates and the current time.
    pub fn send_request(&mut self, method: &str, params: &Json) -> (r: Outcome)
        requires
            old(self).wf(),
        ensures
            final(self).wf(),
            exists|id: Seq<char>, now: u64| request_outcome(*old(self), *final(self), r, method@, params@, id, now),
    {
        let id = new_uuid();
        let now = now_epoch();
        let r = self.send_request_with(method, params, id.as_str(), now);
        assert(request_outcome(*old(self), *self, r, method@, params@, id@, now));
        r
    }
}

} // verus!
