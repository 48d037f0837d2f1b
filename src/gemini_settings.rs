//! The Gemini CLI's `settings.json`: its typed form, how a text decodes to it, and how
//! project settings override user settings.
use vstd::prelude::*;
use crate::decimal::{digits_value, is_numeral, parse_u64};
use crate::json::{Json, JsonValue, lookup, members_view, items_view, opt_string_view, parse_json, parsed_json};
use crate::text::{is_blank, is_blank_str, str_eq};

verus! {

#[derive(Debug, Default)]
pub struct GeminiModelSettings {
    pub name: Option<String>,
    pub max_session_turns: Option<u32>,
    pub compression_threshold: Option<u32>,
}

#[derive(Debug, Default)]
pub struct GeminiOutputSettings {
    pub format: Option<String>,
}

#[derive(Debug, Default)]
pub struct GeminiAccessibilitySettings {
    pub screen_reader: Option<bool>,
}

#[derive(Debug, Default)]
pub struct GeminiUiSettings {
    pub theme: Option<String>,
    pub custom_themes: Option<Json>,
    pub hide_window_title: Option<bool>,
    pub hide_banner: Option<bool>,
    pub hide_footer: Option<bool>,
    pub accessibility: Option<GeminiAccessibilitySettings>,
}

#[derive(Debug, Default)]
pub struct GeminiCheckpointSettings {
    pub enabled: Option<bool>,
}

#[derive(Debug, Default)]
pub struct GeminiPrivacySettings {
    pub usage_statistics_enabled: Option<bool>,
}

#[derive(Debug, Default)]
pub struct GeminiToolSettings {
    pub auto_accept_safe: Option<bool>,
}

#[derive(Debug, Default)]
pub struct GeminiMcpServerConfig {
    pub command: Option<String>,
    pub args: Option<Vec<String>>,
    /// Variable name to value, in the file's order.
    pub env: Option<Vec<(String, String)>>,
    pub cwd: Option<String>,
    pub enabled: Option<bool>,
}

#[derive(Debug, Default)]
pub struct GeminiMcpSettings {
    /// Server name to configuration, in the file's order.
    pub servers: Option<Vec<(String, GeminiMcpServerConfig)>>,
}

#[derive(Debug, Default)]
pub struct GeminiIdeSettings {
    pub enabled: Option<bool>,
}

/// The settings file's content. Members of other names are kept in `extra`.
#[derive(Debug, Default)]
pub struct GeminiSettings {
    pub preview_features: Option<bool>,
    pub vim_mode: Option<bool>,
    pub enable_auto_update: Option<bool>,
    pub model: Option<GeminiModelSettings>,
    pub output: Option<GeminiOutputSettings>,
    pub ui: Option<GeminiUiSettings>,
    pub checkpointing: Option<GeminiCheckpointSettings>,
    pub privacy: Option<GeminiPrivacySettings>,
    pub tools: Option<GeminiToolSettings>,
    pub mcp: Option<GeminiMcpSettings>,
    pub sandbox: Option<Json>,
    pub ide: Option<GeminiIdeSettings>,
    pub hooks: Option<Json>,
    pub extra: Vec<(String, Json)>,
}

/// An optional member: absent or `null` reads as nothing.
pub open spec fn present(v: Option<JsonValue>) -> Option<JsonValue> {
    match v {
        Some(JsonValue::Null) => None,
        other => other,
    }
}

pub open spec fn bool_ok(v: Option<JsonValue>) -> bool {
    match present(v) {
        None => true,
        Some(JsonValue::Bool(_)) => true,
        _ => false,
    }
}

pub open spec fn str_ok(v: Option<JsonValue>) -> bool {
    match present(v) {
        None => true,
        Some(JsonValue::Str(_)) => true,
        _ => false,
    }
}

pub open spec fn u32_ok(v: Option<JsonValue>) -> bool {
    match present(v) {
        None => true,
        Some(JsonValue::Number(t)) => is_numeral(t) && digits_value(t) <= u32::MAX,
        _ => false,
    }
}

pub open spec fn all_strings(s: Seq<JsonValue>) -> bool {
    forall|i: int| 0 <= i < s.len() ==> #[trigger] s[i] is Str
}

pub open spec fn all_string_members(m: Seq<(Seq<char>, JsonValue)>) -> bool {
    forall|i: int| 0 <= i < m.len() ==> #[trigger] m[i].1 is Str
}

/// Whether an MCP server entry has the types its fields need.
pub open spec fn server_ok(v: JsonValue) -> bool {
    &&& v is Object
    &&& str_ok(v.field("command"@))
    &&& match present(v.field("args"@)) {
        None => true,
        Some(JsonValue::Array(a)) => all_strings(a),
        _ => false,
    }
    &&& match present(v.field("env"@)) {
        None => true,
        Some(JsonValue::Object(m)) => all_string_members(m),
        _ => false,
    }
    &&& str_ok(v.field("cwd"@))
    &&& bool_ok(v.field("enabled"@))
}

/// Whether an optional object member is absent, `null`, or an object meeting `ok`.
pub open spec fn section_ok(v: Option<JsonValue>, ok: spec_fn(JsonValue) -> bool) -> bool {
    match present(v) {
        None => true,
        Some(o) => o is Object && ok(o),
    }
}

pub open spec fn model_ok(v: JsonValue) -> bool {
    str_ok(v.field("name"@)) && u32_ok(v.field("maxSessionTurns"@)) && u32_ok(v.field("compressionThreshold"@))
}

pub open spec fn ui_ok(v: JsonValue) -> bool {
    &&& str_ok(v.field("theme"@))
    &&& bool_ok(v.field("hideWindowTitle"@))
    &&& bool_ok(v.field("hideBanner"@))
    &&& bool_ok(v.field("hideFooter"@))
    &&& section_ok(v.field("accessibility"@), |a: JsonValue| bool_ok(a.field("screenReader"@)))
}

pub open spec fn servers_ok(m: Seq<(Seq<char>, JsonValue)>) -> bool {
    forall|i: int| 0 <= i < m.len() ==> server_ok(#[trigger] m[i].1)
}

pub open spec fn mcp_ok(v: JsonValue) -> bool {
    match present(v.field("servers"@)) {
        None => true,
        Some(JsonValue::Object(m)) => servers_ok(m),
        _ => false,
    }
}

/// Whether a JSON value has the shape of a settings file: an object whose known members
/// have the types the settings need.
pub open spec fn settings_ok(v: JsonValue) -> bool {
    &&& v is Object
    &&& bool_ok(v.field("previewFeatures"@))
    &&& bool_ok(v.field("vimMode"@))
    &&& bool_ok(v.field("enableAutoUpdate"@))
    &&& section_ok(v.field("model"@), |m: JsonValue| model_ok(m))
    &&& section_ok(v.field("output"@), |o: JsonValue| str_ok(o.field("format"@)))
    &&& section_ok(v.field("ui"@), |u: JsonValue| ui_ok(u))
    &&& section_ok(v.field("checkpointing"@), |c: JsonValue| bool_ok(c.field("enabled"@)))
    &&& section_ok(v.field("privacy"@), |p: JsonValue| bool_ok(p.field("usageStatisticsEnabled"@)))
    &&& section_ok(v.field("tools"@), |t: JsonValue| bool_ok(t.field("autoAcceptSafe"@)))
    &&& section_ok(v.field("mcp"@), |m: JsonValue| mcp_ok(m))
    &&& section_ok(v.field("ide"@), |i: JsonValue| bool_ok(i.field("enabled"@)))
}

/// The model name that a settings value names.
pub open spec fn model_name_of(v: JsonValue) -> Option<Seq<char>> {
    match present(v.field("model"@)) {
        Some(m) => match present(m.field("name"@)) {
            Some(JsonValue::Str(n)) => Some(n),
            _ => None,
        },
        None => None,
    }
}

fn present_exec(v: Option<&Json>) -> (r: Option<&Json>)
    ensures
        crate::thread_store::opt_ref_view(r) == present(crate::thread_store::opt_ref_view(v)),
{
    match v {
        Some(Json::Null) => None,
        other => other,
    }
}

fn read_bool(v: &Json, key: &str) -> (r: Result<Option<bool>, ()>)
    ensures
        r is Ok <==> bool_ok(v@.field(key@)),
        match r {
            Ok(Some(b)) => present(v@.field(key@)) == Some(JsonValue::Bool(b)),
            Ok(None) => present(v@.field(key@)) is None,
            Err(_) => true,
        },
{
    match present_exec(v.get(key)) {
        None => Ok(None),
        Some(Json::Bool(b)) => Ok(Some(*b)),
        _ => Err(()),
    }
}

fn read_string(v: &Json, key: &str) -> (r: Result<Option<String>, ()>)
    ensures
        r is Ok <==> str_ok(v@.field(key@)),
        match r {
            Ok(Some(s)) => present(v@.field(key@)) == Some(JsonValue::Str(s@)),
            Ok(None) => present(v@.field(key@)) is None,
            Err(_) => true,
        },
{
    match present_exec(v.get(key)) {
        None => Ok(None),
        Some(Json::Str(s)) => Ok(Some(s.clone())),
        _ => Err(()),
    }
}

fn read_u32(v: &Json, key: &str) -> (r: Result<Option<u32>, ()>)
    ensures
        r is Ok <==> u32_ok(v@.field(key@)),
        match r {
            Ok(Some(n)) => present(v@.field(key@)) matches Some(JsonValue::Number(t)) && n == digits_value(t),
            Ok(None) => present(v@.field(key@)) is None,
            Err(_) => true,
        },
{
    match present_exec(v.get(key)) {
        None => Ok(None),
        Some(Json::Number(t)) => match parse_u64(t.as_str()) {
            Some(n) => if n <= u32::MAX as u64 {
                Ok(Some(n as u32))
            } else {
                Err(())
            },
            None => Err(()),
        },
        _ => Err(()),
    }
}

fn read_any(v: &Json, key: &str) -> (r: Option<Json>)
    ensures
        crate::json::opt_json_view(r) == present(v@.field(key@)),
{
    match present_exec(v.get(key)) {
        Some(x) => Some(x.deep_clone()),
        None => None,
    }
}

impl GeminiModelSettings {
    pub fn from_json(v: &Json) -> (r: Result<GeminiModelSettings, ()>)
        ensures
            r is Ok <==> model_ok(v@),
            r matches Ok(m) ==> opt_string_view(m.name) == match present(v@.field("name"@)) {
                Some(JsonValue::Str(n)) => Some(n),
                _ => None,
            },
    {
        let name = read_string(v, "name")?;
        let max_session_turns = read_u32(v, "maxSessionTurns")?;
        let compression_threshold = read_u32(v, "compressionThreshold")?;
        Ok(GeminiModelSettings { name, max_session_turns, compression_threshold })
    }
}

impl GeminiUiSettings {
    pub fn from_json(v: &Json) -> (r: Result<GeminiUiSettings, ()>)
        ensures
            r is Ok <==> ui_ok(v@),
    {
        let theme = read_string(v, "theme")?;
        let custom_themes = read_any(v, "customThemes");
        let hide_window_title = read_bool(v, "hideWindowTitle")?;
        let hide_banner = read_bool(v, "hideBanner")?;
        let hide_footer = read_bool(v, "hideFooter")?;
        let accessibility = match present_exec(v.get("accessibility")) {
            None => None,
            Some(a) => {
                if a.as_object().is_none() {
                    return Err(());
                }
                Some(GeminiAccessibilitySettings { screen_reader: read_bool(a, "screenReader")? })
            },
        };
        Ok(GeminiUiSettings { theme, custom_themes, hide_window_title, hide_banner, hide_footer, accessibility })
    }
}

impl GeminiMcpServerConfig {
    pub fn from_json(v: &Json) -> (r: Result<GeminiMcpServerConfig, ()>)
        ensures
            r is Ok <==> server_ok(v@),
    {
        if v.as_object().is_none() {
            return Err(());
        }
        let command = read_string(v, "command")?;
        let args = match present_exec(v.get("args")) {
            None => None,
            Some(a) => match a.as_array() {
                Some(items) => {
                    let ghost iv = items_view(items@);
                    let mut out: Vec<String> = Vec::new();
                    let mut i: usize = 0;
                    while i < items.len()
                        invariant
                            iv == items_view(items@),
                            present(v@.field("args"@)) == Some(JsonValue::Array(iv)),
                            i <= items@.len(),
                            forall|k: int| 0 <= k < i ==> #[trigger] iv[k] is Str,
                        decreases items@.len() - i,
                    {
                        match &items[i] {
                            Json::Str(s) => out.push(s.clone()),
                            _ => {
                                assert(!(iv[i as int] is Str));
                                return Err(());
                            },
                        }
                        i = i + 1;
                    }
                    Some(out)
                },
                None => return Err(()),
            },
        };
        let env = match present_exec(v.get("env")) {
            None => None,
            Some(e) => match e.as_object() {
                Some(members) => {
                    let ghost mv = members_view(members@);
                    let mut out: Vec<(String, String)> = Vec::new();
                    let mut i: usize = 0;
                    while i < members.len()
                        invariant
                            mv == members_view(members@),
                            present(v@.field("env"@)) == Some(JsonValue::Object(mv)),
                            i <= members@.len(),
                            forall|k: int| 0 <= k < i ==> #[trigger] mv[k].1 is Str,
                        decreases members@.len() - i,
                    {
                        match &members[i].1 {
                            Json::Str(s) => out.push((members[i].0.clone(), s.clone())),
                            _ => {
                                assert(!(mv[i as int].1 is Str));
                                return Err(());
                            },
                        }
                        i = i + 1;
                    }
                    Some(out)
                },
                None => return Err(()),
            },
        };
        let cwd = read_string(v, "cwd")?;
        let enabled = read_bool(v, "enabled")?;
        Ok(GeminiMcpServerConfig { command, args, env, cwd, enabled })
    }
}

impl GeminiMcpSettings {
    pub fn from_json(v: &Json) -> (r: Result<GeminiMcpSettings, ()>)
        ensures
            r is Ok <==> mcp_ok(v@),
    {
        let servers = match present_exec(v.get("servers")) {
            None => None,
            Some(s) => match s.as_object() {
                Some(members) => {
                    let ghost mv = members_view(members@);
                    let mut out: Vec<(String, GeminiMcpServerConfig)> = Vec::new();
                    let mut i: usize = 0;
                    while i < members.len()
                        invariant
                            mv == members_view(members@),
                            present(v@.field("servers"@)) == Some(JsonValue::Object(mv)),
                            i <= members@.len(),
                            forall|k: int| 0 <= k < i ==> server_ok(#[trigger] mv[k].1),
                        decreases members@.len() - i,
                    {
                        assert(mv[i as int].1 == members@[i as int].1@);
                        let c = match GeminiMcpServerConfig::from_json(&members[i].1) {
                            Ok(c) => c,
                            Err(e) => {
                                assert(!server_ok(mv[i as int].1));
                                assert(i < mv.len());
                                assert(!servers_ok(mv));
                                return Err(e);
                            },
                        };
                        out.push((members[i].0.clone(), c));
                        i = i + 1;
                    }
                    Some(out)
                },
                None => return Err(()),
            },
        };
        Ok(GeminiMcpSettings { servers })
    }
}

/// The names that the settings read; others go to `extra`.
pub open spec fn is_known_key(k: Seq<char>) -> bool {
    k == "previewFeatures"@ || k == "vimMode"@ || k == "enableAutoUpdate"@ || k == "model"@ || k == "output"@
        || k == "ui"@ || k == "checkpointing"@ || k == "privacy"@ || k == "tools"@ || k == "mcp"@ || k
        == "sandbox"@ || k == "ide"@ || k == "hooks"@
}

fn known_key(k: &str) -> (r: bool)
    ensures
        r == is_known_key(k@),
{
    str_eq(k, "previewFeatures") || str_eq(k, "vimMode") || str_eq(k, "enableAutoUpdate") || str_eq(k, "model")
        || str_eq(k, "output") || str_eq(k, "ui") || str_eq(k, "checkpointing") || str_eq(k, "privacy")
        || str_eq(k, "tools") || str_eq(k, "mcp") || str_eq(k, "sandbox") || str_eq(k, "ide") || str_eq(
        k,
        "hooks",
    )
}

fn section<'a>(v: &'a Json, key: &str) -> (r: Result<Option<&'a Json>, ()>)
    ensures
        match r {
            Ok(Some(o)) => present(v@.field(key@)) == Some(o@) && o@ is Object,
            Ok(None) => present(v@.field(key@)) is None,
            Err(_) => present(v@.field(key@)) is Some && !(present(v@.field(key@))->Some_0 is Object),
        },
{
    match present_exec(v.get(key)) {
        None => Ok(None),
        Some(o) => if o.as_object().is_some() {
            Ok(Some(o))
        } else {
            Err(())
        },
    }
}

impl GeminiSettings {
    /// The settings that a JSON value holds, where it has their shape.
    pub fn from_json(v: &Json) -> (r: Result<GeminiSettings, ()>)
        ensures
            r is Ok <==> settings_ok(v@),
            r matches Ok(s) ==> match s.model {
                Some(m) => opt_string_view(m.name) == model_name_of(v@),
                None => model_name_of(v@) is None,
            },
    {
        let members = match v.as_object() {
            Some(m) => m,
            None => return Err(()),
        };
        let preview_features = read_bool(v, "previewFeatures")?;
        let vim_mode = read_bool(v, "vimMode")?;
        let enable_auto_update = read_bool(v, "enableAutoUpdate")?;
        let model = match section(v, "model")? {
            Some(m) => Some(GeminiModelSettings::from_json(m)?),
            None => None,
        };
        let output = match section(v, "output")? {
            Some(o) => Some(GeminiOutputSettings { format: read_string(o, "format")? }),
            None => None,
        };
        let ui = match section(v, "ui")? {
            Some(u) => Some(GeminiUiSettings::from_json(u)?),
            None => None,
        };
        let checkpointing = match section(v, "checkpointing")? {
            Some(c) => Some(GeminiCheckpointSettings { enabled: read_bool(c, "enabled")? }),
            None => None,
        };
        let privacy = match section(v, "privacy")? {
            Some(p) => Some(GeminiPrivacySettings { usage_statistics_enabled: read_bool(p, "usageStatisticsEnabled")? }),
            None => None,
        };
        let tools = match section(v, "tools")? {
            Some(t) => Some(GeminiToolSettings { auto_accept_safe: read_bool(t, "autoAcceptSafe")? }),
            None => None,
        };
        let mcp = match section(v, "mcp")? {
            Some(m) => Some(GeminiMcpSettings::from_json(m)?),
            None => None,
        };
        let ide = match section(v, "ide")? {
            Some(i) => Some(GeminiIdeSettings { enabled: read_bool(i, "enabled")? }),
            None => None,
        };
        let sandbox = read_any(v, "sandbox");
        let hooks = read_any(v, "hooks");
        let mut extra: Vec<(String, Json)> = Vec::new();
        let mut i: usize = 0;
        while i < members.len()
            invariant
                i <= members@.len(),
            decreases members@.len() - i,
        {
            if !known_key(members[i].0.as_str()) {
                extra.push((members[i].0.clone(), members[i].1.deep_clone()));
            }
            i = i + 1;
        }
        Ok(GeminiSettings {
            preview_features,
            vim_mode,
            enable_auto_update,
            model,
            output,
            ui,
            checkpointing,
            privacy,
            tools,
            mcp,
            sandbox,
            ide,
            hooks,
            extra,
        })
    }

    /// The settings that a settings text holds; an error where it is not JSON or lacks their
    /// shape.
    pub fn parse(text: &str) -> (r: Result<GeminiSettings, String>)
        ensures
            r is Ok <==> (parsed_json(text@) is Some && settings_ok(parsed_json(text@)->Some_0)),
            r matches Err(e) ==> crate::text::has_prefix(e@, "Failed to parse settings.json: "@),
            r matches Ok(s) ==> match s.model {
                Some(m) => opt_string_view(m.name) == model_name_of(parsed_json(text@)->Some_0),
                None => model_name_of(parsed_json(text@)->Some_0) is None,
            },
    {
        let v = match parse_json(text) {
            Ok(v) => v,
            Err(e) => {
                let msg = String::from_str("Failed to parse settings.json: ").concat(e.as_str());
                assert(msg@.subrange(0, "Failed to parse settings.json: "@.len() as int) =~= "Failed to parse settings.json: "@);
                return Err(msg);
            },
        };
        match GeminiSettings::from_json(&v) {
            Ok(s) => Ok(s),
            Err(_) => {
                let msg = String::from_str("Failed to parse settings.json: ").concat("unexpected value type");
                assert(msg@.subrange(0, "Failed to parse settings.json: "@.len() as int) =~= "Failed to parse settings.json: "@);
                Err(msg)
            },
        }
    }
}

/// The model name that a settings file's content names: none for a missing or blank file;
/// an error where the content is not a settings file.
pub fn read_settings_model(contents: Option<&str>) -> (r: Result<Option<String>, String>)
    ensures
        match contents {
            None => r == Ok::<Option<String>, String>(None),
            Some(c) => if is_blank(c@) {
                r == Ok::<Option<String>, String>(None)
            } else {
                match parsed_json(c@) {
                    Some(v) => if settings_ok(v) {
                        r is Ok && opt_string_view(r->Ok_0) == model_name_of(v)
                    } else {
                        r is Err
                    },
                    None => r is Err,
                }
            },
        },
        r matches Err(e) ==> crate::text::has_prefix(e@, "Failed to parse settings.json: "@),
{
    let c = match contents {
        Some(c) => c,
        None => return Ok(None),
    };
    if is_blank_str(c) {
        return Ok(None);
    }
    let settings = GeminiSettings::parse(c)?;
    match settings.model {
        Some(m) => Ok(m.name),
        None => Ok(None),
    }
}

/// The path of the settings file in a Gemini home directory.
pub fn settings_json_path(home: Option<&str>) -> (r: Option<String>)
    ensures
        match home {
            Some(h) => r is Some && r->Some_0@ == h@ + "/settings.json"@,
            None => r is None,
        },
{
    match home {
        Some(h) => Some(String::from_str(h).concat("/settings.json")),
        None => None,
    }
}

fn pick<T>(project: Option<T>, user: Option<T>) -> (r: Option<T>)
    ensures
        r == if project is Some { project } else { user },
{
    if project.is_some() {
        project
    } else {
        user
    }
}

/// Whether the settings set nothing.
pub open spec fn settings_unset(s: GeminiSettings) -> bool {
    &&& s.preview_features is None
    &&& s.vim_mode is None
    &&& s.enable_auto_update is None
    &&& s.model is None
    &&& s.output is None
    &&& s.ui is None
    &&& s.checkpointing is None
    &&& s.privacy is None
    &&& s.tools is None
    &&& s.mcp is None
    &&& s.sandbox is None
    &&& s.ide is None
    &&& s.hooks is None
    &&& s.extra@.len() == 0
}

impl GeminiSettings {
    /// Settings that set nothing.
    pub fn empty() -> (r: GeminiSettings)
        ensures
            settings_unset(r),
    {
        GeminiSettings {
            preview_features: None,
            vim_mode: None,
            enable_auto_update: None,
            model: None,
            output: None,
            ui: None,
            checkpointing: None,
            privacy: None,
            tools: None,
            mcp: None,
            sandbox: None,
            ide: None,
            hooks: None,
            extra: Vec::new(),
        }
    }
}

/// The extra members after `project`'s replace or join `user`'s, in order.
pub open spec fn merged_extra(user: Seq<(Seq<char>, JsonValue)>, project: Seq<(Seq<char>, JsonValue)>) -> Seq<(Seq<char>, JsonValue)>
    decreases project.len(),
{
    if project.len() == 0 {
        user
    } else {
        merged_extra(upserted(user, project[0].0, project[0].1), project.drop_first())
    }
}

/// `s` with the first member named `k` given the value `v`, or with `(k, v)` added.
pub open spec fn upserted(s: Seq<(Seq<char>, JsonValue)>, k: Seq<char>, v: JsonValue) -> Seq<(Seq<char>, JsonValue)> {
    if exists|i: int| 0 <= i < s.len() && #[trigger] s[i].0 == k {
        let i = choose|i: int| 0 <= i < s.len() && #[trigger] s[i].0 == k && forall|j: int| 0 <= j < i ==> #[trigger] s[j].0 != k;
        s.update(i, (k, v))
    } else {
        s.push((k, v))
    }
}

/// Project settings over user settings: each member the project sets wins and the user's
/// stands elsewhere; extra members of the project replace or join the user's.
pub fn merge_settings(user: Option<GeminiSettings>, project: Option<GeminiSettings>) -> (r: GeminiSettings)
    ensures
        project is None && user is Some ==> r == user->Some_0,
        project is None && user is None ==> settings_unset(r),
        project matches Some(p) ==> {
            &&& r.preview_features == if p.preview_features is Some { p.preview_features } else { match user { Some(u) => u.preview_features, None => None } }
            &&& r.vim_mode == if p.vim_mode is Some { p.vim_mode } else { match user { Some(u) => u.vim_mode, None => None } }
            &&& r.enable_auto_update == if p.enable_auto_update is Some { p.enable_auto_update } else { match user { Some(u) => u.enable_auto_update, None => None } }
            &&& r.model == if p.model is Some { p.model } else { match user { Some(u) => u.model, None => None } }
            &&& r.output == if p.output is Some { p.output } else { match user { Some(u) => u.output, None => None } }
            &&& r.ui == if p.ui is Some { p.ui } else { match user { Some(u) => u.ui, None => None } }
            &&& r.checkpointing == if p.checkpointing is Some { p.checkpointing } else { match user { Some(u) => u.checkpointing, None => None } }
            &&& r.privacy == if p.privacy is Some { p.privacy } else { match user { Some(u) => u.privacy, None => None } }
            &&& r.tools == if p.tools is Some { p.tools } else { match user { Some(u) => u.tools, None => None } }
            &&& r.mcp == if p.mcp is Some { p.mcp } else { match user { Some(u) => u.mcp, None => None } }
            &&& r.sandbox == if p.sandbox is Some { p.sandbox } else { match user { Some(u) => u.sandbox, None => None } }
            &&& r.ide == if p.ide is Some { p.ide } else { match user { Some(u) => u.ide, None => None } }
            &&& r.hooks == if p.hooks is Some { p.hooks } else { match user { Some(u) => u.hooks, None => None } }
            &&& members_view(r.extra@) == merged_extra(
                match user {
                    Some(u) => members_view(u.extra@),
                    None => Seq::empty(),
                },
                members_view(p.extra@),
            )
        },
{
    let ghost uopt = user;
    let u = match user {
        Some(u) => u,
        None => GeminiSettings::empty(),
    };
    let p = match project {
        Some(p) => p,
        None => return u,
    };
    let GeminiSettings {
        preview_features: u_preview_features,
        vim_mode: u_vim_mode,
        enable_auto_update: u_enable_auto_update,
        model: u_model,
        output: u_output,
        ui: u_ui,
        checkpointing: u_checkpointing,
        privacy: u_privacy,
        tools: u_tools,
        mcp: u_mcp,
        sandbox: u_sandbox,
        ide: u_ide,
        hooks: u_hooks,
        extra: u_extra,
    } = u;
    let GeminiSettings {
        preview_features,
        vim_mode,
        enable_auto_update,
        model,
        output,
        ui,
        checkpointing,
        privacy,
        tools,
        mcp,
        sandbox,
        ide,
        hooks,
        extra: p_extra,
    } = p;
    let mut extra = u_extra;
    let mut k: usize = 0;
    let ghost pe = members_view(p_extra@);
    assert(pe.subrange(0, pe.len() as int) =~= pe);
    while k < p_extra.len()
        invariant
            pe == members_view(p_extra@),
            k <= p_extra@.len(),
            merged_extra(members_view(extra@), pe.subrange(k as int, pe.len() as int)) == merged_extra(members_view(u_extra@), pe),
        decreases p_extra@.len() - k,
    {
        let ghost before = members_view(extra@);
        upsert_extra(&mut extra, p_extra[k].0.clone(), p_extra[k].1.deep_clone());
        assert(pe.subrange(k as int, pe.len() as int).drop_first() =~= pe.subrange(k + 1, pe.len() as int));
        assert(pe.subrange(k as int, pe.len() as int)[0] == pe[k as int]);
        k = k + 1;
    }
    assert(pe.subrange(k as int, pe.len() as int) =~= Seq::<(Seq<char>, JsonValue)>::empty());
    proof {
        if uopt is None {
            assert(members_view(u_extra@) =~= Seq::<(Seq<char>, JsonValue)>::empty());
        }
    }
    GeminiSettings {
        preview_features: pick(preview_features, u_preview_features),
        vim_mode: pick(vim_mode, u_vim_mode),
        enable_auto_update: pick(enable_auto_update, u_enable_auto_update),
        model: pick(model, u_model),
        output: pick(output, u_output),
        ui: pick(ui, u_ui),
        checkpointing: pick(checkpointing, u_checkpointing),
        privacy: pick(privacy, u_privacy),
        tools: pick(tools, u_tools),
        mcp: pick(mcp, u_mcp),
        sandbox: pick(sandbox, u_sandbox),
        ide: pick(ide, u_ide),
        hooks: pick(hooks, u_hooks),
        extra,
    }
}

fn upsert_extra(extra: &mut Vec<(String, Json)>, key: String, value: Json)
    ensures
        members_view(final(extra)@) == upserted(members_view(old(extra)@), key@, value@),
{
    let ghost s = members_view(extra@);
    let ghost kv = (key@, value@);
    let mut i: usize = 0;
    while i < extra.len() && !str_eq(extra[i].0.as_str(), key.as_str())
        invariant
            s == members_view(extra@),
            kv.0 == key@,
            i <= extra@.len(),
            forall|j: int| 0 <= j < i ==> #[trigger] s[j].0 != kv.0,
        decreases extra@.len() - i,
    {
        i = i + 1;
    }
    match if i < extra.len() { Some(i) } else { None } {
        Some(i) => {
            proof {
                assert(s[i as int].0 == kv.0);
                assert(0 <= i < s.len() && s[i as int].0 == kv.0 && forall|j: int| 0 <= j < i ==> #[trigger] s[j].0 != kv.0);
                let c = choose|c: int| 0 <= c < s.len() && #[trigger] s[c].0 == kv.0 && forall|j: int| 0 <= j < c ==> #[trigger] s[j].0 != kv.0;
                if c < i {
                    assert(s[c].0 != kv.0);
                } else if c > i {
                    assert(s[i as int].0 != kv.0);
                }
            }
            extra.set(i, (key, value));
            assert(members_view(extra@) =~= s.update(i as int, kv));
        },
        None => {
            extra.push((key, value));
            assert(members_view(extra@) =~= s.push(kv));
            assert(!(exists|c: int| 0 <= c < s.len() && #[trigger] s[c].0 == kv.0));
        },
    }
}

} // verus!
