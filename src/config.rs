//! Line-level editing of the Codex `config.toml` text: top-level keys and the `[features]`
//! table, keeping every other line as it was.
use vstd::prelude::*;
use crate::text::{
    has_prefix, has_suffix, is_blank, join, join_strings, lines, lines_of, str_eq, starts_with,
    ends_with, trim, trimmed,
};

verus! {

/// The index of the first `c` in `s`.
pub open spec fn first_index(s: Seq<char>, c: char) -> Option<int>
    decreases s.len(),
{
    if s.len() == 0 {
        None
    } else if s[0] == c {
        Some(0)
    } else {
        match first_index(s.drop_first(), c) {
            Some(i) => Some(i + 1),
            None => None,
        }
    }
}

/// `s` split at its first `c`.
pub open spec fn split_once(s: Seq<char>, c: char) -> Option<(Seq<char>, Seq<char>)> {
    match first_index(s, c) {
        Some(i) => Some((s.subrange(0, i), s.subrange(i + 1, s.len() as int))),
        None => None,
    }
}

proof fn lemma_first_index_from(s: Seq<char>, c: char, i: int)
    requires
        0 <= i < s.len(),
        s[i] != c,
    ensures
        crate::profile::shifted(first_index(s.subrange(i, s.len() as int), c), i)
            == crate::profile::shifted(first_index(s.subrange(i + 1, s.len() as int), c), i + 1),
{
    assert(s.subrange(i, s.len() as int).drop_first() =~= s.subrange(i + 1, s.len() as int));
}

fn find_char(s: &str, c: char) -> (r: Option<usize>)
    ensures
        match r {
            Some(i) => first_index(s@, c) == Some(i as int) && i < s@.len(),
            None => first_index(s@, c) is None,
        },
{
    let n = s.unicode_len();
    let mut i: usize = 0;
    assert(s@.subrange(0, n as int) =~= s@);
    while i < n
        invariant
            n == s@.len(),
            i <= n,
            first_index(s@, c) == crate::profile::shifted(first_index(s@.subrange(i as int, n as int), c), i as int),
        decreases n - i,
    {
        if s.get_char(i) == c {
            assert(s@.subrange(i as int, n as int)[0] == c);
            return Some(i);
        }
        proof {
            lemma_first_index_from(s@, c, i as int);
        }
        i = i + 1;
    }
    None
}

/// Whether a line sets `key`: not blank, not a comment, and `key` before its first `=`.
pub open spec fn is_key_line(line: Seq<char>, key: Seq<char>) -> bool {
    let t = trimmed(line);
    t.len() > 0 && t[0] != '#' && match split_once(t, '=') {
        Some((k, _)) => trimmed(k) == key,
        None => false,
    }
}

/// Whether a line opens a table: `[...]`.
pub open spec fn is_table_header(line: Seq<char>) -> bool {
    has_prefix(trimmed(line), "["@) && has_suffix(trimmed(line), "]"@)
}

/// The index of the first table header, or the number of lines where there is none.
pub open spec fn first_table(ls: Seq<Seq<char>>) -> int
    decreases ls.len(),
{
    if ls.len() == 0 {
        0
    } else if is_table_header(ls[0]) {
        0
    } else {
        first_table(ls.drop_first()) + 1
    }
}

/// Whether `line` sets the top-level `key`.
pub fn is_key_value_for(line: &str, key: &str) -> (r: bool)
    ensures
        r == is_key_line(line@, key@),
{
    let t = trim(line);
    if t.unicode_len() == 0 {
        return false;
    }
    if t.get_char(0) == '#' {
        return false;
    }
    match find_char(t, '=') {
        Some(i) => str_eq(trim(t.substring_char(0, i)), key),
        None => false,
    }
}

fn is_table_header_line(line: &str) -> (r: bool)
    ensures
        r == is_table_header(line@),
{
    let t = trim(line);
    starts_with(t, "[") && ends_with(t, "]")
}

/// Where the first table begins: its header's index, or the number of lines.
pub fn first_table_start_index(ls: &Vec<String>) -> (r: usize)
    ensures
        r as int == first_table(ls@.map_values(|l: String| l@)),
        r <= ls@.len(),
{
    let ghost v = ls@.map_values(|l: String| l@);
    let mut i: usize = 0;
    assert(v.subrange(0, ls@.len() as int) =~= v);
    while i < ls.len()
        invariant
            v == ls@.map_values(|l: String| l@),
            i <= ls@.len(),
            first_table(v) == first_table(v.subrange(i as int, v.len() as int)) + i,
        decreases ls@.len() - i,
    {
        assert(v.subrange(i as int, v.len() as int)[0] == v[i as int]);
        if is_table_header_line(ls[i].as_str()) {
            return i;
        }
        assert(v.subrange(i as int, v.len() as int).drop_first() =~= v.subrange(i + 1, v.len() as int));
        i = i + 1;
    }
    i
}

/// The text that `lines` joined by newlines gives, ending in a newline where the original
/// text did or where nothing is left.
pub open spec fn finish_text(contents: Seq<char>, joined: Seq<char>) -> Seq<char> {
    if has_suffix(contents, "\n"@) || joined.len() == 0 {
        joined.push('\n')
    } else {
        joined
    }
}

/// The lines that remain when the top-level lines setting `key` (those before `ts`) go.
pub open spec fn without_key(ls: Seq<Seq<char>>, key: Seq<char>, ts: int) -> Seq<Seq<char>>
    decreases ls.len(),
{
    if ls.len() == 0 {
        ls
    } else {
        let rest = without_key(ls.drop_last(), key, ts);
        if ls.len() - 1 >= ts || !is_key_line(ls.last(), key) {
            rest.push(ls.last())
        } else {
            rest
        }
    }
}

/// The config text without its top-level `key`.
pub open spec fn removed_key(contents: Seq<char>, key: Seq<char>) -> Seq<char> {
    let ls = lines_of(contents);
    finish_text(contents, join(without_key(ls, key, first_table(ls)), "\n"@))
}

/// The lines with the first top-level line setting `key` replaced by `rep`, or with `rep`
/// inserted before the first table where none does.
pub open spec fn with_key_line(ls: Seq<Seq<char>>, key: Seq<char>, rep: Seq<char>) -> Seq<Seq<char>> {
    let ts = first_table(ls);
    if exists|j: int| 0 <= j < ts && is_key_line(#[trigger] ls[j], key) {
        let j = choose|j: int| 0 <= j < ts && is_key_line(#[trigger] ls[j], key) && forall|k: int| 0 <= k < j ==> !is_key_line(#[trigger] ls[k], key);
        ls.update(j, rep)
    } else {
        ls.insert(ts, rep)
    }
}

/// The config text with its top-level `key` set to the line `rep`.
pub open spec fn upserted_key(contents: Seq<char>, key: Seq<char>, rep: Seq<char>) -> Seq<char> {
    finish_text(contents, join(with_key_line(lines_of(contents), key, rep), "\n"@))
}

fn finish(contents: &str, joined: String) -> (r: String)
    ensures
        r@ == finish_text(contents@, joined@),
{
    if ends_with(contents, "\n") || joined.as_str().unicode_len() == 0 {
        let mut j = joined;
        j.append("\n");
        proof {
            reveal_strlit("\n");
        }
        j
    } else {
        joined
    }
}

/// Removes the top-level `key` from the config text.
pub fn remove_top_level_key(contents: &str, key: &str) -> (r: String)
    ensures
        r@ == removed_key(contents@, key@),
{
    let ls = lines(contents);
    let ghost v = ls@.map_values(|l: String| l@);
    let ts = first_table_start_index(&ls);
    let mut kept: Vec<String> = Vec::new();
    let mut i: usize = 0;
    assert(v.subrange(0, 0) =~= Seq::<Seq<char>>::empty());
    while i < ls.len()
        invariant
            v == ls@.map_values(|l: String| l@),
            ts as int == first_table(v),
            i <= ls@.len(),
            kept@.map_values(|l: String| l@) == without_key(v.subrange(0, i as int), key@, ts as int),
        decreases ls@.len() - i,
    {
        let ghost before = kept@;
        assert(v.subrange(0, i + 1).drop_last() =~= v.subrange(0, i as int));
        if i >= ts || !is_key_value_for(ls[i].as_str(), key) {
            kept.push(ls[i].clone());
            assert(kept@.map_values(|l: String| l@) =~= before.map_values(|l: String| l@).push(v[i as int]));
        }
        i = i + 1;
    }
    assert(v.subrange(0, i as int) =~= v);
    finish(contents, join_strings(&kept, "\n"))
}

fn upsert_line(contents: &str, key: &str, replacement: String) -> (r: String)
    ensures
        r@ == upserted_key(contents@, key@, replacement@),
{
    let mut ls = lines(contents);
    let ghost v = ls@.map_values(|l: String| l@);
    let ts = first_table_start_index(&ls);
    let mut i: usize = 0;
    while i < ts
        invariant
            v == ls@.map_values(|l: String| l@),
            v == lines_of(contents@),
            ts as int == first_table(v),
            ts <= ls@.len(),
            i <= ts,
            forall|k: int| 0 <= k < i ==> !is_key_line(#[trigger] v[k], key@),
        decreases ts - i,
    {
        if is_key_value_for(ls[i].as_str(), key) {
            let ghost rv = replacement@;
            ls.set(i, replacement);
            proof {
                assert(is_key_line(v[i as int], key@));
                assert(0 <= i < ts && is_key_line(v[i as int], key@) && forall|k: int| 0 <= k < i ==> !is_key_line(#[trigger] v[k], key@));
                let j = choose|j: int| 0 <= j < ts && is_key_line(#[trigger] v[j], key@) && forall|k: int| 0 <= k < j ==> !is_key_line(#[trigger] v[k], key@);
                if j < i {
                    assert(!is_key_line(v[j], key@));
                } else if j > i {
                    assert(!is_key_line(v[i as int], key@));
                }
                assert(ls@.map_values(|l: String| l@) =~= v.update(i as int, rv));
                assert(with_key_line(v, key@, rv) == v.update(i as int, rv));
            }
            return finish(contents, join_strings(&ls, "\n"));
        }
        i = i + 1;
    }
    let ghost rv = replacement@;
    ls.insert(ts, replacement);
    assert(ls@.map_values(|l: String| l@) =~= v.insert(ts as int, rv));
    finish(contents, join_strings(&ls, "\n"))
}

/// The line `key = "value"`.
pub open spec fn string_line(key: Seq<char>, value: Seq<char>) -> Seq<char> {
    key + " = \""@ + value + "\""@
}

/// The line `key = true` or `key = false`.
pub open spec fn bool_line(key: Seq<char>, value: bool) -> Seq<char> {
    key + " = "@ + if value { "true"@ } else { "false"@ }
}

/// Sets the top-level `key` to the string `value`.
pub fn upsert_top_level_string_key(contents: &str, key: &str, value: &str) -> (r: String)
    ensures
        r@ == upserted_key(contents@, key@, string_line(key@, value@)),
{
    let line = String::from_str(key).concat(" = \"").concat(value).concat("\"");
    upsert_line(contents, key, line)
}

/// Sets the top-level `key` to the boolean `value`.
pub fn upsert_top_level_bool_key(contents: &str, key: &str, value: bool) -> (r: String)
    ensures
        r@ == upserted_key(contents@, key@, bool_line(key@, value)),
{
    let line = String::from_str(key).concat(" = ").concat(if value { "true" } else { "false" });
    upsert_line(contents, key, line)
}

/// A value text trimmed, or nothing where it is blank.
pub fn normalize_trimmed_value(value: Option<&str>) -> (r: Option<&str>)
    ensures
        match value {
            Some(v) => if is_blank(v@) {
                r is None
            } else {
                r is Some && r->Some_0@ == trimmed(v@)
            },
            None => r is None,
        },
{
    match value {
        Some(v) => {
            let t = trim(v);
            if t.unicode_len() == 0 {
                None
            } else {
                Some(t)
            }
        },
        None => None,
    }
}

/// Whether `l` is `c` with an ASCII capital letter made small.
pub open spec fn lowers_to(c: char, l: char) -> bool {
    if 'A' <= c && c <= 'Z' {
        c as u32 + 32 == l as u32
    } else {
        c == l
    }
}

/// Whether `s`, with ASCII letters in lower case, is `lower`.
pub open spec fn ascii_lower_is(s: Seq<char>, lower: Seq<char>) -> bool {
    s.len() == lower.len() && forall|k: int| 0 <= k < s.len() ==> lowers_to(#[trigger] s[k], lower[k])
}

/// Whether `s`, with ASCII letters in lower case, is `lower`.
pub fn eq_ignore_ascii_case(s: &str, lower: &str) -> (r: bool)
    ensures
        r == ascii_lower_is(s@, lower@),
{
    let n = s.unicode_len();
    if n != lower.unicode_len() {
        return false;
    }
    let mut i: usize = 0;
    while i < n
        invariant
            n == s@.len(),
            n == lower@.len(),
            i <= n,
            forall|k: int| 0 <= k < i ==> lowers_to(#[trigger] s@[k], lower@[k]),
        decreases n - i,
    {
        let c = s.get_char(i);
        let l = lower.get_char(i);
        let ok = if 'A' <= c && c <= 'Z' {
            (c as u32) + 32 == l as u32
        } else {
            c == l
        };
        if !ok {
            return false;
        }
        i = i + 1;
    }
    true
}

/// The personality a config value names, read without regard to case or surrounding space.
pub open spec fn personality_of(value: Seq<char>) -> Option<Seq<char>> {
    if ascii_lower_is(trimmed(value), "friendly"@) {
        Some("friendly"@)
    } else if ascii_lower_is(trimmed(value), "pragmatic"@) {
        Some("pragmatic"@)
    } else {
        None
    }
}

/// The personality a config value names.
pub fn normalize_personality_value(value: &str) -> (r: Option<&'static str>)
    ensures
        crate::json::opt_str_view(r) == personality_of(value@),
{
    let t = trim(value);
    if eq_ignore_ascii_case(t, "friendly") {
        Some("friendly")
    } else if eq_ignore_ascii_case(t, "pragmatic") {
        Some("pragmatic")
    } else {
        None
    }
}

/// The string that a TOML text's top-level `key` holds, or nothing where the text is not
/// TOML or the key holds no string.
pub uninterp spec fn toml_string_at(contents: Seq<char>, key: Seq<char>) -> Option<Seq<char>>;

/// The boolean that a TOML text's top-level `key` holds, or nothing where the text is not
/// TOML or the key holds no boolean.
pub uninterp spec fn toml_bool_at(contents: Seq<char>, key: Seq<char>) -> Option<bool>;

/// Relies on toml::from_str into toml::Value, then Value::get and Value::as_str: the
/// string at a top-level key.
#[verifier::external_body]
fn toml_top_level_string(contents: &str, key: &str) -> (r: Option<String>)
    ensures
        crate::json::opt_string_view(r) == toml_string_at(contents@, key@),
{
    let parsed: toml::Value = toml::from_str(contents).ok()?;
    parsed.get(key)?.as_str().map(|s| s.to_string())
}

/// Relies on toml::from_str into toml::Value, then Value::get and Value::as_bool: the
/// boolean at a top-level key.
#[verifier::external_body]
fn toml_top_level_bool(contents: &str, key: &str) -> (r: Option<bool>)
    ensures
        r == toml_bool_at(contents@, key@),
{
    let parsed: toml::Value = toml::from_str(contents).ok()?;
    parsed.get(key)?.as_bool()
}

/// The trimmed string at the top-level `key` of a TOML text; nothing where it is blank.
pub fn parse_top_level_string_from_toml(contents: &str, key: &str) -> (r: Option<String>)
    ensures
        match toml_string_at(contents@, key@) {
            Some(v) => if is_blank(v) {
                r is None
            } else {
                r is Some && r->Some_0@ == trimmed(v)
            },
            None => r is None,
        },
{
    let value = toml_top_level_string(contents, key)?;
    let t = trim(value.as_str());
    if t.unicode_len() == 0 {
        None
    } else {
        Some(String::from_str(t))
    }
}

/// The boolean at the top-level `key` of a TOML text.
pub fn parse_top_level_bool_from_toml(contents: &str, key: &str) -> (r: Option<bool>)
    ensures
        r == toml_bool_at(contents@, key@),
{
    toml_top_level_bool(contents, key)
}

/// The text before the first `#`.
pub open spec fn before_hash(v: Seq<char>) -> Seq<char> {
    match first_index(v, '#') {
        Some(i) => v.subrange(0, i),
        None => v,
    }
}

/// What a flag's value text means: `true`, `false`, or nothing.
pub open spec fn flag_value(v: Seq<char>) -> Option<bool> {
    if v == "true"@ {
        Some(true)
    } else if v == "false"@ {
        Some(false)
    } else {
        None
    }
}

/// The value of `key` in the `[features]` table, scanning `ls` with `in_features` telling
/// whether the scan is inside that table. The first line inside the table that sets
/// nothing ends the scan.
pub open spec fn feature_scan(ls: Seq<Seq<char>>, in_features: bool, key: Seq<char>) -> Option<bool>
    decreases ls.len(),
{
    if ls.len() == 0 {
        None
    } else {
        let t = trimmed(ls[0]);
        if is_table_header(ls[0]) {
            feature_scan(ls.drop_first(), t == "[features]"@, key)
        } else if !in_features || t.len() == 0 || t[0] == '#' {
            feature_scan(ls.drop_first(), in_features, key)
        } else {
            match split_once(t, '=') {
                None => None,
                Some((k, v)) => if trimmed(k) != key {
                    feature_scan(ls.drop_first(), in_features, key)
                } else {
                    flag_value(trimmed(before_hash(v)))
                },
            }
        }
    }
}

/// The value of `key` in the `[features]` table of the config text.
pub fn find_feature_flag(contents: &str, key: &str) -> (r: Option<bool>)
    ensures
        r == feature_scan(lines_of(contents@), false, key@),
{
    let ls = lines(contents);
    let ghost v = ls@.map_values(|l: String| l@);
    let mut in_features = false;
    let mut i: usize = 0;
    assert(v.subrange(0, v.len() as int) =~= v);
    while i < ls.len()
        invariant
            v == ls@.map_values(|l: String| l@),
            v == lines_of(contents@),
            i <= ls@.len(),
            feature_scan(v, false, key@) == feature_scan(v.subrange(i as int, v.len() as int), in_features, key@),
        decreases ls@.len() - i,
    {
        let ghost rest = v.subrange(i as int, v.len() as int);
        assert(rest[0] == v[i as int]);
        assert(rest.drop_first() =~= v.subrange(i + 1, v.len() as int));
        let line = ls[i].as_str();
        let t = trim(line);
        if is_table_header_line(line) {
            in_features = str_eq(t, "[features]");
            i = i + 1;
            continue;
        }
        if !in_features || t.unicode_len() == 0 || t.get_char(0) == '#' {
            i = i + 1;
            continue;
        }
        let eq = match find_char(t, '=') {
            Some(e) => e,
            None => return None,
        };
        let n = t.unicode_len();
        if !str_eq(trim(t.substring_char(0, eq)), key) {
            i = i + 1;
            continue;
        }
        let value = t.substring_char(eq + 1, n);
        let cut = match find_char(value, '#') {
            Some(h) => value.substring_char(0, h),
            None => value,
        };
        let flag = trim(cut);
        if str_eq(flag, "true") {
            return Some(true);
        } else if str_eq(flag, "false") {
            return Some(false);
        } else {
            return None;
        }
    }
    None
}

/// Whether the `[features]` table sets `key`, and to what.
pub fn read_feature_flag_from(contents: Option<&str>, key: &str) -> (r: Option<bool>)
    ensures
        match contents {
            Some(c) => r == feature_scan(lines_of(c@), false, key@),
            None => r is None,
        },
{
    match contents {
        Some(c) => find_feature_flag(c, key),
        None => None,
    }
}

/// Where the `[features]` table is and where `key` is set in it, scanning from line `i`:
/// the table's header, the next header after it, and the line that sets `key`.
pub open spec fn layout_from(
    ls: Seq<Seq<char>>,
    key: Seq<char>,
    i: int,
    in_features: bool,
    start: Option<int>,
) -> (Option<int>, Option<int>, Option<int>)
    decreases ls.len() - i,
{
    if i < 0 || i >= ls.len() {
        (start, None, None)
    } else if is_table_header(ls[i]) {
        if in_features {
            (start, Some(i), None)
        } else {
            let f = trimmed(ls[i]) == "[features]"@;
            layout_from(ls, key, i + 1, f, if f { Some(i) } else { start })
        }
    } else if !in_features || trimmed(ls[i]).len() == 0 || trimmed(ls[i])[0] == '#' {
        layout_from(ls, key, i + 1, in_features, start)
    } else {
        match split_once(trimmed(ls[i]), '=') {
            Some((k, _)) => if trimmed(k) == key {
                (start, None, Some(i))
            } else {
                layout_from(ls, key, i + 1, in_features, start)
            },
            None => layout_from(ls, key, i + 1, in_features, start),
        }
    }
}

/// The lines with `key` set to `enabled` in the `[features]` table: its line replaced, or a
/// line added at the table's end, or a new table appended.
pub open spec fn with_flag(ls: Seq<Seq<char>>, key: Seq<char>, enabled: bool) -> Seq<Seq<char>> {
    let (start, end, at) = layout_from(ls, key, 0, false, None);
    let line = bool_line(key, enabled);
    match start {
        Some(s) => match at {
            Some(j) => ls.update(j, line),
            None => {
                let e = match end {
                    Some(e) => e,
                    None => ls.len() as int,
                };
                ls.insert(if e > s + 1 { e } else { s + 1 }, line)
            },
        },
        None => {
            let padded = if ls.len() > 0 && trimmed(ls.last()).len() > 0 { ls.push(Seq::empty()) } else { ls };
            padded.push("[features]"@).push(line)
        },
    }
}

/// The config text with `key` set to `enabled` in its `[features]` table.
pub open spec fn upserted_flag(contents: Seq<char>, key: Seq<char>, enabled: bool) -> Seq<char> {
    finish_text(contents, join(with_flag(lines_of(contents), key, enabled), "\n"@))
}

/// Sets `key` to `enabled` in the `[features]` table of the config text.
pub fn upsert_feature_flag(contents: &str, key: &str, enabled: bool) -> (r: String)
    ensures
        r@ == upserted_flag(contents@, key@, enabled),
{
    let mut ls = lines(contents);
    let ghost v = ls@.map_values(|l: String| l@);
    let mut in_features = false;
    let mut start: Option<usize> = None;
    let mut end: Option<usize> = None;
    let mut at: Option<usize> = None;
    let mut i: usize = 0;
    while i < ls.len()
        invariant_except_break
            end is None && at is None,
            layout_from(v, key@, 0, false, None) == layout_from(v, key@, i as int, in_features, opt_int(start)),
        invariant
            v == ls@.map_values(|l: String| l@),
            i <= ls@.len(),
            start matches Some(s) ==> s < ls@.len(),
            end matches Some(e) ==> e < ls@.len(),
            at matches Some(a) ==> a < ls@.len(),
        ensures
            layout_from(v, key@, 0, false, None) == (opt_int(start), opt_int(end), opt_int(at)),
        decreases ls@.len() - i,
    {
        let line = ls[i].as_str();
        let t = trim(line);
        if is_table_header_line(line) {
            if in_features {
                end = Some(i);
                break;
            }
            in_features = str_eq(t, "[features]");
            if in_features {
                start = Some(i);
            }
            i = i + 1;
            continue;
        }
        if !in_features || t.unicode_len() == 0 || t.get_char(0) == '#' {
            i = i + 1;
            continue;
        }
        if let Some(e) = find_char(t, '=') {
            if str_eq(trim(t.substring_char(0, e)), key) {
                at = Some(i);
                break;
            }
        }
        i = i + 1;
    }
    let flag_line = String::from_str(key).concat(" = ").concat(if enabled { "true" } else { "false" });
    let ghost fl = flag_line@;
    match start {
        Some(s) => match at {
            Some(j) => {
                ls.set(j, flag_line);
                assert(ls@.map_values(|l: String| l@) =~= v.update(j as int, fl));
            },
            None => {
                let n = ls.len();
                assert(s < n);
                let e = match end {
                    Some(e) => e,
                    None => n,
                };
                let pos = if e > s + 1 { e } else { s + 1 };
                ls.insert(pos, flag_line);
                assert(ls@.map_values(|l: String| l@) =~= v.insert(pos as int, fl));
            },
        },
        None => {
            let n = ls.len();
            if n > 0 && trim(ls[n - 1].as_str()).unicode_len() > 0 {
                ls.push(String::new());
                assert(ls@.map_values(|l: String| l@) =~= v.push(Seq::empty()));
            }
            let ghost padded = ls@.map_values(|l: String| l@);
            ls.push(String::from_str("[features]"));
            ls.push(flag_line);
            assert(ls@.map_values(|l: String| l@) =~= padded.push("[features]"@).push(fl));
        },
    }
    finish(contents, join_strings(&ls, "\n"))
}

pub open spec fn opt_int(o: Option<usize>) -> Option<int> {
    match o {
        Some(x) => Some(x as int),
        None => None,
    }
}

} // verus!
