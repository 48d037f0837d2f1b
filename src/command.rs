//! How a turn's subprocess is invoked: program, arguments, working directory and environment.
use vstd::prelude::*;
use crate::text::{trim, trimmed, is_blank_str, is_blank};

verus! {

/// Which tool a session drives and where its binary, extra arguments and home are.
#[derive(Debug)]
pub struct CliSpawnConfig {
    pub cli_type: String,
    pub cli_bin: Option<String>,
    pub cli_args: Option<String>,
    pub cli_home: Option<String>,
}

/// One subprocess invocation.
#[derive(Debug)]
pub struct CommandSpec {
    pub program: String,
    pub args: Vec<String>,
    pub cwd: String,
    pub env: Vec<(String, String)>,
}

pub struct CommandView {
    pub program: Seq<char>,
    pub args: Seq<Seq<char>>,
    pub cwd: Seq<char>,
    pub env: Seq<(Seq<char>, Seq<char>)>,
}

pub open spec fn strings_view(v: Seq<String>) -> Seq<Seq<char>> {
    v.map_values(|s: String| s@)
}

impl View for CommandSpec {
    type V = CommandView;

    open spec fn view(&self) -> CommandView {
        CommandView {
            program: self.program@,
            args: strings_view(self.args@),
            cwd: self.cwd@,
            env: self.env@.map_values(|e: (String, String)| (e.0@, e.1@)),
        }
    }
}

/// What shell-style word splitting makes of a text, or nothing where a quote is left open.
pub uninterp spec fn shell_split(s: Seq<char>) -> Option<Seq<Seq<char>>>;

/// Relies on shell_words::split: the words of a shell-quoted text; its only error is an
/// unmatched quote, whose message is "missing closing quote".
#[verifier::external_body]
fn split_shell_words(s: &str) -> (r: Result<Vec<String>, String>)
    ensures
        match r {
            Ok(v) => shell_split(s@) == Some(strings_view(v@)),
            Err(e) => shell_split(s@) is None && e@ == "missing closing quote"@,
        },
{
    shell_words::split(s).map_err(|e| e.to_string())
}

/// The words with empty ones left out.
pub open spec fn non_empty_words(w: Seq<Seq<char>>) -> Seq<Seq<char>> {
    w.filter(|x: Seq<char>| x.len() > 0)
}

/// The extra arguments a configured argument text stands for: none for a missing or blank
/// text; else its shell words, without empty ones; nothing where a quote is left open.
pub open spec fn cli_args_of(value: Option<Seq<char>>) -> Option<Seq<Seq<char>>> {
    match value {
        None => Some(Seq::empty()),
        Some(v) => if is_blank(v) {
            Some(Seq::empty())
        } else {
            match shell_split(trimmed(v)) {
                Some(w) => Some(non_empty_words(w)),
                None => None,
            }
        },
    }
}

pub open spec fn opt_view(v: Option<String>) -> Option<Seq<char>> {
    match v {
        Some(s) => Some(s@),
        None => None,
    }
}

pub open spec fn opt_str(v: Option<&str>) -> Option<Seq<char>> {
    match v {
        Some(s) => Some(s@),
        None => None,
    }
}

/// Splits a configured argument text into arguments.
pub fn split_cli_args(value: Option<&str>) -> (r: Result<Vec<String>, String>)
    ensures
        match r {
            Ok(v) => cli_args_of(opt_str(value)) == Some(strings_view(v@)),
            Err(e) => cli_args_of(opt_str(value)) is None && e@ == "missing closing quote"@,
        },
{
    let raw = match value {
        Some(raw) => raw,
        None => {
            let v: Vec<String> = Vec::new();
            assert(strings_view(v@) =~= Seq::<Seq<char>>::empty());
            return Ok(v);
        },
    };
    if is_blank_str(raw) {
        let v: Vec<String> = Vec::new();
        assert(strings_view(v@) =~= Seq::<Seq<char>>::empty());
        return Ok(v);
    }
    let words = split_shell_words(trim(raw))?;
    let ghost w = strings_view(words@);
    let mut out: Vec<String> = Vec::new();
    let mut i: usize = 0;
    assert(w.subrange(0, 0) =~= Seq::<Seq<char>>::empty());
    assert(strings_view(out@) =~= non_empty_words(w.subrange(0, 0))) by {
        reveal(Seq::filter);
    }
    while i < words.len()
        invariant
            w == strings_view(words@),
            i <= words@.len(),
            strings_view(out@) == non_empty_words(w.subrange(0, i as int)),
        decreases words@.len() - i,
    {
        let ghost before = out@;
        assert(w.subrange(0, i + 1).drop_last() =~= w.subrange(0, i as int));
        if words[i].as_str().unicode_len() > 0 {
            out.push(words[i].clone());
            assert(strings_view(out@) =~= strings_view(before).push(w[i as int]));
        }
        proof {
            reveal(Seq::filter);
        }
        i = i + 1;
    }
    assert(w.subrange(0, i as int) =~= w);
    Ok(out)
}

/// The arguments given in the Cursor settings, split into words.
pub fn parse_cursor_args(value: Option<&str>) -> (r: Result<Vec<String>, String>)
    ensures
        match r {
            Ok(v) => cli_args_of(opt_str(value)) == Some(strings_view(v@)),
            Err(e) => cli_args_of(opt_str(value)) is None && e@ == "Invalid Cursor args: "@
                + "missing closing quote"@,
        },
{
    match split_cli_args(value) {
        Ok(v) => Ok(v),
        Err(e) => Err(String::from_str("Invalid Cursor args: ").concat(e.as_str())),
    }
}

/// The Cursor argument text from the app settings: trimmed, and none where blank.
pub fn normalize_cursor_args(value: &str) -> (r: Option<String>)
    ensures
        match r {
            Some(s) => !is_blank(value@) && s@ == trimmed(value@),
            None => is_blank(value@),
        },
{
    let t = trim(value);
    if t.unicode_len() == 0 {
        None
    } else {
        Some(String::from_str(t))
    }
}

/// The program a binary setting names: the setting where it is not blank, else `codex`.
pub open spec fn program_of(bin: Option<Seq<char>>) -> Seq<char> {
    match bin {
        Some(b) => if is_blank(b) {
            "codex"@
        } else {
            trimmed(b)
        },
        None => "codex"@,
    }
}

/// The invocation of a configured binary with the configured extra arguments first.
pub open spec fn base_command(
    bin: Option<Seq<char>>,
    extra: Option<Seq<char>>,
    args: Seq<Seq<char>>,
    cwd: Seq<char>,
    env: Seq<(Seq<char>, Seq<char>)>,
) -> Option<CommandView> {
    match cli_args_of(extra) {
        Some(pre) => Some(CommandView { program: program_of(bin), args: pre + args, cwd, env }),
        None => None,
    }
}

/// Builds the invocation of `bin` (blank: `codex`) with the words of `extra` before `args`.
pub fn build_codex_command_with_bin(
    bin: Option<&str>,
    extra: Option<&str>,
    args: Vec<String>,
    cwd: &str,
    env: Vec<(String, String)>,
) -> (r: Result<CommandSpec, String>)
    ensures
        match r {
            Ok(c) => base_command(opt_str(bin), opt_str(extra), strings_view(args@), cwd@, env@.map_values(|e: (String, String)| (e.0@, e.1@))) == Some(c@),
            Err(_) => base_command(opt_str(bin), opt_str(extra), strings_view(args@), cwd@, env@.map_values(|e: (String, String)| (e.0@, e.1@))) is None,
        },
{
    let program = match bin {
        Some(b) => if is_blank_str(b) {
            String::from_str("codex")
        } else {
            String::from_str(trim(b))
        },
        None => String::from_str("codex"),
    };
    let mut all = split_cli_args(extra)?;
    let ghost pre = strings_view(all@);
    let mut i: usize = 0;
    while i < args.len()
        invariant
            i <= args@.len(),
            strings_view(all@) == pre + strings_view(args@).subrange(0, i as int),
        decreases args@.len() - i,
    {
        let ghost before = all@;
        let a = args[i].clone();
        assert(a@ == args@[i as int]@);
        all.push(a);
        assert(strings_view(all@) =~= strings_view(before).push(args@[i as int]@));
        assert(strings_view(args@).subrange(0, i + 1) =~= strings_view(args@).subrange(0, i as int).push(args@[i as int]@));
        assert(strings_view(all@) =~= pre + strings_view(args@).subrange(0, i + 1));
        i = i + 1;
    }
    assert(strings_view(args@).subrange(0, i as int) =~= strings_view(args@));
    let r = CommandSpec { program, args: all, cwd: String::from_str(cwd), env };
    Ok(r)
}

} // verus!
