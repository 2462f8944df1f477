//! First-run setup logic: the answers the interactive walkthrough collects
//! are turned into an initial configuration document, the default file
//! locations are resolved, and the shell profile is rewritten to export the
//! config path. All prompting and file access stays outside the library.

use vstd::prelude::*;

use crate::color::Color;
use crate::document::{Config, ConfigView};
use crate::text::{is_space_char, joined, split_lines, split_lines_exec, trim};

verus! {

/// Why the first-run setup failed.
#[derive(Clone, Copy, Debug, PartialEq, Eq, Structural)]
pub enum InitError {
    AncestorMissing,
    EnvUnset,
    HomeNotFound,
    NoDiscordToken,
    ReadError,
    TomlSerializationError,
    UnixProfileMissing,
    UserIsRoot,
    WriteError,
}

/// The message shown for each setup failure.
pub open spec fn init_error_message(e: InitError) -> Seq<char> {
    match e {
        InitError::AncestorMissing => "Unable to create all dirs for given path."@,
        InitError::EnvUnset => "Please set $MUFFETBOT_CONFIG manually"@,
        InitError::HomeNotFound => "System home not found. Try setting $HOME env."@,
        InitError::NoDiscordToken => "Discord token is required!"@,
        InitError::ReadError => "Unable to read '~/.profile'"@,
        InitError::TomlSerializationError => "Unable to serialize new config into toml."@,
        InitError::UnixProfileMissing => "'~/.profile' not found!"@,
        InitError::UserIsRoot => "For security, this bot should not be installed as root!"@,
        InitError::WriteError => "Unable to write new config."@,
    }
}

impl InitError {
    /// The message shown for this failure.
    pub fn as_str(&self) -> (r: &'static str)
        ensures
            r@ == init_error_message(*self),
    {
        match self {
            InitError::AncestorMissing => "Unable to create all dirs for given path.",
            InitError::EnvUnset => "Please set $MUFFETBOT_CONFIG manually",
            InitError::HomeNotFound => "System home not found. Try setting $HOME env.",
            InitError::NoDiscordToken => "Discord token is required!",
            InitError::ReadError => "Unable to read '~/.profile'",
            InitError::TomlSerializationError => "Unable to serialize new config into toml.",
            InitError::UnixProfileMissing => "'~/.profile' not found!",
            InitError::UserIsRoot => "For security, this bot should not be installed as root!",
            InitError::WriteError => "Unable to write new config.",
        }
    }
}

/// The setup refuses to run for the root user.
pub fn is_root_user(user: Option<&str>) -> (r: bool)
    ensures
        r == (user matches Some(u) && u@ == "root"@),
{
    match user {
        Some(u) => crate::text::str_eq(u, "root"),
        None => false,
    }
}

/// `s` without its newline characters.
pub open spec fn without_newlines(s: Seq<char>) -> Seq<char>
    decreases s.len(),
{
    if s.len() == 0 {
        s
    } else {
        let rest = without_newlines(s.drop_last());
        if s.last() == '\n' {
            rest
        } else {
            rest + seq![s.last()]
        }
    }
}

/// Clean one walkthrough answer: an answer that is all whitespace counts as
/// no answer; a sanitized answer has its newlines removed.
pub fn clean_answer(answer: &str, sanitize: bool) -> (r: Option<String>)
    ensures
        trim(answer@).len() == 0 ==> r is None,
        trim(answer@).len() > 0 && sanitize ==> (r matches Some(s) && s@ == without_newlines(
            answer@,
        )),
        trim(answer@).len() > 0 && !sanitize ==> (r matches Some(s) && s@ == answer@),
{
    let trimmed = crate::text::normalize_trigger(answer);
    if trimmed.unicode_len() == 0 {
        proof {
            let t = trim(answer@);
            assert(crate::text::normalized(answer@).len() == crate::text::lower(t).len());
        }
        return None;
    }
    proof {
        let t = trim(answer@);
        assert(crate::text::normalized(answer@).len() == crate::text::lower(t).len());
    }
    if sanitize {
        let cs = crate::text::str_chars(answer);
        let mut out: Vec<char> = Vec::new();
        let mut i: usize = 0;
        while i < cs.len()
            invariant
                i <= cs@.len(),
                cs@ == answer@,
                out@ == without_newlines(cs@.subrange(0, i as int)),
            decreases cs@.len() - i,
        {
            let ghost prefix = cs@.subrange(0, i as int);
            let ghost next_prefix = cs@.subrange(0, i + 1 as int);
            proof {
                assert(next_prefix.drop_last() =~= prefix);
                assert(next_prefix.last() == cs@[i as int]);
            }
            if cs[i] != '\n' {
                out.push(cs[i]);
                assert(out@ =~= without_newlines(prefix) + seq![cs@[i as int]]);
            }
            assert(out@ =~= without_newlines(next_prefix));
            i += 1;
        }
        proof {
            assert(cs@.subrange(0, cs@.len() as int) =~= cs@);
        }
        Some(crate::text::chars_string(&out))
    } else {
        Some(String::from_str(answer))
    }
}

/// The default location of the configuration file below the home directory.
pub fn default_config_path(home: &str) -> (r: String)
    ensures
        r@ == home@ + "/.config/muffetbot/config.toml"@,
{
    String::from_str(home).concat("/.config/muffetbot/config.toml")
}

/// The default location of the log directory below the home directory.
pub fn default_log_path(home: &str) -> (r: String)
    ensures
        r@ == home@ + "/.local/share/muffetbot-logs"@,
{
    String::from_str(home).concat("/.local/share/muffetbot-logs")
}

/// The initial document the walkthrough persists: the collected answers,
/// the default help color, and no commands yet.
pub fn initial_config(
    discord_token: String,
    help_message: Option<String>,
    site_url: Option<String>,
    command_prefix: Option<String>,
    log_path: String,
) -> (r: Config)
    ensures
        r@ == (ConfigView {
            help_color: Some(Color::BlitzBlue),
            discord_token: discord_token@,
            log_path: log_path@,
            help_message: help_message.deep_view(),
            command_prefix: command_prefix.deep_view(),
            site_url: site_url.deep_view(),
            commands: None,
        }),
{
    Config {
        help_color: Some(Color::BlitzBlue),
        commands: None,
        command_prefix,
        discord_token,
        help_message,
        log_path,
        site_url,
    }
}

/// Whether a profile line exports the config variable: its first non-blank
/// text starts with `export MUFFETBOT_CONFIG`.
pub open spec fn is_export_line(line: Seq<char>) -> bool {
    let t = crate::text::trim_front(line);
    t.len() >= "export MUFFETBOT_CONFIG"@.len() && t.subrange(
        0,
        "export MUFFETBOT_CONFIG"@.len() as int,
    ) == "export MUFFETBOT_CONFIG"@
}

/// The profile lines that are kept: everything but old export lines.
pub open spec fn kept_lines(lines: Seq<Seq<char>>) -> Seq<Seq<char>>
    decreases lines.len(),
{
    if lines.len() == 0 {
        lines
    } else {
        let rest = kept_lines(lines.drop_last());
        if is_export_line(lines.last()) {
            rest
        } else {
            rest + seq![lines.last()]
        }
    }
}

/// The rewritten shell profile: the old export lines removed, and a fresh
/// `export MUFFETBOT_CONFIG="<path>"` line appended.
pub open spec fn spec_updated_profile(profile: Seq<char>, config_path: Seq<char>) -> Seq<char> {
    joined(kept_lines(split_lines(profile)), "\n"@) + "\nexport MUFFETBOT_CONFIG=\""@ + config_path
        + "\""@
}

fn starts_with_export(line: &str) -> (r: bool)
    ensures
        r == is_export_line(line@),
{
    let cs = crate::text::str_chars(line);
    let n = cs.len();
    let mut start: usize = 0;
    while start < n && is_space_exec_local(cs[start])
        invariant
            n == cs@.len(),
            cs@ == line@,
            start <= n,
            forall|j: int| 0 <= j < start ==> is_space_char(cs@[j]),
        decreases n - start,
    {
        start += 1;
    }
    proof {
        crate::text::lemma_trim_front_skip(cs@, start as int);
    }
    let marker = "export MUFFETBOT_CONFIG";
    let m = marker.unicode_len();
    proof {
        reveal_strlit("export MUFFETBOT_CONFIG");
    }
    if n - start < m {
        return false;
    }
    let mut k: usize = 0;
    while k < m
        invariant
            n == cs@.len(),
            cs@ == line@,
            marker@ == "export MUFFETBOT_CONFIG"@,
            m == "export MUFFETBOT_CONFIG"@.len(),
            start + m <= n,
            crate::text::trim_front(line@) =~= cs@.subrange(start as int, n as int),
            k <= m,
            forall|j: int|
                0 <= j < k ==> cs@[start + j] == "export MUFFETBOT_CONFIG"@[j],
        decreases m - k,
    {
        if cs[start + k] != marker.get_char(k) {
            proof {
                let t = crate::text::trim_front(line@);
                assert(t[k as int] == cs@[start + k]);
                assert(t.subrange(0, m as int)[k as int] != "export MUFFETBOT_CONFIG"@[k as int]);
            }
            return false;
        }
        k += 1;
    }
    proof {
        let t = crate::text::trim_front(line@);
        assert(t.subrange(0, m as int) =~= "export MUFFETBOT_CONFIG"@);
    }
    true
}

fn is_space_exec_local(c: char) -> (r: bool)
    ensures
        r == is_space_char(c),
{
    c == ' ' || c == '\t' || c == '\n' || c == '\r'
}

/// Rewrite the shell profile: drop every line whose first non-blank text is
/// `export MUFFETBOT_CONFIG`, then append a fresh export of the given path.
pub fn updated_profile(profile: &str, config_path: &str) -> (r: String)
    ensures
        r@ == spec_updated_profile(profile@, config_path@),
{
    let lines = split_lines_exec(profile);
    let ghost all = lines.deep_view();
    let mut kept: Vec<String> = Vec::new();
    let mut i: usize = 0;
    while i < lines.len()
        invariant
            all == lines.deep_view(),
            i <= all.len(),
            kept.deep_view() == kept_lines(all.subrange(0, i as int)),
        decreases all.len() - i,
    {
        let ghost prefix = all.subrange(0, i as int);
        let ghost next_prefix = all.subrange(0, i + 1 as int);
        proof {
            assert(next_prefix.drop_last() =~= prefix);
            assert(next_prefix.last() == all[i as int]);
        }
        if !starts_with_export(lines[i].as_str()) {
            kept.push(lines[i].clone());
            assert(kept.deep_view() =~= kept_lines(prefix) + seq![all[i as int]]);
        }
        assert(kept.deep_view() =~= kept_lines(next_prefix));
        i += 1;
    }
    proof {
        assert(all.subrange(0, all.len() as int) =~= all);
    }
    let mut out = crate::text::join_lines(&kept);
    out.append("\nexport MUFFETBOT_CONFIG=\"");
    out.append(config_path);
    out.append("\"");
    out
}

} // verus!
