//! The text codec for the persisted configuration document: a TOML-style
//! emitter and parser, written here so that both directions carry exact
//! contracts and the round trip can be proved. The emitter writes one
//! `key = value` line per present field, values as quoted strings (with
//! quotes, backslashes and whitespace control characters escaped) or bare
//! booleans, and one `[[command]]` header per command record.

use vstd::prelude::*;

use crate::color::{Color, color_from_name, color_name};
use crate::document::{
    Command, CommandResponse, CommandView, Config, ConfigView, doc_commands, response_from_name,
    response_name,
};
use crate::text::{split_lines, split_lines_exec, trim};

verus! {

// ---------------------------------------------------------------------------
// String escaping
// ---------------------------------------------------------------------------
/// The escape of one character inside a quoted value.
pub open spec fn esc_char(c: char) -> Seq<char> {
    if c == '"' {
        seq!['\\', '"']
    } else if c == '\\' {
        seq!['\\', '\\']
    } else if c == '\n' {
        seq!['\\', 'n']
    } else if c == '\t' {
        seq!['\\', 't']
    } else if c == '\r' {
        seq!['\\', 'r']
    } else {
        seq![c]
    }
}

/// The escaped form of a value.
pub open spec fn esc(s: Seq<char>) -> Seq<char>
    decreases s.len(),
{
    if s.len() == 0 {
        Seq::empty()
    } else {
        esc(s.drop_last()) + esc_char(s.last())
    }
}

/// Escaping distributes over concatenation.
pub proof fn lemma_esc_add(a: Seq<char>, b: Seq<char>)
    ensures
        esc(a + b) == esc(a) + esc(b),
    decreases b.len(),
{
    if b.len() == 0 {
        assert(a + b =~= a);
        assert(esc(a) + esc(b) =~= esc(a));
    } else {
        assert((a + b).drop_last() =~= a + b.drop_last());
        assert((a + b).last() == b.last());
        lemma_esc_add(a, b.drop_last());
        assert(esc(a) + (esc(b.drop_last()) + esc_char(b.last())) =~= (esc(a) + esc(
            b.drop_last(),
        )) + esc_char(b.last()));
    }
}

/// An escaped value holds no raw newline and no unescaped quote at its start.
pub proof fn lemma_esc_no_newline(s: Seq<char>)
    ensures
        forall|i: int| 0 <= i < esc(s).len() ==> #[trigger] esc(s)[i] != '\n',
    decreases s.len(),
{
    if s.len() > 0 {
        lemma_esc_no_newline(s.drop_last());
        assert forall|i: int| 0 <= i < esc(s).len() implies #[trigger] esc(s)[i] != '\n' by {
            if i < esc(s.drop_last()).len() {
                assert(esc(s)[i] == esc(s.drop_last())[i]);
            } else {
                assert(esc(s)[i] == esc_char(s.last())[i - esc(s.drop_last()).len()]);
            }
        }
    }
}

/// What one escape sequence stands for.
pub open spec fn unesc_char(c: char) -> Option<char> {
    if c == '"' {
        Some('"')
    } else if c == '\\' {
        Some('\\')
    } else if c == 'n' {
        Some('\n')
    } else if c == 't' {
        Some('\t')
    } else if c == 'r' {
        Some('\r')
    } else {
        None
    }
}

/// The value a quoted body stands for: a raw quote, a dangling backslash or
/// an unknown escape make it meaningless.
pub open spec fn unescape(s: Seq<char>) -> Option<Seq<char>>
    decreases s.len(),
{
    if s.len() == 0 {
        Some(Seq::empty())
    } else if s[0] == '"' {
        None
    } else if s[0] == '\\' {
        if s.len() == 1 {
            None
        } else {
            match unesc_char(s[1]) {
                Some(ch) => match unescape(s.subrange(2, s.len() as int)) {
                    Some(rest) => Some(seq![ch] + rest),
                    None => None,
                },
                None => None,
            }
        }
    } else {
        match unescape(s.drop_first()) {
            Some(rest) => Some(seq![s[0]] + rest),
            None => None,
        }
    }
}

/// Unescaping inverts escaping: every value survives the round trip.
pub proof fn lemma_unescape_esc(v: Seq<char>)
    ensures
        unescape(esc(v)) == Some(v),
    decreases v.len(),
{
    if v.len() == 0 {
    } else {
        let c = v[0];
        let rest = v.drop_first();
        assert(v =~= seq![c] + rest);
        lemma_esc_add(seq![c], rest);
        assert(seq![c].drop_last() =~= Seq::<char>::empty());
        assert(seq![c].last() == c);
        assert(esc(seq![c]) == esc(seq![c].drop_last()) + esc_char(c));
        assert(esc(seq![c].drop_last()) == esc(Seq::<char>::empty()));
        assert(esc(Seq::<char>::empty()) == Seq::<char>::empty());
        assert(Seq::<char>::empty() + esc_char(c) =~= esc_char(c));
        assert(esc(seq![c]) =~= esc_char(c));
        let e = esc(v);
        assert(e =~= esc_char(c) + esc(rest));
        lemma_unescape_esc(rest);
        if c == '"' || c == '\\' || c == '\n' || c == '\t' || c == '\r' {
            assert(e[0] == '\\');
            assert(e.len() >= 2);
            assert(unesc_char(e[1]) == Some(c));
            assert(e.subrange(2, e.len() as int) =~= esc(rest));
            assert(unescape(e) == Some(seq![c] + rest));
            assert(seq![c] + rest =~= v);
        } else {
            assert(e[0] == c);
            assert(e.drop_first() =~= esc(rest));
            assert(unescape(e) == Some(seq![c] + rest));
            assert(seq![c] + rest =~= v);
        }
    }
}

// ---------------------------------------------------------------------------
// Emitting
// ---------------------------------------------------------------------------
/// One `key = "value"` line, with its newline.
pub open spec fn str_line(key: Seq<char>, v: Seq<char>) -> Seq<char> {
    key + " = \""@ + esc(v) + "\"\n"@
}

/// One `key = true` / `key = false` line, with its newline.
pub open spec fn bool_line(key: Seq<char>, b: bool) -> Seq<char> {
    key + " = "@ + (if b {
        "true"@
    } else {
        "false"@
    }) + "\n"@
}

/// A string line for a present value, nothing for an absent one.
pub open spec fn opt_str_line(key: Seq<char>, o: Option<Seq<char>>) -> Seq<char> {
    match o {
        Some(v) => str_line(key, v),
        None => Seq::empty(),
    }
}

/// The header, name, admin flag and color of one emitted command record.
pub open spec fn emit_command_head(c: CommandView) -> Seq<char> {
    "[[command]]\n"@ + str_line("name"@, c.name) + (match c.admin {
        Some(b) => bool_line("admin"@, b),
        None => Seq::empty(),
    }) + (match c.color {
        Some(col) => str_line("color"@, color_name(col)),
        None => Seq::empty(),
    })
}

/// The help, path, response type and target of one emitted command record.
pub open spec fn emit_command_tail(c: CommandView) -> Seq<char> {
    opt_str_line("help"@, c.help) + opt_str_line("path"@, c.url_path) + (
    match c.response_type {
        Some(t) => str_line("response_type"@, response_name(t)),
        None => Seq::empty(),
    }) + opt_str_line("target"@, c.target)
}

/// The emitted form of one command record.
pub open spec fn emit_command(c: CommandView) -> Seq<char> {
    emit_command_head(c) + emit_command_tail(c)
}

/// The emitted form of a command list.
pub open spec fn emit_commands(cs: Seq<CommandView>) -> Seq<char>
    decreases cs.len(),
{
    if cs.len() == 0 {
        Seq::empty()
    } else {
        emit_commands(cs.drop_last()) + emit_command(cs.last())
    }
}

/// The emitted form of a whole document.
pub open spec fn emit_doc(d: ConfigView) -> Seq<char> {
    str_line("discord_token"@, d.discord_token) + str_line("log_path"@, d.log_path)
        + opt_str_line("help_message"@, d.help_message) + opt_str_line(
        "command_prefix"@,
        d.command_prefix,
    ) + opt_str_line("site_url"@, d.site_url) + (match d.help_color {
        Some(c) => str_line("help_color"@, color_name(c)),
        None => Seq::empty(),
    }) + emit_commands(doc_commands(d))
}

fn append_escaped(out: &mut String, v: &str)
    ensures
        final(out)@ == old(out)@ + esc(v@),
{
    let cs = crate::text::str_chars(v);
    let ghost base = out@;
    let mut i: usize = 0;
    while i < cs.len()
        invariant
            cs@ == v@,
            i <= cs@.len(),
            out@ == base + esc(cs@.subrange(0, i as int)),
        decreases cs@.len() - i,
    {
        let ghost prefix = cs@.subrange(0, i as int);
        let ghost next_prefix = cs@.subrange(0, i + 1 as int);
        proof {
            assert(next_prefix.drop_last() =~= prefix);
            assert(next_prefix.last() == cs@[i as int]);
        }
        let c = cs[i];
        if c == '"' {
            out.push('\\');
            out.push('"');
        } else if c == '\\' {
            out.push('\\');
            out.push('\\');
        } else if c == '\n' {
            out.push('\\');
            out.push('n');
        } else if c == '\t' {
            out.push('\\');
            out.push('t');
        } else if c == '\r' {
            out.push('\\');
            out.push('r');
        } else {
            out.push(c);
        }
        assert(out@ =~= base + esc(next_prefix));
        i += 1;
    }
    proof {
        assert(cs@.subrange(0, cs@.len() as int) =~= cs@);
    }
}

fn append_str_line(out: &mut String, key: &str, v: &str)
    ensures
        final(out)@ == old(out)@ + str_line(key@, v@),
{
    out.append(key);
    out.append(" = \"");
    append_escaped(out, v);
    out.append("\"\n");
    assert(out@ =~= old(out)@ + str_line(key@, v@));
}

fn append_bool_line(out: &mut String, key: &str, b: bool)
    ensures
        final(out)@ == old(out)@ + bool_line(key@, b),
{
    out.append(key);
    out.append(" = ");
    if b {
        out.append("true");
    } else {
        out.append("false");
    }
    out.append("\n");
    assert(out@ =~= old(out)@ + bool_line(key@, b));
}

#[verifier::rlimit(50)]
fn append_command_head(out: &mut String, c: &Command)
    ensures
        final(out)@ == old(out)@ + emit_command_head(c@),
{
    out.append("[[command]]\n");
    append_str_line(out, "name", c.name.as_str());
    match &c.admin {
        Some(b) => append_bool_line(out, "admin", *b),
        None => (),
    }
    match &c.color {
        Some(col) => append_str_line(out, "color", col.as_str()),
        None => (),
    }
    assert(out@ =~= old(out)@ + emit_command_head(c@));
}

#[verifier::rlimit(50)]
fn append_command_tail(out: &mut String, c: &Command)
    ensures
        final(out)@ == old(out)@ + emit_command_tail(c@),
{
    match &c.help {
        Some(h) => append_str_line(out, "help", h.as_str()),
        None => (),
    }
    match &c.url_path {
        Some(p) => append_str_line(out, "path", p.as_str()),
        None => (),
    }
    match &c.response_type {
        Some(t) => append_str_line(out, "response_type", t.as_str()),
        None => (),
    }
    match &c.target {
        Some(t) => append_str_line(out, "target", t.as_str()),
        None => (),
    }
    assert(out@ =~= old(out)@ + emit_command_tail(c@));
}

fn append_command(out: &mut String, c: &Command)
    ensures
        final(out)@ == old(out)@ + emit_command(c@),
{
    append_command_head(out, c);
    append_command_tail(out, c);
    assert(out@ =~= old(out)@ + emit_command(c@));
}

impl Config {
    /// The persistable text of this document.
    pub fn serialize(&self) -> (r: String)
        ensures
            r@ == emit_doc(self@),
    {
        let mut out = String::new();
        append_str_line(&mut out, "discord_token", self.discord_token.as_str());
        append_str_line(&mut out, "log_path", self.log_path.as_str());
        match &self.help_message {
            Some(h) => append_str_line(&mut out, "help_message", h.as_str()),
            None => (),
        }
        match &self.command_prefix {
            Some(p) => append_str_line(&mut out, "command_prefix", p.as_str()),
            None => (),
        }
        match &self.site_url {
            Some(u) => append_str_line(&mut out, "site_url", u.as_str()),
            None => (),
        }
        match &self.help_color {
            Some(c) => append_str_line(&mut out, "help_color", c.as_str()),
            None => (),
        }
        let ghost head = out@;
        match &self.commands {
            Some(cmds) => {
                let ghost cs = cmds.deep_view();
                let mut i: usize = 0;
                while i < cmds.len()
                    invariant
                        cs == cmds.deep_view(),
                        i <= cs.len(),
                        out@ == head + emit_commands(cs.subrange(0, i as int)),
                    decreases cs.len() - i,
                {
                    let ghost prefix = cs.subrange(0, i as int);
                    let ghost next_prefix = cs.subrange(0, i + 1 as int);
                    proof {
                        assert(next_prefix.drop_last() =~= prefix);
                        assert(next_prefix.last() == cs[i as int]);
                    }
                    append_command(&mut out, &cmds[i]);
                    assert(out@ =~= head + emit_commands(next_prefix));
                    i += 1;
                }
                proof {
                    assert(cs.subrange(0, cs.len() as int) =~= cs);
                }
            },
            None => (),
        }
        assert(out@ =~= emit_doc(self@));
        out
    }
}


// ---------------------------------------------------------------------------
// Parsing: lines
// ---------------------------------------------------------------------------
/// Whether `p` is a prefix of `s`.
pub open spec fn starts_with(s: Seq<char>, p: Seq<char>) -> bool {
    p.len() <= s.len() && s.subrange(0, p.len() as int) == p
}

/// The text after `key = ` when the trimmed line starts with it.
pub open spec fn match_key(t: Seq<char>, key: Seq<char>) -> Option<Seq<char>> {
    let p = key + " = "@;
    if starts_with(t, p) {
        Some(t.subrange(p.len() as int, t.len() as int))
    } else {
        None
    }
}

/// A parsed value: a quoted string or a bare boolean.
pub enum SpecValue {
    VStr(Seq<char>),
    VBool(bool),
}

/// The value a trimmed value text stands for, if any.
pub open spec fn parse_value(vt: Seq<char>) -> Option<SpecValue> {
    if vt == "true"@ {
        Some(SpecValue::VBool(true))
    } else if vt == "false"@ {
        Some(SpecValue::VBool(false))
    } else if vt.len() >= 2 && vt[0] == '"' && vt[vt.len() - 1] == '"' {
        match unescape(vt.subrange(1, vt.len() - 1)) {
            Some(s) => Some(SpecValue::VStr(s)),
            None => None,
        }
    } else {
        None
    }
}

// ---------------------------------------------------------------------------
// Parsing: document assembly
// ---------------------------------------------------------------------------
/// A command record while its block is being read.
pub struct PartialCommand {
    pub name: Option<Seq<char>>,
    pub admin: Option<bool>,
    pub color: Option<Color>,
    pub help: Option<Seq<char>>,
    pub url_path: Option<Seq<char>>,
    pub response_type: Option<CommandResponse>,
    pub target: Option<Seq<char>>,
}

/// The parser state after some lines: the top-level fields seen so far, the
/// finished command records, and the block being read.
pub struct ParseState {
    pub discord_token: Option<Seq<char>>,
    pub log_path: Option<Seq<char>>,
    pub help_message: Option<Seq<char>>,
    pub command_prefix: Option<Seq<char>>,
    pub site_url: Option<Seq<char>>,
    pub help_color: Option<Color>,
    pub cmds: Seq<CommandView>,
    pub cur: Option<PartialCommand>,
}

pub open spec fn empty_partial() -> PartialCommand {
    PartialCommand {
        name: None,
        admin: None,
        color: None,
        help: None,
        url_path: None,
        response_type: None,
        target: None,
    }
}

pub open spec fn init_state() -> ParseState {
    ParseState {
        discord_token: None,
        log_path: None,
        help_message: None,
        command_prefix: None,
        site_url: None,
        help_color: None,
        cmds: Seq::empty(),
        cur: None,
    }
}

/// Finish the open command block, if any; a block without a name is a schema
/// error.
pub open spec fn close_cur(st: ParseState) -> Option<ParseState> {
    match st.cur {
        None => Some(st),
        Some(p) => match p.name {
            None => None,
            Some(n) => Some(
                ParseState {
                    cmds: st.cmds.push(
                        CommandView {
                            admin: p.admin,
                            name: n,
                            color: p.color,
                            help: p.help,
                            url_path: p.url_path,
                            response_type: p.response_type,
                            target: p.target,
                        },
                    ),
                    cur: None,
                    ..st
                },
            ),
        },
    }
}

pub open spec fn with_cur(st: ParseState, p: PartialCommand) -> ParseState {
    ParseState { cur: Some(p), ..st }
}

/// One `key = value` line inside a command block. Unknown keys are ignored;
/// a recognized key with a value of the wrong shape is a schema error.
pub open spec fn step_command_line(st: ParseState, p: PartialCommand, t: Seq<char>) -> Option<
    ParseState,
> {
    match match_key(t, "name"@) {
        Some(vt) => match parse_value(vt) {
            Some(SpecValue::VStr(s)) => Some(with_cur(st, PartialCommand { name: Some(s), ..p })),
            _ => None,
        },
        None => match match_key(t, "admin"@) {
            Some(vt) => match parse_value(vt) {
                Some(SpecValue::VBool(b)) => Some(
                    with_cur(st, PartialCommand { admin: Some(b), ..p }),
                ),
                _ => None,
            },
            None => match match_key(t, "color"@) {
                Some(vt) => match parse_value(vt) {
                    Some(SpecValue::VStr(s)) => match color_from_name(s) {
                        Some(c) => Some(with_cur(st, PartialCommand { color: Some(c), ..p })),
                        None => None,
                    },
                    _ => None,
                },
                None => match match_key(t, "help"@) {
                    Some(vt) => match parse_value(vt) {
                        Some(SpecValue::VStr(s)) => Some(
                            with_cur(st, PartialCommand { help: Some(s), ..p }),
                        ),
                        _ => None,
                    },
                    None => match match_key(t, "path"@) {
                        Some(vt) => match parse_value(vt) {
                            Some(SpecValue::VStr(s)) => Some(
                                with_cur(st, PartialCommand { url_path: Some(s), ..p }),
                            ),
                            _ => None,
                        },
                        None => match match_key(t, "response_type"@) {
                            Some(vt) => match parse_value(vt) {
                                Some(SpecValue::VStr(s)) => match response_from_name(s) {
                                    Some(rt) => Some(
                                        with_cur(
                                            st,
                                            PartialCommand { response_type: Some(rt), ..p },
                                        ),
                                    ),
                                    None => None,
                                },
                                _ => None,
                            },
                            None => match match_key(t, "target"@) {
                                Some(vt) => match parse_value(vt) {
                                    Some(SpecValue::VStr(s)) => Some(
                                        with_cur(st, PartialCommand { target: Some(s), ..p }),
                                    ),
                                    _ => None,
                                },
                                None => Some(st),
                            },
                        },
                    },
                },
            },
        },
    }
}

/// One `key = value` line at the top level. Unknown keys are ignored; a
/// recognized key with a value of the wrong shape is a schema error.
pub open spec fn step_top_line(st: ParseState, t: Seq<char>) -> Option<ParseState> {
    match match_key(t, "discord_token"@) {
        Some(vt) => match parse_value(vt) {
            Some(SpecValue::VStr(s)) => Some(ParseState { discord_token: Some(s), ..st }),
            _ => None,
        },
        None => match match_key(t, "log_path"@) {
            Some(vt) => match parse_value(vt) {
                Some(SpecValue::VStr(s)) => Some(ParseState { log_path: Some(s), ..st }),
                _ => None,
            },
            None => match match_key(t, "help_message"@) {
                Some(vt) => match parse_value(vt) {
                    Some(SpecValue::VStr(s)) => Some(ParseState { help_message: Some(s), ..st }),
                    _ => None,
                },
                None => match match_key(t, "command_prefix"@) {
                    Some(vt) => match parse_value(vt) {
                        Some(SpecValue::VStr(s)) => Some(
                            ParseState { command_prefix: Some(s), ..st },
                        ),
                        _ => None,
                    },
                    None => match match_key(t, "site_url"@) {
                        Some(vt) => match parse_value(vt) {
                            Some(SpecValue::VStr(s)) => Some(
                                ParseState { site_url: Some(s), ..st },
                            ),
                            _ => None,
                        },
                        None => match match_key(t, "help_color"@) {
                            Some(vt) => match parse_value(vt) {
                                Some(SpecValue::VStr(s)) => match color_from_name(s) {
                                    Some(c) => Some(ParseState { help_color: Some(c), ..st }),
                                    None => None,
                                },
                                _ => None,
                            },
                            None => Some(st),
                        },
                    },
                },
            },
        },
    }
}

/// What one line does to the parser state.
pub open spec fn step_line(st: ParseState, line: Seq<char>) -> Option<ParseState> {
    let t = trim(line);
    if t.len() == 0 {
        Some(st)
    } else if t[0] == '#' {
        Some(st)
    } else if t == "[[command]]"@ {
        match close_cur(st) {
            None => None,
            Some(st2) => Some(ParseState { cur: Some(empty_partial()), ..st2 }),
        }
    } else {
        match st.cur {
            Some(p) => step_command_line(st, p, t),
            None => step_top_line(st, t),
        }
    }
}

/// The parser state after all lines, in order.
pub open spec fn fold_lines(lines: Seq<Seq<char>>) -> Option<ParseState>
    decreases lines.len(),
{
    if lines.len() == 0 {
        Some(init_state())
    } else {
        match fold_lines(lines.drop_last()) {
            None => None,
            Some(st) => step_line(st, lines.last()),
        }
    }
}

/// The document a final parser state describes: the chat token and the log
/// path are required; no command blocks at all leaves the command list
/// absent.
pub open spec fn finish(st: ParseState) -> Option<ConfigView> {
    match close_cur(st) {
        None => None,
        Some(st2) => match st2.discord_token {
            None => None,
            Some(tok) => match st2.log_path {
                None => None,
                Some(lp) => Some(
                    ConfigView {
                        help_color: st2.help_color,
                        discord_token: tok,
                        log_path: lp,
                        help_message: st2.help_message,
                        command_prefix: st2.command_prefix,
                        site_url: st2.site_url,
                        commands: if st2.cmds.len() == 0 {
                            None
                        } else {
                            Some(st2.cmds)
                        },
                    },
                ),
            },
        },
    }
}

/// The document a text stands for, if it parses.
pub open spec fn parse_doc(s: Seq<char>) -> Option<ConfigView> {
    match fold_lines(split_lines(s)) {
        None => None,
        Some(st) => finish(st),
    }
}


// ---------------------------------------------------------------------------
// Parsing: executable side
// ---------------------------------------------------------------------------
/// Why a document failed to load.
#[derive(Clone, Copy, Debug, PartialEq, Eq, Structural)]
pub enum LoadError {
    /// No file contents were available.
    NotFound,
    /// The contents do not match the document schema.
    ParseError,
}

enum ExecValue {
    VStr(String),
    VBool(bool),
}

impl View for ExecValue {
    type V = SpecValue;

    closed spec fn view(&self) -> SpecValue {
        match self {
            ExecValue::VStr(s) => SpecValue::VStr(s@),
            ExecValue::VBool(b) => SpecValue::VBool(*b),
        }
    }
}

fn unescape_exec(body: &Vec<char>) -> (r: Option<Vec<char>>)
    ensures
        match r {
            Some(out) => unescape(body@) == Some(out@),
            None => unescape(body@) is None,
        },
{
    let n = body.len();
    let ghost full = body@;
    let mut out: Vec<char> = Vec::new();
    let mut i: usize = 0;
    proof {
        assert(full.subrange(0, n as int) =~= full);
    }
    while i < n
        invariant
            n == full.len(),
            full == body@,
            i <= n,
            match unescape(full.subrange(i as int, n as int)) {
                Some(rest) => unescape(full) == Some(out@ + rest),
                None => unescape(full) is None,
            },
        decreases n - i,
    {
        let ghost rem = full.subrange(i as int, n as int);
        proof {
            assert(rem[0] == full[i as int]);
        }
        let c = body[i];
        if c == '"' {
            return None;
        } else if c == '\\' {
            if i + 1 >= n {
                assert(rem.len() == 1);
                return None;
            }
            let e = body[i + 1];
            proof {
                assert(rem[1] == full[i + 1]);
                assert(rem.subrange(2, rem.len() as int) =~= full.subrange(i + 2, n as int));
            }
            let ch: char = if e == '"' {
                '"'
            } else if e == '\\' {
                '\\'
            } else if e == 'n' {
                '\n'
            } else if e == 't' {
                '\t'
            } else if e == 'r' {
                '\r'
            } else {
                return None;
            };
            assert(unesc_char(full[i + 1]) == Some(ch));
            let ghost out0 = out@;
            out.push(ch);
            proof {
                match unescape(full.subrange(i + 2, n as int)) {
                    Some(r2) => {
                        assert(unescape(rem) == Some(seq![ch] + r2));
                        assert(out0 + (seq![ch] + r2) =~= out@ + r2);
                    },
                    None => {},
                }
            }
            i += 2;
        } else {
            proof {
                assert(rem.drop_first() =~= full.subrange(i + 1, n as int));
            }
            let ghost out0 = out@;
            out.push(c);
            proof {
                match unescape(full.subrange(i + 1, n as int)) {
                    Some(r2) => {
                        assert(unescape(rem) == Some(seq![full[i as int]] + r2));
                        assert(out0 + (seq![full[i as int]] + r2) =~= out@ + r2);
                    },
                    None => {},
                }
            }
            i += 1;
        }
    }
    proof {
        assert(full.subrange(n as int, n as int) =~= Seq::<char>::empty());
        assert(out@ + Seq::<char>::empty() =~= out@);
    }
    Some(out)
}

fn parse_value_exec(vt: &str) -> (r: Option<ExecValue>)
    ensures
        match r {
            Some(v) => parse_value(vt@) == Some(v@),
            None => parse_value(vt@) is None,
        },
{
    if crate::text::str_eq(vt, "true") {
        return Some(ExecValue::VBool(true));
    }
    if crate::text::str_eq(vt, "false") {
        return Some(ExecValue::VBool(false));
    }
    let cs = crate::text::str_chars(vt);
    let n = cs.len();
    if n < 2 {
        return None;
    }
    if cs[0] != '"' || cs[n - 1] != '"' {
        return None;
    }
    let mut body: Vec<char> = Vec::new();
    let mut i: usize = 1;
    while i < n - 1
        invariant
            n == cs@.len(),
            cs@ == vt@,
            n >= 2,
            1 <= i <= n - 1,
            body@ == cs@.subrange(1, i as int),
        decreases n - i,
    {
        body.push(cs[i]);
        i += 1;
        assert(body@ =~= cs@.subrange(1, i as int));
    }
    assert(body@ =~= vt@.subrange(1, vt@.len() - 1));
    match unescape_exec(&body) {
        Some(out) => Some(ExecValue::VStr(crate::text::chars_string(&out))),
        None => None,
    }
}

fn match_key_exec(t: &str, key: &str) -> (r: Option<String>)
    ensures
        match r {
            Some(suffix) => match_key(t@, key@) == Some(suffix@),
            None => match_key(t@, key@) is None,
        },
{
    proof {
        reveal_strlit(" = ");
        assert(" = "@.len() == 3);
        assert(" = "@[0] == ' ' && " = "@[1] == '=' && " = "@[2] == ' ');
    }
    let ghost p = key@ + " = "@;
    let tc = crate::text::str_chars(t);
    let kc = crate::text::str_chars(key);
    let n = tc.len();
    let klen = kc.len();
    if n < klen || n - klen < 3 {
        assert(p.len() > t@.len());
        return None;
    }
    let mut j: usize = 0;
    while j < klen
        invariant
            n == tc@.len() && klen == kc@.len(),
            tc@ == t@ && kc@ == key@,
            p == key@ + " = "@,
            klen + 3 <= n,
            j <= klen,
            forall|x: int| 0 <= x < j ==> tc@[x] == kc@[x],
        decreases klen - j,
    {
        if tc[j] != kc[j] {
            proof {
                assert(p[j as int] == key@[j as int]);
                if starts_with(t@, p) {
                    assert(t@.subrange(0, p.len() as int)[j as int] == p[j as int]);
                }
            }
            return None;
        }
        j += 1;
    }
    if tc[klen] != ' ' {
        proof {
            assert(p[klen as int] == ' ');
            if starts_with(t@, p) {
                assert(t@.subrange(0, p.len() as int)[klen as int] == p[klen as int]);
            }
        }
        return None;
    }
    if tc[klen + 1] != '=' {
        proof {
            assert(p[klen + 1] == '=');
            if starts_with(t@, p) {
                assert(t@.subrange(0, p.len() as int)[klen + 1] == p[klen + 1]);
            }
        }
        return None;
    }
    if tc[klen + 2] != ' ' {
        proof {
            assert(p[klen + 2] == ' ');
            if starts_with(t@, p) {
                assert(t@.subrange(0, p.len() as int)[klen + 2] == p[klen + 2]);
            }
        }
        return None;
    }
    proof {
        assert forall|x: int| 0 <= x < p.len() implies t@.subrange(0, p.len() as int)[x]
            == p[x] by {
            if x < klen {
                assert(t@[x] == key@[x]);
            }
        }
        assert(t@.subrange(0, p.len() as int) =~= p);
        assert(starts_with(t@, p));
    }
    let mut suffix: Vec<char> = Vec::new();
    let mut m: usize = klen + 3;
    while m < n
        invariant
            n == tc@.len(),
            tc@ == t@,
            klen + 3 <= m <= n,
            suffix@ == t@.subrange(klen + 3, m as int),
        decreases n - m,
    {
        suffix.push(tc[m]);
        m += 1;
        assert(suffix@ =~= t@.subrange(klen + 3, m as int));
    }
    proof {
        assert(p.len() == klen + 3);
        assert(suffix@ =~= t@.subrange(p.len() as int, t@.len() as int));
    }
    Some(crate::text::chars_string(&suffix))
}

struct ExecPartial {
    name: Option<String>,
    admin: Option<bool>,
    color: Option<Color>,
    help: Option<String>,
    url_path: Option<String>,
    response_type: Option<CommandResponse>,
    target: Option<String>,
}

impl View for ExecPartial {
    type V = PartialCommand;

    closed spec fn view(&self) -> PartialCommand {
        PartialCommand {
            name: self.name.deep_view(),
            admin: self.admin,
            color: self.color,
            help: self.help.deep_view(),
            url_path: self.url_path.deep_view(),
            response_type: self.response_type,
            target: self.target.deep_view(),
        }
    }
}

struct ExecState {
    discord_token: Option<String>,
    log_path: Option<String>,
    help_message: Option<String>,
    command_prefix: Option<String>,
    site_url: Option<String>,
    help_color: Option<Color>,
    cmds: Vec<Command>,
    cur: Option<ExecPartial>,
}

impl View for ExecState {
    type V = ParseState;

    closed spec fn view(&self) -> ParseState {
        ParseState {
            discord_token: self.discord_token.deep_view(),
            log_path: self.log_path.deep_view(),
            help_message: self.help_message.deep_view(),
            command_prefix: self.command_prefix.deep_view(),
            site_url: self.site_url.deep_view(),
            help_color: self.help_color,
            cmds: self.cmds.deep_view(),
            cur: match &self.cur {
                Some(p) => Some(p@),
                None => None,
            },
        }
    }
}

fn exec_init_state() -> (r: ExecState)
    ensures
        r@ == init_state(),
{
    let r = ExecState {
        discord_token: None,
        log_path: None,
        help_message: None,
        command_prefix: None,
        site_url: None,
        help_color: None,
        cmds: Vec::new(),
        cur: None,
    };
    proof {
        assert(r.cmds.deep_view() =~= Seq::<CommandView>::empty());
    }
    r
}

fn close_cur_exec(st: ExecState) -> (r: Result<ExecState, LoadError>)
    ensures
        match r {
            Ok(st2) => close_cur(st@) == Some(st2@),
            Err(e) => close_cur(st@) is None && e == LoadError::ParseError,
        },
{
    let ExecState {
        discord_token,
        log_path,
        help_message,
        command_prefix,
        site_url,
        help_color,
        mut cmds,
        cur,
    } = st;
    match cur {
        None => Ok(
            ExecState {
                discord_token,
                log_path,
                help_message,
                command_prefix,
                site_url,
                help_color,
                cmds,
                cur: None,
            },
        ),
        Some(p) => match p.name {
            None => Err(LoadError::ParseError),
            Some(n) => {
                let ghost before = cmds.deep_view();
                cmds.push(
                    Command {
                        admin: p.admin,
                        name: n,
                        color: p.color,
                        help: p.help,
                        url_path: p.url_path,
                        response_type: p.response_type,
                        target: p.target,
                    },
                );
                proof {
                    assert(cmds.deep_view() =~= before.push(cmds.deep_view().last()));
                }
                Ok(
                    ExecState {
                        discord_token,
                        log_path,
                        help_message,
                        command_prefix,
                        site_url,
                        help_color,
                        cmds,
                        cur: None,
                    },
                )
            },
        },
    }
}

fn apply_command_line(mut st: ExecState, t: &str) -> (r: Result<ExecState, LoadError>)
    requires
        st@.cur is Some,
    ensures
        match r {
            Ok(st2) => step_command_line(st@, st@.cur->0, t@) == Some(st2@),
            Err(e) => step_command_line(st@, st@.cur->0, t@) is None && e == LoadError::ParseError,
        },
{
    if let Some(vt) = match_key_exec(t, "name") {
        match parse_value_exec(vt.as_str()) {
            Some(ExecValue::VStr(s)) => {
                if let Some(p) = &mut st.cur {
                    p.name = Some(s);
                }
                Ok(st)
            },
            _ => Err(LoadError::ParseError),
        }
    } else if let Some(vt) = match_key_exec(t, "admin") {
        match parse_value_exec(vt.as_str()) {
            Some(ExecValue::VBool(b)) => {
                if let Some(p) = &mut st.cur {
                    p.admin = Some(b);
                }
                Ok(st)
            },
            _ => Err(LoadError::ParseError),
        }
    } else if let Some(vt) = match_key_exec(t, "color") {
        match parse_value_exec(vt.as_str()) {
            Some(ExecValue::VStr(s)) => match Color::from_name(s.as_str()) {
                Some(c) => {
                    if let Some(p) = &mut st.cur {
                        p.color = Some(c);
                    }
                    Ok(st)
                },
                None => Err(LoadError::ParseError),
            },
            _ => Err(LoadError::ParseError),
        }
    } else if let Some(vt) = match_key_exec(t, "help") {
        match parse_value_exec(vt.as_str()) {
            Some(ExecValue::VStr(s)) => {
                if let Some(p) = &mut st.cur {
                    p.help = Some(s);
                }
                Ok(st)
            },
            _ => Err(LoadError::ParseError),
        }
    } else if let Some(vt) = match_key_exec(t, "path") {
        match parse_value_exec(vt.as_str()) {
            Some(ExecValue::VStr(s)) => {
                if let Some(p) = &mut st.cur {
                    p.url_path = Some(s);
                }
                Ok(st)
            },
            _ => Err(LoadError::ParseError),
        }
    } else if let Some(vt) = match_key_exec(t, "response_type") {
        match parse_value_exec(vt.as_str()) {
            Some(ExecValue::VStr(s)) => match CommandResponse::from_name(s.as_str()) {
                Some(rt) => {
                    if let Some(p) = &mut st.cur {
                        p.response_type = Some(rt);
                    }
                    Ok(st)
                },
                None => Err(LoadError::ParseError),
            },
            _ => Err(LoadError::ParseError),
        }
    } else if let Some(vt) = match_key_exec(t, "target") {
        match parse_value_exec(vt.as_str()) {
            Some(ExecValue::VStr(s)) => {
                if let Some(p) = &mut st.cur {
                    p.target = Some(s);
                }
                Ok(st)
            },
            _ => Err(LoadError::ParseError),
        }
    } else {
        Ok(st)
    }
}

fn apply_top_line(mut st: ExecState, t: &str) -> (r: Result<ExecState, LoadError>)
    ensures
        match r {
            Ok(st2) => step_top_line(st@, t@) == Some(st2@),
            Err(e) => step_top_line(st@, t@) is None && e == LoadError::ParseError,
        },
{
    if let Some(vt) = match_key_exec(t, "discord_token") {
        match parse_value_exec(vt.as_str()) {
            Some(ExecValue::VStr(s)) => {
                st.discord_token = Some(s);
                Ok(st)
            },
            _ => Err(LoadError::ParseError),
        }
    } else if let Some(vt) = match_key_exec(t, "log_path") {
        match parse_value_exec(vt.as_str()) {
            Some(ExecValue::VStr(s)) => {
                st.log_path = Some(s);
                Ok(st)
            },
            _ => Err(LoadError::ParseError),
        }
    } else if let Some(vt) = match_key_exec(t, "help_message") {
        match parse_value_exec(vt.as_str()) {
            Some(ExecValue::VStr(s)) => {
                st.help_message = Some(s);
                Ok(st)
            },
            _ => Err(LoadError::ParseError),
        }
    } else if let Some(vt) = match_key_exec(t, "command_prefix") {
        match parse_value_exec(vt.as_str()) {
            Some(ExecValue::VStr(s)) => {
                st.command_prefix = Some(s);
                Ok(st)
            },
            _ => Err(LoadError::ParseError),
        }
    } else if let Some(vt) = match_key_exec(t, "site_url") {
        match parse_value_exec(vt.as_str()) {
            Some(ExecValue::VStr(s)) => {
                st.site_url = Some(s);
                Ok(st)
            },
            _ => Err(LoadError::ParseError),
        }
    } else if let Some(vt) = match_key_exec(t, "help_color") {
        match parse_value_exec(vt.as_str()) {
            Some(ExecValue::VStr(s)) => match Color::from_name(s.as_str()) {
                Some(c) => {
                    st.help_color = Some(c);
                    Ok(st)
                },
                None => Err(LoadError::ParseError),
            },
            _ => Err(LoadError::ParseError),
        }
    } else {
        Ok(st)
    }
}

fn apply_line(st: ExecState, line: &str) -> (r: Result<ExecState, LoadError>)
    ensures
        match r {
            Ok(st2) => step_line(st@, line@) == Some(st2@),
            Err(e) => step_line(st@, line@) is None && e == LoadError::ParseError,
        },
{
    let t = crate::text::trim_str(line);
    if t.unicode_len() == 0 {
        return Ok(st);
    }
    if t.as_str().get_char(0) == '#' {
        return Ok(st);
    }
    if crate::text::str_eq(t.as_str(), "[[command]]") {
        proof {
            reveal_strlit("[[command]]");
            assert("[[command]]"@[0] == '[');
        }
        match close_cur_exec(st) {
            Ok(mut st2) => {
                st2.cur = Some(
                    ExecPartial {
                        name: None,
                        admin: None,
                        color: None,
                        help: None,
                        url_path: None,
                        response_type: None,
                        target: None,
                    },
                );
                Ok(st2)
            },
            Err(e) => Err(e),
        }
    } else if st.cur.is_some() {
        apply_command_line(st, t.as_str())
    } else {
        apply_top_line(st, t.as_str())
    }
}

proof fn lemma_fold_error_sticks(lines: Seq<Seq<char>>, i: int)
    requires
        0 <= i <= lines.len(),
        fold_lines(lines.subrange(0, i)) is None,
    ensures
        fold_lines(lines) is None,
    decreases lines.len() - i,
{
    if i == lines.len() {
        assert(lines.subrange(0, i) =~= lines);
    } else {
        assert(lines.subrange(0, i + 1).drop_last() =~= lines.subrange(0, i));
        lemma_fold_error_sticks(lines, i + 1);
    }
}

/// Parse the given file contents into a configuration document. `None`
/// contents mean the file could not be read at all.
pub fn get_conf(contents: Option<&str>) -> (r: Result<Config, LoadError>)
    ensures
        match contents {
            None => r == Err::<Config, LoadError>(LoadError::NotFound),
            Some(text) => match parse_doc(text@) {
                Some(d) => (r matches Ok(c) && c@ == d),
                None => r == Err::<Config, LoadError>(LoadError::ParseError),
            },
        },
{
    let text = match contents {
        Some(t) => t,
        None => {
            return Err(LoadError::NotFound);
        },
    };
    let lines = split_lines_exec(text);
    let ghost lv = lines.deep_view();
    proof {
        assert(lv.subrange(0, 0) =~= Seq::<Seq<char>>::empty());
    }
    let mut st = exec_init_state();
    let mut i: usize = 0;
    while i < lines.len()
        invariant
            contents == Some(text),
            lv == lines.deep_view(),
            lv == split_lines(text@),
            i <= lv.len(),
            fold_lines(lv.subrange(0, i as int)) == Some(st@),
        decreases lv.len() - i,
    {
        let ghost prefix = lv.subrange(0, i as int);
        let ghost next_prefix = lv.subrange(0, i + 1 as int);
        proof {
            assert(next_prefix.drop_last() =~= prefix);
            assert(next_prefix.last() == lv[i as int]);
        }
        match apply_line(st, lines[i].as_str()) {
            Ok(st2) => {
                st = st2;
            },
            Err(e) => {
                proof {
                    lemma_fold_error_sticks(lv, i + 1);
                }
                return Err(e);
            },
        }
        i += 1;
    }
    proof {
        assert(lv.subrange(0, lv.len() as int) =~= lv);
    }
    let st2 = match close_cur_exec(st) {
        Ok(s) => s,
        Err(e) => {
            return Err(e);
        },
    };
    let tok = match st2.discord_token {
        Some(t) => t,
        None => {
            return Err(LoadError::ParseError);
        },
    };
    let lp = match st2.log_path {
        Some(l) => l,
        None => {
            return Err(LoadError::ParseError);
        },
    };
    let commands: Option<Vec<Command>> = if st2.cmds.len() == 0 {
        proof {
            assert(st2.cmds.deep_view() =~= Seq::<CommandView>::empty());
        }
        None
    } else {
        Some(st2.cmds)
    };
    let c = Config {
        help_color: st2.help_color,
        discord_token: tok,
        log_path: lp,
        help_message: st2.help_message,
        command_prefix: st2.command_prefix,
        site_url: st2.site_url,
        commands,
    };
    Ok(c)
}

} // verus!

