//! The law of the document codec: serializing a document and loading the
//! text back yields the same document, up to one representation detail — an
//! empty command list reads back as an absent one. In particular the store
//! the reloaded document normalizes to is exactly the original one.

use vstd::prelude::*;

use crate::codec::{
    ParseState, SpecValue, bool_line, close_cur, emit_command, emit_command_tail, emit_commands,
    emit_doc, empty_partial, esc, fold_lines, init_state, lemma_esc_no_newline,
    lemma_unescape_esc, match_key, parse_doc, parse_value, starts_with, step_line, str_line,
    with_cur,
};
use crate::document::{CommandView, ConfigView, doc_commands};
use crate::text::{split_lines, trim};

verus! {

/// The parser state after some more lines, starting from a given state.
pub open spec fn fold_from(st: ParseState, lines: Seq<Seq<char>>) -> Option<ParseState>
    decreases lines.len(),
{
    if lines.len() == 0 {
        Some(st)
    } else {
        match step_line(st, lines[0]) {
            None => None,
            Some(st2) => fold_from(st2, lines.drop_first()),
        }
    }
}

#[verifier::rlimit(50)]
proof fn lemma_fold_from_snoc(st: ParseState, lines: Seq<Seq<char>>)
    requires
        lines.len() > 0,
    ensures
        fold_from(st, lines) == (match fold_from(st, lines.drop_last()) {
            Some(m) => step_line(m, lines.last()),
            None => None,
        }),
    decreases lines.len(),
{
    if lines.len() == 1 {
        assert(lines.drop_last() =~= Seq::<Seq<char>>::empty());
        assert(fold_from(st, lines.drop_last()) == Some(st));
        match step_line(st, lines[0]) {
            None => {
                assert(fold_from(st, lines) is None);
            },
            Some(st2) => {
                assert(lines.drop_first() =~= Seq::<Seq<char>>::empty());
                assert(fold_from(st2, lines.drop_first()) == Some(st2));
                assert(fold_from(st, lines) == Some(st2));
            },
        }
    } else {
        assert(lines.drop_last().len() > 0);
        assert(lines.drop_last()[0] == lines[0]);
        match step_line(st, lines[0]) {
            None => {
                assert(fold_from(st, lines) is None);
                assert(fold_from(st, lines.drop_last()) is None);
            },
            Some(st2) => {
                lemma_fold_from_snoc(st2, lines.drop_first());
                assert(lines.drop_first().drop_last() =~= lines.drop_last().drop_first());
                assert(lines.drop_first().last() == lines.last());
                assert(fold_from(st, lines) == fold_from(st2, lines.drop_first()));
                assert(fold_from(st, lines.drop_last()) == fold_from(
                    st2,
                    lines.drop_last().drop_first(),
                ));
            },
        }
    }
}

/// `fold_lines` is the same fold, started from the initial state.
proof fn lemma_fold_lines_is_fold_from(lines: Seq<Seq<char>>)
    ensures
        fold_lines(lines) == fold_from(init_state(), lines),
    decreases lines.len(),
{
    if lines.len() > 0 {
        lemma_fold_lines_is_fold_from(lines.drop_last());
        lemma_fold_from_snoc(init_state(), lines);
    }
}

/// Splitting a text that starts with one newline-free line peels that line.
proof fn lemma_split_line(l: Seq<char>, rest: Seq<char>)
    requires
        forall|i: int| 0 <= i < l.len() ==> l[i] != '\n',
    ensures
        split_lines(l + seq!['\n'] + rest) == seq![l] + split_lines(rest),
    decreases l.len(),
{
    let s = l + seq!['\n'] + rest;
    if l.len() == 0 {
        assert(l =~= Seq::<char>::empty());
        assert(s[0] == '\n');
        assert(s.drop_first() =~= rest);
        assert(seq![Seq::<char>::empty()] + split_lines(rest) =~= seq![l] + split_lines(rest));
    } else {
        assert(s[0] == l[0]);
        assert(s[0] != '\n');
        assert(s.drop_first() =~= l.drop_first() + seq!['\n'] + rest);
        lemma_split_line(l.drop_first(), rest);
        let inner = split_lines(l.drop_first() + seq!['\n'] + rest);
        assert(inner == seq![l.drop_first()] + split_lines(rest));
        assert(inner[0] == l.drop_first());
        assert(seq![s[0]] + inner[0] =~= l);
        assert(inner.drop_first() =~= split_lines(rest));
        assert(split_lines(s) =~= seq![l] + split_lines(rest));
    }
}


/// A quoted value text: the escaped value between two quotes.
pub open spec fn quoted(v: Seq<char>) -> Seq<char> {
    seq!['"'] + esc(v) + seq!['"']
}

/// The content (without the final newline) of a `key = "value"` line.
pub open spec fn str_content(key: Seq<char>, v: Seq<char>) -> Seq<char> {
    key + " = "@ + quoted(v)
}

/// The content (without the final newline) of a boolean line.
pub open spec fn bool_content(key: Seq<char>, b: bool) -> Seq<char> {
    key + " = "@ + (if b {
        "true"@
    } else {
        "false"@
    })
}

/// The concrete characters of every literal the emitted lines use.
proof fn lemma_literals()
    ensures
        " = "@.len() == 3 && " = "@[0] == ' ' && " = "@[1] == '=' && " = "@[2] == ' ',
        " = \""@ =~= " = "@ + seq!['"'],
        "\"\n"@ =~= seq!['"', '\n'],
        "\n"@ =~= seq!['\n'],
        "true"@.len() == 4 && "true"@[0] == 't' && "true"@[3] == 'e',
        "false"@.len() == 5 && "false"@[0] == 'f' && "false"@[4] == 'e',
        forall|j: int| 0 <= j < "true"@.len() ==> "true"@[j] != '\n',
        forall|j: int| 0 <= j < "false"@.len() ==> "false"@[j] != '\n',
        "[[command]]"@.len() == 11 && "[[command]]"@[0] == '[' && "[[command]]"@[10] == ']',
        forall|j: int| 0 <= j < "[[command]]"@.len() ==> "[[command]]"@[j] != '\n',
        "[[command]]\n"@ =~= "[[command]]"@ + seq!['\n'],
        "name"@.len() == 4 && "name"@[0] == 'n',
        "admin"@.len() == 5 && "admin"@[0] == 'a',
        "color"@.len() == 5 && "color"@[0] == 'c',
        "help"@.len() == 4 && "help"@[0] == 'h',
        "path"@.len() == 4 && "path"@[0] == 'p',
        "response_type"@.len() == 13 && "response_type"@[0] == 'r',
        "target"@.len() == 6 && "target"@[0] == 't',
        "discord_token"@.len() == 13 && "discord_token"@[0] == 'd',
        "log_path"@.len() == 8 && "log_path"@[0] == 'l',
        "help_message"@.len() == 12 && "help_message"@[0] == 'h',
        "command_prefix"@.len() == 14 && "command_prefix"@[0] == 'c',
        "site_url"@.len() == 8 && "site_url"@[0] == 's',
        "help_color"@.len() == 10 && "help_color"@[0] == 'h',
        "help_message"@[5] == 'm' && "help_color"@[5] == 'c',
        forall|j: int| 0 <= j < "name"@.len() ==> "name"@[j] != '\n',
        forall|j: int| 0 <= j < "admin"@.len() ==> "admin"@[j] != '\n',
        forall|j: int| 0 <= j < "color"@.len() ==> "color"@[j] != '\n',
        forall|j: int| 0 <= j < "help"@.len() ==> "help"@[j] != '\n',
        forall|j: int| 0 <= j < "path"@.len() ==> "path"@[j] != '\n',
        forall|j: int| 0 <= j < "response_type"@.len() ==> "response_type"@[j] != '\n',
        forall|j: int| 0 <= j < "target"@.len() ==> "target"@[j] != '\n',
        forall|j: int| 0 <= j < "discord_token"@.len() ==> "discord_token"@[j] != '\n',
        forall|j: int| 0 <= j < "log_path"@.len() ==> "log_path"@[j] != '\n',
        forall|j: int| 0 <= j < "help_message"@.len() ==> "help_message"@[j] != '\n',
        forall|j: int| 0 <= j < "command_prefix"@.len() ==> "command_prefix"@[j] != '\n',
        forall|j: int| 0 <= j < "site_url"@.len() ==> "site_url"@[j] != '\n',
        forall|j: int| 0 <= j < "help_color"@.len() ==> "help_color"@[j] != '\n',
{
    reveal_strlit(" = ");
    reveal_strlit(" = \"");
    reveal_strlit("\"\n");
    reveal_strlit("\n");
    reveal_strlit("true");
    reveal_strlit("false");
    reveal_strlit("[[command]]");
    reveal_strlit("[[command]]\n");
    reveal_strlit("name");
    reveal_strlit("admin");
    reveal_strlit("color");
    reveal_strlit("help");
    reveal_strlit("path");
    reveal_strlit("response_type");
    reveal_strlit("target");
    reveal_strlit("discord_token");
    reveal_strlit("log_path");
    reveal_strlit("help_message");
    reveal_strlit("command_prefix");
    reveal_strlit("site_url");
    reveal_strlit("help_color");
}

/// An emitted string line is its content plus a newline.
proof fn lemma_str_line_shape(key: Seq<char>, v: Seq<char>)
    ensures
        str_line(key, v) =~= str_content(key, v) + seq!['\n'],
{
    lemma_literals();
}

proof fn lemma_bool_line_shape(key: Seq<char>, b: bool)
    ensures
        bool_line(key, b) =~= bool_content(key, b) + seq!['\n'],
{
    lemma_literals();
}

/// A string-line content holds no newline when its key holds none.
proof fn lemma_str_content_no_nl(key: Seq<char>, v: Seq<char>)
    requires
        forall|j: int| 0 <= j < key.len() ==> key[j] != '\n',
    ensures
        forall|j: int| 0 <= j < str_content(key, v).len() ==> #[trigger] str_content(key, v)[j]
            != '\n',
{
    lemma_literals();
    lemma_esc_no_newline(v);
    let t = str_content(key, v);
    assert forall|j: int| 0 <= j < t.len() implies #[trigger] t[j] != '\n' by {
        if j < key.len() {
            assert(t[j] == key[j]);
        } else if j < key.len() + 3 {
            assert(t[j] == " = "@[j - key.len()]);
        } else if j == key.len() + 3 {
            assert(t[j] == quoted(v)[0]);
        } else if j < key.len() + 4 + esc(v).len() {
            assert(t[j] == esc(v)[j - key.len() - 4]);
        } else {
            assert(t[j] == quoted(v)[quoted(v).len() - 1]);
            assert(quoted(v)[quoted(v).len() - 1] == '"');
        }
    }
}

proof fn lemma_bool_content_no_nl(key: Seq<char>, b: bool)
    requires
        forall|j: int| 0 <= j < key.len() ==> key[j] != '\n',
    ensures
        forall|j: int| 0 <= j < bool_content(key, b).len() ==> #[trigger] bool_content(key, b)[j]
            != '\n',
{
    lemma_literals();
    let w = if b {
        "true"@
    } else {
        "false"@
    };
    let t = bool_content(key, b);
    assert forall|j: int| 0 <= j < t.len() implies #[trigger] t[j] != '\n' by {
        if j < key.len() {
            assert(t[j] == key[j]);
        } else if j < key.len() + 3 {
            assert(t[j] == " = "@[j - key.len()]);
        } else {
            assert(t[j] == w[j - key.len() - 3]);
        }
    }
}

/// A line that literally starts with `key = ` matches that key.
proof fn lemma_match_key_hit(key: Seq<char>, tail: Seq<char>)
    ensures
        match_key(key + " = "@ + tail, key) == Some(tail),
{
    let t = key + " = "@ + tail;
    let p = key + " = "@;
    assert(t.subrange(0, p.len() as int) =~= p);
    assert(starts_with(t, p));
    assert(t.subrange(p.len() as int, t.len() as int) =~= tail);
}

/// A line that differs from `key = ` within the key does not match it.
proof fn lemma_match_key_miss(t: Seq<char>, key2: Seq<char>, j: int)
    requires
        0 <= j < key2.len(),
        j < t.len(),
        t[j] != key2[j],
    ensures
        match_key(t, key2) is None,
{
    let p = key2 + " = "@;
    assert(p[j] == key2[j]);
    if starts_with(t, p) {
        assert(t.subrange(0, p.len() as int)[j] == p[j]);
        assert(t[j] == key2[j]);
    }
}

/// A quoted value text parses back to the value.
proof fn lemma_parse_value_quoted(v: Seq<char>)
    ensures
        parse_value(quoted(v)) == Some(SpecValue::VStr(v)),
{
    lemma_literals();
    lemma_unescape_esc(v);
    let vt = quoted(v);
    assert(vt[0] == '"');
    assert(vt[vt.len() - 1] == '"');
    assert(vt != "true"@) by {
        if vt == "true"@ {
            assert(vt[0] == 't');
        }
    }
    assert(vt != "false"@) by {
        if vt == "false"@ {
            assert(vt[0] == 'f');
        }
    }
    assert(vt.subrange(1, vt.len() - 1) =~= esc(v));
}


/// Shared facts about one emitted content line `key = tail`.
proof fn lemma_content_line_basics(key: Seq<char>, tail: Seq<char>)
    requires
        key.len() > 0,
        !crate::text::is_space_char(key[0]),
        tail.len() > 0,
        !crate::text::is_space_char(tail[tail.len() - 1]),
    ensures
        ({
            let t = key + " = "@ + tail;
            trim(t) == t && t.len() > 0 && t[0] == key[0] && t[t.len() - 1] == tail[tail.len()
                - 1]
        }),
{
    lemma_literals();
    let t = key + " = "@ + tail;
    assert(t[0] == key[0]);
    assert(t[t.len() - 1] == tail[tail.len() - 1]);
    crate::text::lemma_trimmed_fixpoint(t);
}

proof fn lemma_quoted_ends(v: Seq<char>)
    ensures
        quoted(v).len() >= 2,
        quoted(v)[0] == '"',
        quoted(v)[quoted(v).len() - 1] == '"',
        !crate::text::is_space_char(quoted(v)[quoted(v).len() - 1]),
{
}

/// A step on a content line lands in the key-value branch of the right
/// context: it is no blank, no comment, and no block header.
proof fn lemma_step_content_dispatch(st: ParseState, key: Seq<char>, tail: Seq<char>)
    requires
        key.len() > 0,
        !crate::text::is_space_char(key[0]),
        key[0] != '#',
        key[0] != '[',
        tail.len() > 0,
        !crate::text::is_space_char(tail[tail.len() - 1]),
    ensures
        ({
            let t = key + " = "@ + tail;
            step_line(st, t) == (match st.cur {
                Some(p) => crate::codec::step_command_line(st, p, t),
                None => crate::codec::step_top_line(st, t),
            })
        }),
{
    lemma_literals();
    lemma_content_line_basics(key, tail);
    let t = key + " = "@ + tail;
    assert(t[0] != '#');
    assert(t != "[[command]]"@) by {
        if t == "[[command]]"@ {
            assert(t[0] == '[');
        }
    }
}

/// A block header line closes the open block and opens a fresh one.
proof fn lemma_step_header(st: ParseState)
    ensures
        step_line(st, "[[command]]"@) == (match close_cur(st) {
            None => None,
            Some(st2) => Some(ParseState { cur: Some(empty_partial()), ..st2 }),
        }),
{
    lemma_literals();
    let t = "[[command]]"@;
    assert(!crate::text::is_space_char(t[0]));
    assert(!crate::text::is_space_char(t[t.len() - 1]));
    crate::text::lemma_trimmed_fixpoint(t);
    assert(t[0] != '#');
}


proof fn lemma_step_cmd_name(st: ParseState, p: crate::codec::PartialCommand, v: Seq<char>)
    requires
        st.cur == Some(p),
    ensures
        step_line(st, str_content("name"@, v)) == Some(with_cur(st, crate::codec::PartialCommand { name: Some(v), ..p })),
{
    lemma_literals();
    let tail = quoted(v);
    lemma_quoted_ends(v);
    lemma_step_content_dispatch(st, "name"@, tail);
    let t = "name"@ + " = "@ + tail;
    assert(str_content("name"@, v) == t);

        lemma_match_key_hit("name"@, tail);
        lemma_parse_value_quoted(v);
}


proof fn lemma_step_cmd_admin(st: ParseState, p: crate::codec::PartialCommand, b: bool)
    requires
        st.cur == Some(p),
    ensures
        step_line(st, bool_content("admin"@, b)) == Some(with_cur(st, crate::codec::PartialCommand { admin: Some(b), ..p })),
{
    lemma_literals();
    let tail = (if b { "true"@ } else { "false"@ });
    assert(tail.len() > 0 && !crate::text::is_space_char(tail[tail.len() - 1]));
    lemma_step_content_dispatch(st, "admin"@, tail);
    let t = "admin"@ + " = "@ + tail;
    assert(bool_content("admin"@, b) == t);
        lemma_match_key_miss(t, "name"@, 0);
        lemma_match_key_hit("admin"@, tail);
}


proof fn lemma_step_cmd_color(st: ParseState, p: crate::codec::PartialCommand, v: Seq<char>)
    requires
        st.cur == Some(p),
    ensures
        step_line(st, str_content("color"@, v)) == (match crate::color::color_from_name(v) {
            Some(c) => Some(with_cur(st, crate::codec::PartialCommand { color: Some(c), ..p })),
            None => None,
        }),
{
    lemma_literals();
    let tail = quoted(v);
    lemma_quoted_ends(v);
    lemma_step_content_dispatch(st, "color"@, tail);
    let t = "color"@ + " = "@ + tail;
    assert(str_content("color"@, v) == t);
        lemma_match_key_miss(t, "name"@, 0);
        lemma_match_key_miss(t, "admin"@, 0);
        lemma_match_key_hit("color"@, tail);
        lemma_parse_value_quoted(v);
}


proof fn lemma_step_cmd_help(st: ParseState, p: crate::codec::PartialCommand, v: Seq<char>)
    requires
        st.cur == Some(p),
    ensures
        step_line(st, str_content("help"@, v)) == Some(with_cur(st, crate::codec::PartialCommand { help: Some(v), ..p })),
{
    lemma_literals();
    let tail = quoted(v);
    lemma_quoted_ends(v);
    lemma_step_content_dispatch(st, "help"@, tail);
    let t = "help"@ + " = "@ + tail;
    assert(str_content("help"@, v) == t);
        lemma_match_key_miss(t, "name"@, 0);
        lemma_match_key_miss(t, "admin"@, 0);
        lemma_match_key_miss(t, "color"@, 0);
        lemma_match_key_hit("help"@, tail);
        lemma_parse_value_quoted(v);
}


proof fn lemma_step_cmd_path(st: ParseState, p: crate::codec::PartialCommand, v: Seq<char>)
    requires
        st.cur == Some(p),
    ensures
        step_line(st, str_content("path"@, v)) == Some(with_cur(st, crate::codec::PartialCommand { url_path: Some(v), ..p })),
{
    lemma_literals();
    let tail = quoted(v);
    lemma_quoted_ends(v);
    lemma_step_content_dispatch(st, "path"@, tail);
    let t = "path"@ + " = "@ + tail;
    assert(str_content("path"@, v) == t);
        lemma_match_key_miss(t, "name"@, 0);
        lemma_match_key_miss(t, "admin"@, 0);
        lemma_match_key_miss(t, "color"@, 0);
        lemma_match_key_miss(t, "help"@, 0);
        lemma_match_key_hit("path"@, tail);
        lemma_parse_value_quoted(v);
}


proof fn lemma_step_cmd_response_type(st: ParseState, p: crate::codec::PartialCommand, v: Seq<char>)
    requires
        st.cur == Some(p),
    ensures
        step_line(st, str_content("response_type"@, v)) == (match crate::document::response_from_name(v) {
            Some(rt) => Some(with_cur(st, crate::codec::PartialCommand { response_type: Some(rt), ..p })),
            None => None,
        }),
{
    lemma_literals();
    let tail = quoted(v);
    lemma_quoted_ends(v);
    lemma_step_content_dispatch(st, "response_type"@, tail);
    let t = "response_type"@ + " = "@ + tail;
    assert(str_content("response_type"@, v) == t);
        lemma_match_key_miss(t, "name"@, 0);
        lemma_match_key_miss(t, "admin"@, 0);
        lemma_match_key_miss(t, "color"@, 0);
        lemma_match_key_miss(t, "help"@, 0);
        lemma_match_key_miss(t, "path"@, 0);
        lemma_match_key_hit("response_type"@, tail);
        lemma_parse_value_quoted(v);
}


proof fn lemma_step_cmd_target(st: ParseState, p: crate::codec::PartialCommand, v: Seq<char>)
    requires
        st.cur == Some(p),
    ensures
        step_line(st, str_content("target"@, v)) == Some(with_cur(st, crate::codec::PartialCommand { target: Some(v), ..p })),
{
    lemma_literals();
    let tail = quoted(v);
    lemma_quoted_ends(v);
    lemma_step_content_dispatch(st, "target"@, tail);
    let t = "target"@ + " = "@ + tail;
    assert(str_content("target"@, v) == t);
        lemma_match_key_miss(t, "name"@, 0);
        lemma_match_key_miss(t, "admin"@, 0);
        lemma_match_key_miss(t, "color"@, 0);
        lemma_match_key_miss(t, "help"@, 0);
        lemma_match_key_miss(t, "path"@, 0);
        lemma_match_key_miss(t, "response_type"@, 0);
        lemma_match_key_hit("target"@, tail);
        lemma_parse_value_quoted(v);
}


proof fn lemma_step_top_discord_token(st: ParseState, v: Seq<char>)
    requires
        st.cur is None,
    ensures
        step_line(st, str_content("discord_token"@, v)) == Some(ParseState { discord_token: Some(v), ..st }),
{
    lemma_literals();
    let tail = quoted(v);
    lemma_quoted_ends(v);
    lemma_step_content_dispatch(st, "discord_token"@, tail);
    let t = "discord_token"@ + " = "@ + tail;
    assert(str_content("discord_token"@, v) == t);

        lemma_match_key_hit("discord_token"@, tail);
        lemma_parse_value_quoted(v);
}


proof fn lemma_step_top_log_path(st: ParseState, v: Seq<char>)
    requires
        st.cur is None,
    ensures
        step_line(st, str_content("log_path"@, v)) == Some(ParseState { log_path: Some(v), ..st }),
{
    lemma_literals();
    let tail = quoted(v);
    lemma_quoted_ends(v);
    lemma_step_content_dispatch(st, "log_path"@, tail);
    let t = "log_path"@ + " = "@ + tail;
    assert(str_content("log_path"@, v) == t);
        lemma_match_key_miss(t, "discord_token"@, 0);
        lemma_match_key_hit("log_path"@, tail);
        lemma_parse_value_quoted(v);
}


proof fn lemma_step_top_help_message(st: ParseState, v: Seq<char>)
    requires
        st.cur is None,
    ensures
        step_line(st, str_content("help_message"@, v)) == Some(ParseState { help_message: Some(v), ..st }),
{
    lemma_literals();
    let tail = quoted(v);
    lemma_quoted_ends(v);
    lemma_step_content_dispatch(st, "help_message"@, tail);
    let t = "help_message"@ + " = "@ + tail;
    assert(str_content("help_message"@, v) == t);
        lemma_match_key_miss(t, "discord_token"@, 0);
        lemma_match_key_miss(t, "log_path"@, 0);
        lemma_match_key_hit("help_message"@, tail);
        lemma_parse_value_quoted(v);
}


proof fn lemma_step_top_command_prefix(st: ParseState, v: Seq<char>)
    requires
        st.cur is None,
    ensures
        step_line(st, str_content("command_prefix"@, v)) == Some(ParseState { command_prefix: Some(v), ..st }),
{
    lemma_literals();
    let tail = quoted(v);
    lemma_quoted_ends(v);
    lemma_step_content_dispatch(st, "command_prefix"@, tail);
    let t = "command_prefix"@ + " = "@ + tail;
    assert(str_content("command_prefix"@, v) == t);
        lemma_match_key_miss(t, "discord_token"@, 0);
        lemma_match_key_miss(t, "log_path"@, 0);
        lemma_match_key_miss(t, "help_message"@, 0);
        lemma_match_key_hit("command_prefix"@, tail);
        lemma_parse_value_quoted(v);
}


proof fn lemma_step_top_site_url(st: ParseState, v: Seq<char>)
    requires
        st.cur is None,
    ensures
        step_line(st, str_content("site_url"@, v)) == Some(ParseState { site_url: Some(v), ..st }),
{
    lemma_literals();
    let tail = quoted(v);
    lemma_quoted_ends(v);
    lemma_step_content_dispatch(st, "site_url"@, tail);
    let t = "site_url"@ + " = "@ + tail;
    assert(str_content("site_url"@, v) == t);
        lemma_match_key_miss(t, "discord_token"@, 0);
        lemma_match_key_miss(t, "log_path"@, 0);
        lemma_match_key_miss(t, "help_message"@, 0);
        lemma_match_key_miss(t, "command_prefix"@, 0);
        lemma_match_key_hit("site_url"@, tail);
        lemma_parse_value_quoted(v);
}


proof fn lemma_step_top_help_color(st: ParseState, v: Seq<char>)
    requires
        st.cur is None,
    ensures
        step_line(st, str_content("help_color"@, v)) == (match crate::color::color_from_name(v) {
            Some(c) => Some(ParseState { help_color: Some(c), ..st }),
            None => None,
        }),
{
    lemma_literals();
    let tail = quoted(v);
    lemma_quoted_ends(v);
    lemma_step_content_dispatch(st, "help_color"@, tail);
    let t = "help_color"@ + " = "@ + tail;
    assert(str_content("help_color"@, v) == t);
        lemma_match_key_miss(t, "discord_token"@, 0);
        lemma_match_key_miss(t, "log_path"@, 0);
        lemma_match_key_miss(t, "help_message"@, 5);
        lemma_match_key_miss(t, "command_prefix"@, 0);
        lemma_match_key_miss(t, "site_url"@, 0);
        lemma_match_key_hit("help_color"@, tail);
        lemma_parse_value_quoted(v);
}


/// No character of `s` is a newline.
pub open spec fn no_newline(s: Seq<char>) -> bool {
    forall|i: int| 0 <= i < s.len() ==> s[i] != '\n'
}

/// Peel one newline-terminated line off the front of the remaining text.
proof fn lemma_peel_line(st: ParseState, content: Seq<char>, rest_text: Seq<char>)
    requires
        no_newline(content),
    ensures
        fold_from(st, split_lines((content + seq!['\n']) + rest_text)) == (match step_line(
            st,
            content,
        ) {
            None => None,
            Some(st2) => fold_from(st2, split_lines(rest_text)),
        }),
{
    assert((content + seq!['\n']) + rest_text =~= content + seq!['\n'] + rest_text);
    lemma_split_line(content, rest_text);
    let lines = seq![content] + split_lines(rest_text);
    assert(lines[0] == content);
    match step_line(st, content) {
        None => {},
        Some(st2) => {
            assert(lines.drop_first() =~= split_lines(rest_text));
        },
    }
}

proof fn lemma_peel_str_line(st: ParseState, key: Seq<char>, v: Seq<char>, rest_text: Seq<char>)
    requires
        no_newline(key),
    ensures
        fold_from(st, split_lines(str_line(key, v) + rest_text)) == (match step_line(
            st,
            str_content(key, v),
        ) {
            None => None,
            Some(st2) => fold_from(st2, split_lines(rest_text)),
        }),
{
    lemma_str_line_shape(key, v);
    lemma_str_content_no_nl(key, v);
    assert(str_line(key, v) + rest_text =~= (str_content(key, v) + seq!['\n']) + rest_text);
    lemma_peel_line(st, str_content(key, v), rest_text);
}

proof fn lemma_peel_bool_line(st: ParseState, key: Seq<char>, b: bool, rest_text: Seq<char>)
    requires
        no_newline(key),
    ensures
        fold_from(st, split_lines(bool_line(key, b) + rest_text)) == (match step_line(
            st,
            bool_content(key, b),
        ) {
            None => None,
            Some(st2) => fold_from(st2, split_lines(rest_text)),
        }),
{
    lemma_bool_line_shape(key, b);
    lemma_bool_content_no_nl(key, b);
    assert(bool_line(key, b) + rest_text =~= (bool_content(key, b) + seq!['\n']) + rest_text);
    lemma_peel_line(st, bool_content(key, b), rest_text);
}

proof fn lemma_peel_header(st: ParseState, rest_text: Seq<char>)
    ensures
        fold_from(st, split_lines("[[command]]\n"@ + rest_text)) == (match step_line(
            st,
            "[[command]]"@,
        ) {
            None => None,
            Some(st2) => fold_from(st2, split_lines(rest_text)),
        }),
{
    lemma_literals();
    assert("[[command]]\n"@ + rest_text =~= ("[[command]]"@ + seq!['\n']) + rest_text);
    lemma_peel_line(st, "[[command]]"@, rest_text);
}

/// The parser state after the six top-level lines of a document.
pub open spec fn top_state(d: ConfigView) -> ParseState {
    ParseState {
        discord_token: Some(d.discord_token),
        log_path: Some(d.log_path),
        help_message: d.help_message,
        command_prefix: d.command_prefix,
        site_url: d.site_url,
        help_color: d.help_color,
        cmds: Seq::empty(),
        cur: None,
    }
}

/// The top-level text after the two required lines.
pub open spec fn top_rest_text(d: ConfigView) -> Seq<char> {
    crate::codec::opt_str_line("help_message"@, d.help_message) + crate::codec::opt_str_line(
        "command_prefix"@,
        d.command_prefix,
    ) + crate::codec::opt_str_line("site_url"@, d.site_url) + (match d.help_color {
        Some(c) => str_line("help_color"@, crate::color::color_name(c)),
        None => Seq::<char>::empty(),
    }) + emit_commands(doc_commands(d))
}

/// The parser state after the two required top-level lines.
pub open spec fn mid_state(d: ConfigView) -> ParseState {
    ParseState {
        discord_token: Some(d.discord_token),
        log_path: Some(d.log_path),
        ..init_state()
    }
}

#[verifier::rlimit(100)]
proof fn lemma_top_required(d: ConfigView)
    ensures
        fold_from(init_state(), split_lines(emit_doc(d))) == fold_from(
            mid_state(d),
            split_lines(top_rest_text(d)),
        ),
{
    lemma_literals();
    let r1 = str_line("log_path"@, d.log_path) + top_rest_text(d);
    assert(emit_doc(d) =~= str_line("discord_token"@, d.discord_token) + r1);
    let st0 = init_state();
    lemma_peel_str_line(st0, "discord_token"@, d.discord_token, r1);
    lemma_step_top_discord_token(st0, d.discord_token);
    let st1 = ParseState { discord_token: Some(d.discord_token), ..st0 };
    lemma_peel_str_line(st1, "log_path"@, d.log_path, top_rest_text(d));
    lemma_step_top_log_path(st1, d.log_path);
    assert((ParseState { log_path: Some(d.log_path), ..st1 }) == mid_state(d));
}

/// The top-level text after the help message and prefix lines.
pub open spec fn top_rest_text2(d: ConfigView) -> Seq<char> {
    crate::codec::opt_str_line("site_url"@, d.site_url) + (match d.help_color {
        Some(c) => str_line("help_color"@, crate::color::color_name(c)),
        None => Seq::<char>::empty(),
    }) + emit_commands(doc_commands(d))
}

/// The parser state after the help message and prefix lines.
pub open spec fn mid_state2(d: ConfigView) -> ParseState {
    ParseState {
        help_message: d.help_message,
        command_prefix: d.command_prefix,
        ..mid_state(d)
    }
}

#[verifier::rlimit(100)]
proof fn lemma_top_optional_a(d: ConfigView)
    ensures
        fold_from(mid_state(d), split_lines(top_rest_text(d))) == fold_from(
            mid_state2(d),
            split_lines(top_rest_text2(d)),
        ),
{
    lemma_literals();
    let st2 = mid_state(d);
    let o4 = crate::codec::opt_str_line("command_prefix"@, d.command_prefix);
    let r3 = o4 + top_rest_text2(d);
    assert(top_rest_text(d) =~= crate::codec::opt_str_line("help_message"@, d.help_message)
        + r3);
    let st3 = (match d.help_message {
        Some(v) => ParseState { help_message: Some(v), ..st2 },
        None => st2,
    });
    match d.help_message {
        Some(v) => {
            lemma_peel_str_line(st2, "help_message"@, v, r3);
            lemma_step_top_help_message(st2, v);
        },
        None => {
            assert(crate::codec::opt_str_line("help_message"@, d.help_message) + r3 =~= r3);
        },
    }
    assert(fold_from(st2, split_lines(top_rest_text(d))) == fold_from(st3, split_lines(r3)));
    let st4 = (match d.command_prefix {
        Some(v) => ParseState { command_prefix: Some(v), ..st3 },
        None => st3,
    });
    match d.command_prefix {
        Some(v) => {
            lemma_peel_str_line(st3, "command_prefix"@, v, top_rest_text2(d));
            lemma_step_top_command_prefix(st3, v);
        },
        None => {
            assert(r3 =~= top_rest_text2(d));
        },
    }
    assert(fold_from(st3, split_lines(r3)) == fold_from(st4, split_lines(top_rest_text2(d))));
    assert(st4 == mid_state2(d));
}

#[verifier::rlimit(100)]
proof fn lemma_top_optional_b(d: ConfigView)
    ensures
        fold_from(mid_state2(d), split_lines(top_rest_text2(d))) == fold_from(
            top_state(d),
            split_lines(emit_commands(doc_commands(d))),
        ),
{
    lemma_literals();
    let st4 = mid_state2(d);
    let cs_text = emit_commands(doc_commands(d));
    let o6 = (match d.help_color {
        Some(c) => str_line("help_color"@, crate::color::color_name(c)),
        None => Seq::<char>::empty(),
    });
    let r5 = o6 + cs_text;
    assert(top_rest_text2(d) =~= crate::codec::opt_str_line("site_url"@, d.site_url) + r5);
    let st5 = (match d.site_url {
        Some(v) => ParseState { site_url: Some(v), ..st4 },
        None => st4,
    });
    match d.site_url {
        Some(v) => {
            lemma_peel_str_line(st4, "site_url"@, v, r5);
            lemma_step_top_site_url(st4, v);
        },
        None => {
            assert(crate::codec::opt_str_line("site_url"@, d.site_url) + r5 =~= r5);
        },
    }
    assert(fold_from(st4, split_lines(top_rest_text2(d))) == fold_from(st5, split_lines(r5)));
    let st6 = (match d.help_color {
        Some(c) => ParseState { help_color: Some(c), ..st5 },
        None => st5,
    });
    match d.help_color {
        Some(c) => {
            lemma_peel_str_line(st5, "help_color"@, crate::color::color_name(c), cs_text);
            lemma_step_top_help_color(st5, crate::color::color_name(c));
            crate::color::lemma_color_name_roundtrip(c);
        },
        None => {
            assert(r5 =~= cs_text);
        },
    }
    assert(fold_from(st5, split_lines(r5)) == fold_from(st6, split_lines(cs_text)));
    assert(st6 == top_state(d));
}

/// Processing the top of an emitted document fills in exactly the top-level
/// fields.
proof fn lemma_top_process(d: ConfigView)
    ensures
        fold_from(init_state(), split_lines(emit_doc(d))) == fold_from(
            top_state(d),
            split_lines(emit_commands(doc_commands(d))),
        ),
{
    lemma_top_required(d);
    lemma_top_optional_a(d);
    lemma_top_optional_b(d);
}

/// The partial record a command's own lines build up.
pub open spec fn partial_of(c: CommandView) -> crate::codec::PartialCommand {
    crate::codec::PartialCommand {
        name: Some(c.name),
        admin: c.admin,
        color: c.color,
        help: c.help,
        url_path: c.url_path,
        response_type: c.response_type,
        target: c.target,
    }
}

/// The field lines of one emitted command record (everything after its
/// header).
pub open spec fn fields_text(c: CommandView) -> Seq<char> {
    (str_line("name"@, c.name) + (match c.admin {
        Some(b) => bool_line("admin"@, b),
        None => Seq::<char>::empty(),
    }) + (match c.color {
        Some(col) => str_line("color"@, crate::color::color_name(col)),
        None => Seq::<char>::empty(),
    })) + emit_command_tail(c)
}

/// The partial record after the name, admin and color lines.
pub open spec fn partial_head_of(c: CommandView) -> crate::codec::PartialCommand {
    crate::codec::PartialCommand {
        name: Some(c.name),
        admin: c.admin,
        color: c.color,
        help: None,
        url_path: None,
        response_type: None,
        target: None,
    }
}

/// The name, admin and color lines of one emitted command record.
pub open spec fn head_fields_text(c: CommandView) -> Seq<char> {
    str_line("name"@, c.name) + (match c.admin {
        Some(b) => bool_line("admin"@, b),
        None => Seq::<char>::empty(),
    }) + (match c.color {
        Some(col) => str_line("color"@, crate::color::color_name(col)),
        None => Seq::<char>::empty(),
    })
}

#[verifier::rlimit(100)]
proof fn lemma_head_fields_process(st: ParseState, c: CommandView, rest_text: Seq<char>)
    requires
        st.cur == Some(empty_partial()),
    ensures
        fold_from(st, split_lines(head_fields_text(c) + rest_text)) == fold_from(
            with_cur(st, partial_head_of(c)),
            split_lines(rest_text),
        ),
{
    lemma_literals();
    let p0 = empty_partial();
    let la = (match c.admin {
        Some(b) => bool_line("admin"@, b),
        None => Seq::<char>::empty(),
    });
    let lc = (match c.color {
        Some(col) => str_line("color"@, crate::color::color_name(col)),
        None => Seq::<char>::empty(),
    });
    let r2 = lc + rest_text;
    let r1 = la + r2;
    assert(head_fields_text(c) + rest_text =~= str_line("name"@, c.name) + r1);

    lemma_peel_str_line(st, "name"@, c.name, r1);
    lemma_step_cmd_name(st, p0, c.name);
    let p1 = crate::codec::PartialCommand { name: Some(c.name), ..p0 };
    let st1 = with_cur(st, p1);

    let p2 = crate::codec::PartialCommand { admin: c.admin, ..p1 };
    let st2 = with_cur(st, p2);
    match c.admin {
        Some(b) => {
            lemma_peel_bool_line(st1, "admin"@, b, r2);
            lemma_step_cmd_admin(st1, p1, b);
        },
        None => {
            assert(r1 =~= r2);
            assert(p2 == p1);
        },
    }
    assert(fold_from(st1, split_lines(r1)) == fold_from(st2, split_lines(r2)));

    let p3 = crate::codec::PartialCommand { color: c.color, ..p2 };
    let st3 = with_cur(st, p3);
    match c.color {
        Some(col) => {
            lemma_peel_str_line(st2, "color"@, crate::color::color_name(col), rest_text);
            lemma_step_cmd_color(st2, p2, crate::color::color_name(col));
            crate::color::lemma_color_name_roundtrip(col);
        },
        None => {
            assert(r2 =~= rest_text);
            assert(p3 == p2);
        },
    }
    assert(fold_from(st2, split_lines(r2)) == fold_from(st3, split_lines(rest_text)));
    assert(p3 == partial_head_of(c));
}

#[verifier::rlimit(100)]
proof fn lemma_tail_fields_process(
    st: ParseState,
    p: crate::codec::PartialCommand,
    c: CommandView,
    rest_text: Seq<char>,
)
    requires
        st.cur == Some(p),
        p.help is None,
        p.url_path is None,
        p.response_type is None,
        p.target is None,
    ensures
        fold_from(st, split_lines(emit_command_tail(c) + rest_text)) == fold_from(
            with_cur(
                st,
                crate::codec::PartialCommand {
                    help: c.help,
                    url_path: c.url_path,
                    response_type: c.response_type,
                    target: c.target,
                    ..p
                },
            ),
            split_lines(rest_text),
        ),
{
    lemma_literals();
    let lh = crate::codec::opt_str_line("help"@, c.help);
    let lp = crate::codec::opt_str_line("path"@, c.url_path);
    let lr = (match c.response_type {
        Some(t) => str_line("response_type"@, crate::document::response_name(t)),
        None => Seq::<char>::empty(),
    });
    let lt = crate::codec::opt_str_line("target"@, c.target);
    let r6 = lt + rest_text;
    let r5 = lr + r6;
    let r4 = lp + r5;
    assert(emit_command_tail(c) + rest_text =~= lh + r4);

    let p4 = crate::codec::PartialCommand { help: c.help, ..p };
    let st4 = with_cur(st, p4);
    match c.help {
        Some(v) => {
            lemma_peel_str_line(st, "help"@, v, r4);
            lemma_step_cmd_help(st, p, v);
        },
        None => {
            assert(lh + r4 =~= r4);
            assert(p4 == p);
            assert(with_cur(st, p) == st);
        },
    }
    assert(fold_from(st, split_lines(lh + r4)) == fold_from(st4, split_lines(r4)));

    let p5 = crate::codec::PartialCommand { url_path: c.url_path, ..p4 };
    let st5 = with_cur(st, p5);
    match c.url_path {
        Some(v) => {
            lemma_peel_str_line(st4, "path"@, v, r5);
            lemma_step_cmd_path(st4, p4, v);
        },
        None => {
            assert(r4 =~= r5);
            assert(p5 == p4);
        },
    }
    assert(fold_from(st4, split_lines(r4)) == fold_from(st5, split_lines(r5)));

    let p6 = crate::codec::PartialCommand { response_type: c.response_type, ..p5 };
    let st6 = with_cur(st, p6);
    match c.response_type {
        Some(t) => {
            lemma_peel_str_line(st5, "response_type"@, crate::document::response_name(t), r6);
            lemma_step_cmd_response_type(st5, p5, crate::document::response_name(t));
            crate::document::lemma_response_name_roundtrip(t);
        },
        None => {
            assert(r5 =~= r6);
            assert(p6 == p5);
        },
    }
    assert(fold_from(st5, split_lines(r5)) == fold_from(st6, split_lines(r6)));

    let p7 = crate::codec::PartialCommand { target: c.target, ..p6 };
    let st7 = with_cur(st, p7);
    match c.target {
        Some(v) => {
            lemma_peel_str_line(st6, "target"@, v, rest_text);
            lemma_step_cmd_target(st6, p6, v);
        },
        None => {
            assert(r6 =~= rest_text);
            assert(p7 == p6);
        },
    }
    assert(fold_from(st6, split_lines(r6)) == fold_from(st7, split_lines(rest_text)));
}

/// Processing the field lines of a block fills the open partial record.
proof fn lemma_fields_process(st: ParseState, c: CommandView, rest_text: Seq<char>)
    requires
        st.cur == Some(empty_partial()),
    ensures
        fold_from(st, split_lines(fields_text(c) + rest_text)) == fold_from(
            with_cur(st, partial_of(c)),
            split_lines(rest_text),
        ),
{
    assert(fields_text(c) + rest_text =~= head_fields_text(c) + (emit_command_tail(c)
        + rest_text));
    lemma_head_fields_process(st, c, emit_command_tail(c) + rest_text);
    let stm = with_cur(st, partial_head_of(c));
    lemma_tail_fields_process(stm, partial_head_of(c), c, rest_text);
    assert((crate::codec::PartialCommand {
        help: c.help,
        url_path: c.url_path,
        response_type: c.response_type,
        target: c.target,
        ..partial_head_of(c)
    }) == partial_of(c));
    assert(with_cur(stm, partial_of(c)) == with_cur(st, partial_of(c)));
}

/// Emitting distributes over list concatenation.
proof fn lemma_emit_commands_add(a: Seq<CommandView>, b: Seq<CommandView>)
    ensures
        emit_commands(a + b) == emit_commands(a) + emit_commands(b),
    decreases b.len(),
{
    if b.len() == 0 {
        assert(a + b =~= a);
        assert(emit_commands(a) + emit_commands(b) =~= emit_commands(a));
    } else {
        assert((a + b).drop_last() =~= a + b.drop_last());
        assert((a + b).last() == b.last());
        lemma_emit_commands_add(a, b.drop_last());
        assert(emit_commands(a) + (emit_commands(b.drop_last()) + emit_command(b.last())) =~= (
        emit_commands(a) + emit_commands(b.drop_last())) + emit_command(b.last()));
    }
}

/// A total helper: the state a successful close yields.
pub open spec fn forced(o: Option<ParseState>) -> ParseState {
    match o {
        Some(s) => s,
        None => init_state(),
    }
}

/// The parser state after a run of command blocks: each block but the last
/// has been closed into the list, the last is still open.
pub open spec fn after_blocks(st: ParseState, cs: Seq<CommandView>) -> ParseState
    decreases cs.len(),
{
    if cs.len() == 0 {
        st
    } else {
        let st2 = forced(close_cur(st));
        let stb = ParseState { cur: Some(partial_of(cs[0])), ..st2 };
        after_blocks(stb, cs.drop_first())
    }
}

/// Processing the emitted blocks drives the state through `after_blocks`.
#[verifier::rlimit(100)]
proof fn lemma_blocks_process(st: ParseState, cs: Seq<CommandView>, rest_text: Seq<char>)
    requires
        close_cur(st) is Some,
    ensures
        fold_from(st, split_lines(emit_commands(cs) + rest_text)) == fold_from(
            after_blocks(st, cs),
            split_lines(rest_text),
        ),
    decreases cs.len(),
{
    if cs.len() == 0 {
        assert(emit_commands(cs) + rest_text =~= rest_text);
    } else {
        let c = cs[0];
        let cs_rest = cs.drop_first();
        assert(cs =~= seq![c] + cs_rest);
        lemma_emit_commands_add(seq![c], cs_rest);
        assert(seq![c].drop_last() =~= Seq::<CommandView>::empty());
        assert(seq![c].last() == c);
        assert(emit_commands(seq![c]) == emit_commands(seq![c].drop_last()) + emit_command(c));
        assert(emit_commands(seq![c].drop_last()) == emit_commands(Seq::<CommandView>::empty()));
        assert(emit_commands(Seq::<CommandView>::empty()) == Seq::<char>::empty());
        assert(Seq::<char>::empty() + emit_command(c) =~= emit_command(c));
        assert(emit_commands(seq![c]) =~= emit_command(c));
        assert(emit_commands(cs) =~= emit_command(c) + emit_commands(cs_rest));
        let tail_text = emit_commands(cs_rest) + rest_text;
        assert(emit_commands(cs) + rest_text =~= "[[command]]\n"@ + (fields_text(c) + tail_text))
            by {
            assert(emit_command(c) =~= "[[command]]\n"@ + fields_text(c));
        }
        lemma_peel_header(st, fields_text(c) + tail_text);
        lemma_step_header(st);
        let st2 = forced(close_cur(st));
        let stb0 = ParseState { cur: Some(empty_partial()), ..st2 };
        lemma_fields_process(stb0, c, tail_text);
        let stb = with_cur(stb0, partial_of(c));
        assert(stb == (ParseState { cur: Some(partial_of(c)), ..st2 }));
        assert(close_cur(stb) is Some);
        lemma_blocks_process(stb, cs_rest, rest_text);
        assert(after_blocks(st, cs) == after_blocks(stb, cs_rest));
    }
}

/// Closing the state after all blocks puts exactly the emitted commands in
/// the list, after whatever was already there.
proof fn lemma_after_blocks_close(st: ParseState, cs: Seq<CommandView>)
    requires
        close_cur(st) is Some,
    ensures
        close_cur(after_blocks(st, cs)) == Some(
            ParseState { cmds: forced(close_cur(st)).cmds + cs, cur: None, ..forced(close_cur(st)) },
        ),
    decreases cs.len(),
{
    let st2 = forced(close_cur(st));
    if cs.len() == 0 {
        assert(st2.cmds + cs =~= st2.cmds);
        match st.cur {
            None => {
                assert(st2 == st);
            },
            Some(p) => {},
        }
    } else {
        let c = cs[0];
        let stb = ParseState { cur: Some(partial_of(c)), ..st2 };
        assert(close_cur(stb) is Some);
        lemma_after_blocks_close(stb, cs.drop_first());
        let stb2 = forced(close_cur(stb));
        assert(stb2.cmds =~= st2.cmds + seq![c]);
        assert(stb2.cmds + cs.drop_first() =~= st2.cmds + cs);
        assert(after_blocks(st, cs) == after_blocks(stb, cs.drop_first()));
    }
}

/// The canonical form a document takes after one round trip: an empty
/// command list reads back as an absent one; everything else is unchanged.
pub open spec fn canon(d: ConfigView) -> ConfigView {
    ConfigView {
        commands: if doc_commands(d).len() == 0 {
            None
        } else {
            Some(doc_commands(d))
        },
        ..d
    }
}

/// Serializing a document and parsing the text back yields the canonical
/// form of the document, and therefore a document that normalizes to the
/// very same store.
pub proof fn lemma_serialize_parse_round_trip(d: ConfigView)
    ensures
        parse_doc(emit_doc(d)) == Some(canon(d)),
        crate::store::normalize_doc(canon(d)) == crate::store::normalize_doc(d),
{
    let cs = doc_commands(d);
    lemma_fold_lines_is_fold_from(split_lines(emit_doc(d)));
    lemma_top_process(d);
    assert(emit_commands(cs) + Seq::<char>::empty() =~= emit_commands(cs));
    lemma_blocks_process(top_state(d), cs, Seq::empty());
    let fin = after_blocks(top_state(d), cs);
    let one = seq![Seq::<char>::empty()];
    assert(split_lines(Seq::<char>::empty()) =~= one);
    assert(crate::text::trim_front(Seq::<char>::empty()) == Seq::<char>::empty());
    assert(crate::text::trim_back(Seq::<char>::empty()) == Seq::<char>::empty());
    assert(trim(Seq::<char>::empty()).len() == 0);
    assert(one[0] =~= Seq::<char>::empty());
    assert(step_line(fin, one[0]) == Some(fin));
    assert(one.drop_first() =~= Seq::<Seq<char>>::empty());
    assert(fold_from(fin, one.drop_first()) == Some(fin));
    assert(fold_from(fin, one) == Some(fin));
    assert(fold_from(fin, split_lines(Seq::<char>::empty())) == Some(fin));
    assert(fold_lines(split_lines(emit_doc(d))) == Some(fin));
    lemma_after_blocks_close(top_state(d), cs);
    let closed = forced(close_cur(fin));
    assert(forced(close_cur(top_state(d))) == top_state(d));
    assert(closed.cmds =~= cs);
    assert(crate::codec::finish(fin) == Some(canon(d)));
    assert(doc_commands(canon(d)) =~= doc_commands(d));
    assert(crate::store::normalize_doc(canon(d)) == crate::store::normalize_doc(d));
}

} // verus!
