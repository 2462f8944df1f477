//! The hot-reload coordinator: applies one administrative mutation to a
//! loaded configuration document and republishes the process-wide store only
//! after the document was successfully persisted. The file and environment
//! reads sit outside the library; every decision in between is verified.

use vstd::prelude::*;

use crate::color::{Color, all_colors, color_name};
use crate::document::{Config, ConfigView, doc_commands, has_matching, spec_pop_command,
    spec_push_command, spec_set_color, spec_set_help};
use crate::store::{ConfigData, normalize_doc};
use crate::text::{normalize_trigger, normalized};

verus! {

/// Why a hot-reload cycle failed.
#[derive(Clone, Copy, Debug, PartialEq, Eq, Structural)]
pub enum HotReloadError {
    /// The environment names no config file.
    EnvMissing,
    /// The config file could not be read or parsed.
    FetchFailed,
    /// The admin command's arguments are malformed.
    ImproperFormat,
    /// The mutation itself was rejected (duplicate or missing trigger).
    OperationFailed,
    /// The new document could not be written back.
    WriteFailed,
}

/// The admin-facing description of each failure.
pub open spec fn error_message(e: HotReloadError) -> Seq<char> {
    match e {
        HotReloadError::EnvMissing => "MUFFETBOT_CONFIG env var not found"@,
        HotReloadError::FetchFailed => "Unable to find config file"@,
        HotReloadError::ImproperFormat => "Improper formatting for command. Use the `help` command for more info."@,
        HotReloadError::OperationFailed => "Unable to complete operation"@,
        HotReloadError::WriteFailed => "Unable to write new config to file"@,
    }
}

impl HotReloadError {
    /// The admin-facing description of this failure.
    pub fn message(&self) -> (r: &'static str)
        ensures
            r@ == error_message(*self),
    {
        match self {
            HotReloadError::EnvMissing => "MUFFETBOT_CONFIG env var not found",
            HotReloadError::FetchFailed => "Unable to find config file",
            HotReloadError::ImproperFormat => "Improper formatting for command. Use the `help` command for more info.",
            HotReloadError::OperationFailed => "Unable to complete operation",
            HotReloadError::WriteFailed => "Unable to write new config to file",
        }
    }
}

/// The mutations an admin command may request.
#[derive(Clone, Copy, Debug, PartialEq, Eq, Structural)]
pub enum ReloadAction {
    /// Replace the global help message with the argument text.
    Help,
    /// Replace the help color with the named palette entry, or list the
    /// palette.
    ChangeColor,
    /// Append a command: first argument word the trigger, the rest the target.
    Append,
    /// Remove the command named by the first argument word.
    Remove,
}

/// The first whitespace-separated word of the argument text, after leading
/// spaces.
pub open spec fn first_word(s: Seq<char>) -> Seq<char>
    decreases s.len(),
{
    if s.len() == 0 {
        s
    } else if s[0] == ' ' {
        first_word(s.drop_first())
    } else {
        word_prefix(s)
    }
}

/// The argument text after the first word and the single space that ends it.
pub open spec fn after_word(s: Seq<char>) -> Seq<char>
    decreases s.len(),
{
    if s.len() == 0 {
        s
    } else if s[0] == ' ' {
        after_word(s.drop_first())
    } else {
        word_rest(s)
    }
}

/// The longest space-free prefix.
pub open spec fn word_prefix(s: Seq<char>) -> Seq<char>
    decreases s.len(),
{
    if s.len() == 0 || s[0] == ' ' {
        Seq::empty()
    } else {
        seq![s[0]] + word_prefix(s.drop_first())
    }
}

/// What follows the longest space-free prefix and one space.
pub open spec fn word_rest(s: Seq<char>) -> Seq<char>
    decreases s.len(),
{
    if s.len() == 0 {
        s
    } else if s[0] == ' ' {
        s.drop_first()
    } else {
        word_rest(s.drop_first())
    }
}

/// Split the argument text into its first word and the remainder.
pub fn split_args(s: &str) -> (r: (String, String))
    ensures
        r.0@ == first_word(s@),
        r.1@ == after_word(s@),
{
    let cs = crate::text::str_chars(s);
    let n = cs.len();
    proof {
        assert(cs@.subrange(0, n as int) =~= cs@);
    }
    let mut start: usize = 0;
    while start < n && cs[start] == ' '
        invariant
            n == cs@.len(),
            start <= n,
            first_word(cs@) == first_word(cs@.subrange(start as int, n as int)),
            after_word(cs@) == after_word(cs@.subrange(start as int, n as int)),
        decreases n - start,
    {
        proof {
            let tail = cs@.subrange(start as int, n as int);
            assert(tail[0] == ' ');
            assert(tail.drop_first() =~= cs@.subrange(start + 1, n as int));
        }
        start += 1;
    }
    let mut word: Vec<char> = Vec::new();
    let mut i: usize = start;
    while i < n && cs[i] != ' '
        invariant
            n == cs@.len(),
            start <= i <= n,
            forall|j: int| start <= j < i ==> cs@[j] != ' ',
            word@ == cs@.subrange(start as int, i as int),
        decreases n - i,
    {
        word.push(cs[i]);
        i += 1;
        assert(word@ =~= cs@.subrange(start as int, i as int));
    }
    proof {
        lemma_word_prefix_rest(cs@.subrange(start as int, n as int), i - start);
        assert(cs@.subrange(start as int, n as int).subrange(0, i - start) =~= cs@.subrange(
            start as int,
            i as int,
        ));
    }
    let mut rest: Vec<char> = Vec::new();
    let mut k: usize = if i < n { i + 1 } else { i };
    proof {
        if i < n {
            assert(cs@.subrange(start as int, n as int).subrange(
                i - start + 1,
                n - start,
            ) =~= cs@.subrange(i + 1, n as int));
        } else {
            assert(cs@.subrange(start as int, n as int).subrange(i - start, n - start)
                =~= cs@.subrange(i as int, n as int));
        }
    }
    let ghost rest_lo = k;
    while k < n
        invariant
            n == cs@.len(),
            rest_lo <= k <= n,
            rest@ == cs@.subrange(rest_lo as int, k as int),
        decreases n - k,
    {
        rest.push(cs[k]);
        k += 1;
        assert(rest@ =~= cs@.subrange(rest_lo as int, k as int));
    }
    assert(rest@ =~= cs@.subrange(rest_lo as int, n as int));
    (crate::text::chars_string(&word), crate::text::chars_string(&rest))
}

proof fn lemma_word_prefix_rest(s: Seq<char>, k: int)
    requires
        0 <= k <= s.len(),
        forall|j: int| 0 <= j < k ==> s[j] != ' ',
        k < s.len() ==> s[k] == ' ',
        s.len() > 0 ==> s[0] != ' ' || k == 0,
    ensures
        word_prefix(s) == s.subrange(0, k),
        word_rest(s) == (if k < s.len() {
            s.subrange(k + 1, s.len() as int)
        } else {
            s.subrange(k, s.len() as int)
        }),
    decreases s.len(),
{
    if s.len() == 0 {
        assert(s.subrange(0, 0) =~= Seq::<char>::empty());
    } else if s[0] == ' ' {
        assert(k == 0);
        assert(s.subrange(0, 0) =~= Seq::<char>::empty());
        assert(word_rest(s) == s.drop_first());
        assert(s.drop_first() =~= s.subrange(1, s.len() as int));
    } else {
        assert(k > 0);
        lemma_word_prefix_rest(s.drop_first(), k - 1);
        assert(s.drop_first().subrange(0, k - 1) =~= s.subrange(1, k));
        assert(seq![s[0]] + s.subrange(1, k) =~= s.subrange(0, k));
        if k < s.len() {
            assert(s.drop_first().subrange(k, s.len() - 1) =~= s.subrange(
                k + 1,
                s.len() as int,
            ));
        } else {
            assert(s.drop_first().subrange(k - 1, s.len() - 1) =~= s.subrange(
                k,
                s.len() as int,
            ));
        }
    }
}

/// The palette listing the `color` command prints: one `> *name*` line per
/// color.
pub open spec fn color_listing(cs: Seq<Color>) -> Seq<char>
    decreases cs.len(),
{
    if cs.len() == 0 {
        Seq::empty()
    } else {
        color_listing(cs.drop_last()) + "> *"@ + color_name(cs.last()) + "*\n"@
    }
}

fn build_color_listing() -> (r: String)
    ensures
        r@ == color_listing(all_colors()),
{
    let colors = Color::all();
    let mut out = String::new();
    let mut i: usize = 0;
    while i < colors.len()
        invariant
            colors@ == all_colors(),
            i <= colors@.len(),
            out@ == color_listing(colors@.subrange(0, i as int)),
        decreases colors@.len() - i,
    {
        let ghost prefix = colors@.subrange(0, i as int);
        let ghost next_prefix = colors@.subrange(0, i + 1 as int);
        out.append("> *");
        out.append(colors[i].as_str());
        out.append("*\n");
        proof {
            assert(next_prefix.drop_last() =~= prefix);
            assert(next_prefix.last() == colors@[i as int]);
        }
        i += 1;
    }
    proof {
        assert(colors@.subrange(0, colors@.len() as int) =~= colors@);
    }
    out
}

/// What one reload request does to the document: the document afterwards and
/// either the success message together with whether the document must be
/// persisted and republished, or the error.
pub open spec fn spec_apply_reload(d: ConfigView, action: ReloadAction, args: Seq<char>) -> (
    ConfigView,
    Result<(Seq<char>, bool), HotReloadError>,
) {
    match action {
        ReloadAction::Help => if args.len() == 0 {
            (d, Err(HotReloadError::ImproperFormat))
        } else {
            (spec_set_help(d, args), Ok(("Help message successfully changed!"@, true)))
        },
        ReloadAction::ChangeColor => if args.len() == 0 {
            (d, Ok((color_listing(all_colors()), false)))
        } else {
            match crate::color::color_from_name(normalized(args)) {
                Some(c) => (
                    spec_set_color(d, c),
                    Ok(("Color successfully changed!"@, true)),
                ),
                None => (
                    d,
                    Ok((
                        "**Sorry, that's not a valid color!**\n"@ + color_listing(all_colors()),
                        false,
                    )),
                ),
            }
        },
        ReloadAction::Append => {
            let trigger = first_word(args);
            let target = after_word(args);
            if trigger.len() == 0 || target.len() == 0 {
                (d, Err(HotReloadError::ImproperFormat))
            } else if has_matching(doc_commands(d), trigger) {
                (d, Err(HotReloadError::OperationFailed))
            } else {
                (
                    spec_push_command(d, trigger, target),
                    Ok(("added the <"@ + trigger + "> command!"@, true)),
                )
            }
        },
        ReloadAction::Remove => {
            let trigger = first_word(args);
            if trigger.len() == 0 {
                (d, Err(HotReloadError::ImproperFormat))
            } else if !has_matching(doc_commands(d), trigger) {
                (d, Err(HotReloadError::OperationFailed))
            } else {
                (
                    spec_pop_command(d, trigger),
                    Ok(("removed the <"@ + trigger + "> command!"@, true)),
                )
            }
        },
    }
}

/// Apply one admin request to the loaded document. On success the message to
/// send back is returned together with whether the document changed and must
/// be persisted; the palette listings are replies that change nothing.
pub fn apply_reload(config: &mut Config, action: ReloadAction, args: &str) -> (r: Result<
    (String, bool),
    HotReloadError,
>)
    ensures
        ({
            let (d2, res) = spec_apply_reload(old(config)@, action, args@);
            final(config)@ == d2 && (match (r, res) {
                (Ok((m, w)), Ok((ms, ws))) => m@ == ms && w == ws,
                (Err(e), Err(es)) => e == es,
                _ => false,
            })
        }),
{
    match action {
        ReloadAction::Help => {
            if s_len(args) == 0 {
                Err(HotReloadError::ImproperFormat)
            } else {
                config.set_help(String::from_str(args));
                Ok((String::from_str("Help message successfully changed!"), true))
            }
        },
        ReloadAction::ChangeColor => {
            if s_len(args) == 0 {
                Ok((build_color_listing(), false))
            } else {
                let wanted = normalize_trigger(args);
                match Color::from_name(wanted.as_str()) {
                    Some(c) => {
                        config.set_color(c);
                        Ok((String::from_str("Color successfully changed!"), true))
                    },
                    None => {
                        let msg = String::from_str("**Sorry, that's not a valid color!**\n")
                            .concat(build_color_listing().as_str());
                        Ok((msg, false))
                    },
                }
            }
        },
        ReloadAction::Append => {
            let (trigger, target) = split_args(args);
            if trigger.unicode_len() == 0 || target.unicode_len() == 0 {
                Err(HotReloadError::ImproperFormat)
            } else {
                match config.push_command(trigger.as_str(), target.as_str()) {
                    Ok(_) => {
                        let msg = String::from_str("added the <").concat(trigger.as_str()).concat(
                            "> command!",
                        );
                        Ok((msg, true))
                    },
                    Err(_) => Err(HotReloadError::OperationFailed),
                }
            }
        },
        ReloadAction::Remove => {
            let (trigger, _target) = split_args(args);
            if trigger.unicode_len() == 0 {
                Err(HotReloadError::ImproperFormat)
            } else {
                match config.pop_command(trigger.as_str()) {
                    Ok(_) => {
                        let msg = String::from_str("removed the <").concat(trigger.as_str()).concat(
                            "> command!",
                        );
                        Ok((msg, true))
                    },
                    Err(_) => Err(HotReloadError::OperationFailed),
                }
            }
        },
    }
}

fn s_len(s: &str) -> (r: usize)
    ensures
        r == s@.len(),
{
    s.unicode_len()
}

/// The environment's config path, or the failure an absent one causes.
pub fn resolve_config_path(env_value: Option<String>) -> (r: Result<String, HotReloadError>)
    ensures
        match env_value {
            Some(p) => r matches Ok(q) && q@ == p@,
            None => r == Err::<String, HotReloadError>(HotReloadError::EnvMissing),
        },
{
    match env_value {
        Some(p) => Ok(p),
        None => Err(HotReloadError::EnvMissing),
    }
}

/// Publish step of the hot-reload cycle: only a successfully persisted
/// document replaces the process-wide store; after a failed write the store
/// is exactly what it was.
pub fn hot_reload_conf(slot: &mut ConfigData, new_config: Config, write_ok: bool) -> (r: Result<
    (),
    HotReloadError,
>)
    ensures
        write_ok ==> r == Ok::<(), HotReloadError>(()) && final(slot)@ == normalize_doc(
            new_config@,
        ),
        !write_ok ==> r == Err::<(), HotReloadError>(HotReloadError::WriteFailed) && *final(slot)
            == *old(slot),
{
    if write_ok {
        *slot = new_config.data();
        Ok(())
    } else {
        Err(HotReloadError::WriteFailed)
    }
}

} // verus!
