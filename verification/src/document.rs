//! The persisted configuration document: the raw, optional-field form of the
//! bot settings and user commands, together with the mutations the admin
//! commands apply to it before it is written back to disk.
//!
//! Triggers are compared after normalization (see [`crate::text::normalized`]):
//! duplicate detection, removal and lookup all use the same rule.

use vstd::prelude::*;

use crate::color::Color;
use crate::text::{normalize_trigger, normalized};

verus! {

/// How a configured command's response is delivered.
#[derive(Clone, Copy, Debug, PartialEq, Eq, Structural)]
pub enum CommandResponse {
    Channel,
    Dm,
    Embed,
    DmOwner,
    Reply,
}

impl Default for CommandResponse {
    fn default() -> (r: Self)
        ensures
            r == CommandResponse::Channel,
    {
        CommandResponse::Channel
    }
}

/// The name of a response type, as it appears in the configuration document.
pub open spec fn response_name(t: CommandResponse) -> Seq<char> {
    match t {
        CommandResponse::Channel => "channel"@,
        CommandResponse::Dm => "dm"@,
        CommandResponse::Embed => "embed"@,
        CommandResponse::DmOwner => "dm owner"@,
        CommandResponse::Reply => "reply"@,
    }
}

impl CommandResponse {
    /// The document name of this response type.
    pub fn as_str(&self) -> (r: &'static str)
        ensures
            r@ == response_name(*self),
    {
        match self {
            CommandResponse::Channel => "channel",
            CommandResponse::Dm => "dm",
            CommandResponse::Embed => "embed",
            CommandResponse::DmOwner => "dm owner",
            CommandResponse::Reply => "reply",
        }
    }

    /// Look a response type up by its exact document name.
    pub fn from_name(name: &str) -> (r: Option<CommandResponse>)
        ensures
            r == response_from_name(name@),
    {
        if crate::text::str_eq(name, "channel") {
            Some(CommandResponse::Channel)
        } else if crate::text::str_eq(name, "dm") {
            Some(CommandResponse::Dm)
        } else if crate::text::str_eq(name, "embed") {
            Some(CommandResponse::Embed)
        } else if crate::text::str_eq(name, "dm owner") {
            Some(CommandResponse::DmOwner)
        } else if crate::text::str_eq(name, "reply") {
            Some(CommandResponse::Reply)
        } else {
            None
        }
    }
}

/// The response type carrying the given document name, if any.
pub open spec fn response_from_name(name: Seq<char>) -> Option<CommandResponse> {
    if name == "channel"@ {
        Some(CommandResponse::Channel)
    } else if name == "dm"@ {
        Some(CommandResponse::Dm)
    } else if name == "embed"@ {
        Some(CommandResponse::Embed)
    } else if name == "dm owner"@ {
        Some(CommandResponse::DmOwner)
    } else if name == "reply"@ {
        Some(CommandResponse::Reply)
    } else {
        None
    }
}

/// Looking up the name of a response type finds that very response type.
pub proof fn lemma_response_name_roundtrip(t: CommandResponse)
    ensures
        response_from_name(response_name(t)) == Some(t),
{
    reveal_strlit("channel");
    reveal_strlit("dm");
    reveal_strlit("embed");
    reveal_strlit("dm owner");
    reveal_strlit("reply");
    assert("channel"@.len() == 7);
    assert("dm"@.len() == 2);
    assert("embed"@.len() == 5);
    assert("dm owner"@.len() == 8);
    assert("reply"@.len() == 5);
    assert("embed"@[0] == 'e' && "reply"@[0] == 'r');
}

/// Why a command mutation was rejected.
#[derive(Clone, Copy, Debug, PartialEq, Eq, Structural)]
pub enum CommandError {
    /// `push_command` found the trigger already present.
    AlreadyExists,
    /// `pop_command` found no command with the trigger.
    NotFound,
}

/// One raw command record of the document. All fields but the name are
/// optional; normalization fills the defaults in.
#[derive(Debug)]
pub struct Command {
    pub admin: Option<bool>,
    pub name: String,
    pub color: Option<Color>,
    pub help: Option<String>,
    pub url_path: Option<String>,
    pub response_type: Option<CommandResponse>,
    pub target: Option<String>,
}

/// The mathematical value of a raw command record.
pub struct CommandView {
    pub admin: Option<bool>,
    pub name: Seq<char>,
    pub color: Option<Color>,
    pub help: Option<Seq<char>>,
    pub url_path: Option<Seq<char>>,
    pub response_type: Option<CommandResponse>,
    pub target: Option<Seq<char>>,
}

impl View for Command {
    type V = CommandView;

    open spec fn view(&self) -> CommandView {
        CommandView {
            admin: self.admin,
            name: self.name@,
            color: self.color,
            help: self.help.deep_view(),
            url_path: self.url_path.deep_view(),
            response_type: self.response_type,
            target: self.target.deep_view(),
        }
    }
}

impl DeepView for Command {
    type V = CommandView;

    open spec fn deep_view(&self) -> CommandView {
        self.view()
    }
}

impl Clone for Command {
    fn clone(&self) -> (r: Self)
        ensures
            r@ == self@,
    {
        Command {
            admin: self.admin,
            name: self.name.clone(),
            color: self.color,
            help: match &self.help {
                Some(h) => Some(h.clone()),
                None => None,
            },
            url_path: match &self.url_path {
                Some(p) => Some(p.clone()),
                None => None,
            },
            response_type: self.response_type,
            target: match &self.target {
                Some(t) => Some(t.clone()),
                None => None,
            },
        }
    }
}

/// The root of the persisted configuration document.
#[derive(Debug)]
pub struct Config {
    pub help_color: Option<Color>,
    pub discord_token: String,
    pub log_path: String,
    pub help_message: Option<String>,
    pub command_prefix: Option<String>,
    pub site_url: Option<String>,
    pub commands: Option<Vec<Command>>,
}

/// The mathematical value of a configuration document.
pub struct ConfigView {
    pub help_color: Option<Color>,
    pub discord_token: Seq<char>,
    pub log_path: Seq<char>,
    pub help_message: Option<Seq<char>>,
    pub command_prefix: Option<Seq<char>>,
    pub site_url: Option<Seq<char>>,
    pub commands: Option<Seq<CommandView>>,
}

impl View for Config {
    type V = ConfigView;

    open spec fn view(&self) -> ConfigView {
        ConfigView {
            help_color: self.help_color,
            discord_token: self.discord_token@,
            log_path: self.log_path@,
            help_message: self.help_message.deep_view(),
            command_prefix: self.command_prefix.deep_view(),
            site_url: self.site_url.deep_view(),
            commands: self.commands.deep_view(),
        }
    }
}

/// The document's command list; an absent list reads as empty.
pub open spec fn doc_commands(d: ConfigView) -> Seq<CommandView> {
    match d.commands {
        Some(cs) => cs,
        None => Seq::empty(),
    }
}

/// Whether some record's normalized name matches the normalized candidate.
pub open spec fn has_matching(cs: Seq<CommandView>, name: Seq<char>) -> bool {
    exists|i: int|
        0 <= i < cs.len() && normalized(#[trigger] cs[i].name) == normalized(name)
}

/// The record `push_command` appends: normalized name, literal target,
/// everything else defaulted.
pub open spec fn new_command(name: Seq<char>, target: Seq<char>) -> CommandView {
    CommandView {
        admin: Some(false),
        name: normalized(name),
        color: Some(Color::BlitzBlue),
        help: None,
        url_path: None,
        response_type: Some(CommandResponse::Channel),
        target: Some(target),
    }
}

/// The document after a successful `push_command`.
pub open spec fn spec_push_command(d: ConfigView, name: Seq<char>, target: Seq<char>) -> ConfigView {
    ConfigView { commands: Some(doc_commands(d).push(new_command(name, target))), ..d }
}

/// The records whose normalized name differs from the (already normalized) key.
pub open spec fn remove_matching(cs: Seq<CommandView>, key: Seq<char>) -> Seq<CommandView>
    decreases cs.len(),
{
    if cs.len() == 0 {
        Seq::empty()
    } else {
        let rest = remove_matching(cs.drop_last(), key);
        if normalized(cs.last().name) == key {
            rest
        } else {
            rest + seq![cs.last()]
        }
    }
}

/// The document after a successful `pop_command`.
pub open spec fn spec_pop_command(d: ConfigView, name: Seq<char>) -> ConfigView {
    ConfigView { commands: Some(remove_matching(doc_commands(d), normalized(name))), ..d }
}

/// The document after `set_help`.
pub open spec fn spec_set_help(d: ConfigView, message: Seq<char>) -> ConfigView {
    ConfigView { help_message: Some(message), ..d }
}

/// The document after `set_color`.
pub open spec fn spec_set_color(d: ConfigView, color: Color) -> ConfigView {
    ConfigView { help_color: Some(color), ..d }
}

/// The command prefix, defaulted to `!`.
pub open spec fn spec_command_prefix(d: ConfigView) -> Seq<char> {
    match d.command_prefix {
        Some(p) => p,
        None => "!"@,
    }
}

impl Config {
    /// Path to the logs directory. Cannot be hot reloaded.
    pub fn get_log_path(&self) -> (r: &str)
        ensures
            r@ == self@.log_path,
    {
        self.log_path.as_str()
    }

    /// The command prefix, defaulted to `!`. Cannot be hot reloaded.
    pub fn get_command_prefix(&self) -> (r: String)
        ensures
            r@ == spec_command_prefix(self@),
    {
        match &self.command_prefix {
            Some(prefix) => prefix.clone(),
            None => String::from_str("!"),
        }
    }

    /// The chat platform token. Cannot be hot reloaded.
    pub fn get_token(&self) -> (r: String)
        ensures
            r@ == self@.discord_token,
    {
        self.discord_token.clone()
    }

    /// Replace the global help message. Supports hot reload.
    pub fn set_help(&mut self, new_message: String)
        ensures
            final(self)@ == spec_set_help(old(self)@, new_message@),
    {
        self.help_message = Some(new_message);
    }

    /// Replace the help embed color. Supports hot reload.
    pub fn set_color(&mut self, new_color: Color)
        ensures
            final(self)@ == spec_set_color(old(self)@, new_color),
    {
        self.help_color = Some(new_color);
    }

    fn command_exists(&self, command_name: &str) -> (r: bool)
        ensures
            r == has_matching(doc_commands(self@), command_name@),
    {
        let key = normalize_trigger(command_name);
        if let Some(cmds) = &self.commands {
            let mut i: usize = 0;
            while i < cmds.len()
                invariant
                    key@ == normalized(command_name@),
                    doc_commands(self@) == cmds.deep_view(),
                    i <= cmds@.len(),
                    forall|j: int|
                        0 <= j < i ==> normalized(#[trigger] cmds.deep_view()[j].name)
                            != normalized(command_name@),
                decreases cmds@.len() - i,
            {
                let nm = normalize_trigger(cmds[i].name.as_str());
                if nm == key {
                    assert(normalized(cmds.deep_view()[i as int].name) == normalized(
                        command_name@,
                    ));
                    return true;
                }
                i += 1;
            }
            false
        } else {
            false
        }
    }

    /// Append a freshly defaulted command with the given trigger and literal
    /// target. Rejected, with the document unchanged, when a record with the
    /// same normalized trigger is already present. Supports hot reload.
    pub fn push_command(&mut self, command_name: &str, command_target: &str) -> (r: Result<
        (),
        CommandError,
    >)
        ensures
            has_matching(doc_commands(old(self)@), command_name@) ==> r == Err::<
                (),
                CommandError,
            >(CommandError::AlreadyExists) && final(self)@ == old(self)@,
            !has_matching(doc_commands(old(self)@), command_name@) ==> r == Ok::<
                (),
                CommandError,
            >(()) && final(self)@ == spec_push_command(old(self)@, command_name@, command_target@),
    {
        if self.command_exists(command_name) {
            return Err(CommandError::AlreadyExists);
        }

        let mut cmds = match self.commands.take() {
            Some(c) => c,
            None => Vec::new(),
        };
        cmds.push(
            Command {
                admin: Some(false),
                color: Some(Color::BlitzBlue),
                name: normalize_trigger(command_name),
                help: None,
                response_type: Some(CommandResponse::Channel),
                target: Some(String::from_str(command_target)),
                url_path: None,
            },
        );
        assert(cmds.deep_view() =~= doc_commands(old(self)@).push(
            new_command(command_name@, command_target@),
        ));
        self.commands = Some(cmds);

        Ok(())
    }

    /// Remove every record whose normalized trigger matches the given one.
    /// Rejected, with the document unchanged, when none matches. Supports hot
    /// reload.
    pub fn pop_command(&mut self, command_name: &str) -> (r: Result<(), CommandError>)
        ensures
            has_matching(doc_commands(old(self)@), command_name@) ==> r == Ok::<
                (),
                CommandError,
            >(()) && final(self)@ == spec_pop_command(old(self)@, command_name@),
            !has_matching(doc_commands(old(self)@), command_name@) ==> r == Err::<
                (),
                CommandError,
            >(CommandError::NotFound) && final(self)@ == old(self)@,
    {
        if !self.command_exists(command_name) {
            return Err(CommandError::NotFound);
        }
        let key = normalize_trigger(command_name);
        let cmds = match self.commands.take() {
            Some(c) => c,
            None => Vec::new(),
        };
        let mut kept: Vec<Command> = Vec::new();
        let mut i: usize = 0;
        while i < cmds.len()
            invariant
                key@ == normalized(command_name@),
                i <= cmds@.len(),
                kept.deep_view() == remove_matching(
                    cmds.deep_view().subrange(0, i as int),
                    key@,
                ),
            decreases cmds@.len() - i,
        {
            let nm = normalize_trigger(cmds[i].name.as_str());
            let ghost prefix = cmds.deep_view().subrange(0, i as int);
            let ghost next_prefix = cmds.deep_view().subrange(0, i + 1 as int);
            if !(nm == key) {
                kept.push(cmds[i].clone());
            }
            proof {
                assert(next_prefix.drop_last() =~= prefix);
                assert(next_prefix.last() == cmds.deep_view()[i as int]);
                if normalized(cmds.deep_view()[i as int].name) == key@ {
                    assert(kept.deep_view() =~= remove_matching(next_prefix, key@));
                } else {
                    assert(kept.deep_view() =~= remove_matching(prefix, key@) + seq![
                        cmds.deep_view()[i as int],
                    ]);
                    assert(kept.deep_view() =~= remove_matching(next_prefix, key@));
                }
            }
            i += 1;
        }
        proof {
            assert(cmds.deep_view().subrange(0, cmds.deep_view().len() as int) =~= cmds
                .deep_view());
        }
        self.commands = Some(kept);
        Ok(())
    }
}

} // verus!
