//! The normalized runtime store: fully resolved commands and presentation
//! settings, derived from a configuration document by a pure transform.

use vstd::prelude::*;

use crate::color::Color;
use crate::document::{CommandResponse, CommandView, Config, ConfigView, doc_commands};
use crate::text::normalized;

verus! {

/// One fully resolved command.
#[derive(Debug)]
pub struct CommandData {
    pub admin: bool,
    pub color: Color,
    pub help: String,
    pub response_type: CommandResponse,
    pub trigger: String,
    pub value: String,
}

/// The mathematical value of a resolved command.
pub struct CommandDataView {
    pub admin: bool,
    pub color: Color,
    pub help: Seq<char>,
    pub response_type: CommandResponse,
    pub trigger: Seq<char>,
    pub value: Seq<char>,
}

impl View for CommandData {
    type V = CommandDataView;

    open spec fn view(&self) -> CommandDataView {
        CommandDataView {
            admin: self.admin,
            color: self.color,
            help: self.help@,
            response_type: self.response_type,
            trigger: self.trigger@,
            value: self.value@,
        }
    }
}

impl DeepView for CommandData {
    type V = CommandDataView;

    open spec fn deep_view(&self) -> CommandDataView {
        self.view()
    }
}

impl Clone for CommandData {
    fn clone(&self) -> (r: Self)
        ensures
            r@ == self@,
    {
        CommandData {
            admin: self.admin,
            color: self.color,
            help: self.help.clone(),
            response_type: self.response_type,
            trigger: self.trigger.clone(),
            value: self.value.clone(),
        }
    }
}

/// The help text shown for a command that supplies none.
pub open spec fn placeholder_help() -> Seq<char> {
    "No help available for this command"@
}

/// The banner prepended to the help of an admin-only command.
pub open spec fn admin_banner() -> Seq<char> {
    "**admin command**\n"@
}

/// The resolved command a `CommandData::default()` returns.
pub open spec fn default_command_data() -> CommandDataView {
    CommandDataView {
        admin: false,
        color: Color::BlitzBlue,
        help: placeholder_help(),
        response_type: CommandResponse::Channel,
        trigger: Seq::empty(),
        value: Seq::empty(),
    }
}

impl Default for CommandData {
    fn default() -> (r: Self)
        ensures
            r@ == default_command_data(),
    {
        CommandData {
            admin: false,
            color: Color::BlitzBlue,
            help: String::from_str("No help available for this command"),
            response_type: CommandResponse::Channel,
            trigger: String::new(),
            value: String::new(),
        }
    }
}

impl CommandData {
    /// Whether the command is restricted to the configured owner.
    pub fn restricted(&self) -> (r: bool)
        ensures
            r == self@.admin,
    {
        self.admin
    }

    pub fn get_color(&self) -> (r: Color)
        ensures
            r == self@.color,
    {
        self.color
    }

    pub fn get_help(&self) -> (r: &str)
        ensures
            r@ == self@.help,
    {
        self.help.as_str()
    }

    pub fn get_response_type(&self) -> (r: &CommandResponse)
        ensures
            *r == self@.response_type,
    {
        &self.response_type
    }

    pub fn get_trigger(&self) -> (r: &str)
        ensures
            r@ == self@.trigger,
    {
        self.trigger.as_str()
    }

    pub fn get_value(&self) -> (r: &str)
        ensures
            r@ == self@.value,
    {
        self.value.as_str()
    }
}

/// The normalized, queryable runtime projection of a configuration document.
#[derive(Debug)]
pub struct ConfigData {
    pub commands: Vec<CommandData>,
    pub help_color: Color,
    pub help_message: String,
    pub site_url: String,
}

/// The mathematical value of the runtime store.
pub struct ConfigDataView {
    pub commands: Seq<CommandDataView>,
    pub help_color: Color,
    pub help_message: Seq<char>,
    pub site_url: Seq<char>,
}

impl View for ConfigData {
    type V = ConfigDataView;

    open spec fn view(&self) -> ConfigDataView {
        ConfigDataView {
            commands: self.commands.deep_view(),
            help_color: self.help_color,
            help_message: self.help_message@,
            site_url: self.site_url@,
        }
    }
}

/// The store an empty document normalizes to.
pub open spec fn default_config_data() -> ConfigDataView {
    ConfigDataView {
        commands: Seq::empty(),
        help_color: Color::BlitzBlue,
        help_message: Seq::empty(),
        site_url: Seq::empty(),
    }
}

impl Default for ConfigData {
    fn default() -> (r: Self)
        ensures
            r@ == default_config_data(),
    {
        let r = ConfigData {
            commands: Vec::new(),
            help_color: Color::BlitzBlue,
            help_message: String::new(),
            site_url: String::new(),
        };
        proof {
            assert(r.commands.deep_view() =~= Seq::<CommandDataView>::empty());
        }
        r
    }
}

impl ConfigData {
    pub fn get_help_color(&self) -> (r: &Color)
        ensures
            *r == self@.help_color,
    {
        &self.help_color
    }

    pub fn get_help_message(&self) -> (r: &str)
        ensures
            r@ == self@.help_message,
    {
        self.help_message.as_str()
    }

    pub fn get_commands(&self) -> (r: &Vec<CommandData>)
        ensures
            r.deep_view() == self@.commands,
    {
        &self.commands
    }

    pub fn get_site_url(&self) -> (r: &str)
        ensures
            r@ == self@.site_url,
    {
        self.site_url.as_str()
    }
}

/// A path with a leading slash, added when missing.
pub open spec fn with_leading_slash(p: Seq<char>) -> Seq<char> {
    if p.len() > 0 && p[0] == '/' {
        p
    } else {
        seq!['/'] + p
    }
}

/// A relative path joined against the optional site base URL.
pub open spec fn resolve_path(site_url: Option<Seq<char>>, p: Seq<char>) -> Seq<char> {
    match site_url {
        Some(base) => base + with_leading_slash(p),
        None => with_leading_slash(p),
    }
}

/// The help text of a resolved command.
pub open spec fn resolve_help(admin: bool, help: Option<Seq<char>>) -> Seq<char> {
    let base = match help {
        Some(h) => h,
        None => placeholder_help(),
    };
    if admin {
        admin_banner() + base
    } else {
        base
    }
}

/// The resolved form of one raw record, or `None` for a record with neither a
/// target nor a path (such records are dropped).
pub open spec fn normalize_command(site_url: Option<Seq<char>>, c: CommandView) -> Option<
    CommandDataView,
> {
    let value = match c.target {
        Some(t) => Some(t),
        None => match c.url_path {
            Some(p) => Some(resolve_path(site_url, p)),
            None => None,
        },
    };
    match value {
        Some(v) => Some(
            CommandDataView {
                admin: c.admin.unwrap_or(false),
                color: c.color.unwrap_or(Color::BlitzBlue),
                help: resolve_help(c.admin.unwrap_or(false), c.help),
                response_type: c.response_type.unwrap_or(CommandResponse::Channel),
                trigger: normalized(c.name),
                value: v,
            },
        ),
        None => None,
    }
}

/// The resolved command list of a document.
pub open spec fn normalize_commands(site_url: Option<Seq<char>>, cs: Seq<CommandView>) -> Seq<
    CommandDataView,
> {
    cs.filter_map(|c: CommandView| normalize_command(site_url, c))
}

/// The store a document normalizes to.
pub open spec fn normalize_doc(d: ConfigView) -> ConfigDataView {
    ConfigDataView {
        commands: normalize_commands(d.site_url, doc_commands(d)),
        help_color: d.help_color.unwrap_or(Color::BlitzBlue),
        help_message: match d.help_message {
            Some(h) => h,
            None => Seq::empty(),
        },
        site_url: match d.site_url {
            Some(u) => u,
            None => Seq::empty(),
        },
    }
}

fn prefix_slash(p: String) -> (r: String)
    ensures
        r@ == with_leading_slash(p@),
{
    if p.unicode_len() > 0 && p.as_str().get_char(0) == '/' {
        p
    } else {
        let r = String::from_str("/").concat(p.as_str());
        proof {
            reveal_strlit("/");
            assert("/"@ =~= seq!['/']);
        }
        assert(r@ =~= with_leading_slash(p@));
        r
    }
}

fn resolve_one(site_url: &Option<String>, c: crate::document::Command) -> (r: Option<CommandData>)
    ensures
        r.deep_view() == normalize_command(site_url.deep_view(), c@),
{
    let value: String = match c.target {
        Some(t) => t,
        None => match c.url_path {
            Some(p) => {
                let slashed = prefix_slash(p);
                match site_url {
                    Some(base) => base.clone().concat(slashed.as_str()),
                    None => slashed,
                }
            },
            None => {
                return None;
            },
        },
    };
    let admin = match c.admin {
        Some(a) => a,
        None => false,
    };
    let help: String = {
        let base = match c.help {
            Some(h) => h,
            None => String::from_str("No help available for this command"),
        };
        if admin {
            String::from_str("**admin command**\n").concat(base.as_str())
        } else {
            base
        }
    };
    Some(
        CommandData {
            admin,
            color: match c.color {
                Some(col) => col,
                None => Color::BlitzBlue,
            },
            help,
            response_type: match c.response_type {
                Some(t) => t,
                None => CommandResponse::Channel,
            },
            trigger: crate::text::normalize_trigger(c.name.as_str()),
            value,
        },
    )
}

impl Config {
    /// Consume the document and produce the normalized runtime store.
    pub fn data(self) -> (r: ConfigData)
        ensures
            r@ == normalize_doc(self@),
    {
        let ghost dv = self@;
        let Config { help_color, discord_token: _, log_path: _, help_message, site_url, commands, .. } =
            self;
        let mut resolved: Vec<CommandData> = Vec::new();
        let ghost f = |c: CommandView| normalize_command(site_url.deep_view(), c);
        if let Some(cmds) = commands {
            let mut i: usize = 0;
            while i < cmds.len()
                invariant
                    i <= cmds@.len(),
                    doc_commands(dv) == cmds.deep_view(),
                    f == (|c: CommandView| normalize_command(site_url.deep_view(), c)),
                    resolved.deep_view() == cmds.deep_view().subrange(0, i as int).filter_map(f),
                decreases cmds@.len() - i,
            {
                let ghost prefix = cmds.deep_view().subrange(0, i as int);
                let ghost next_prefix = cmds.deep_view().subrange(0, i + 1 as int);
                if let Some(cd) = resolve_one(&site_url, cmds[i].clone()) {
                    resolved.push(cd);
                }
                proof {
                    assert(next_prefix.drop_last() =~= prefix);
                    assert(next_prefix.last() == cmds.deep_view()[i as int]);
                    match f(cmds.deep_view()[i as int]) {
                        Some(cd) => {
                            assert(resolved.deep_view() =~= prefix.filter_map(f) + seq![cd]);
                        },
                        None => {},
                    }
                    assert(resolved.deep_view() =~= next_prefix.filter_map(f));
                }
                i += 1;
            }
            proof {
                assert(cmds.deep_view().subrange(0, cmds.deep_view().len() as int) =~= cmds
                    .deep_view());
            }
        }
        let r = ConfigData {
            help_color: match help_color {
                Some(color) => color,
                None => Color::BlitzBlue,
            },
            help_message: match help_message {
                Some(help) => help,
                None => String::new(),
            },
            commands: resolved,
            site_url: match site_url {
                Some(url) => url,
                None => String::new(),
            },
        };
        proof {
            assert(r@.commands =~= normalize_doc(dv).commands);
        }
        r
    }
}

} // verus!
