use muffetbot::color::Color;
use muffetbot::document::{Command, CommandError, CommandResponse, Config};

fn base_config(commands: Option<Vec<Command>>) -> Config {
    Config {
        help_color: None,
        discord_token: String::from("token"),
        log_path: String::from("/tmp/logs"),
        help_message: None,
        command_prefix: None,
        site_url: Some(String::from("https://x.com")),
        commands,
    }
}

fn raw_command(name: &str, target: Option<&str>, path: Option<&str>) -> Command {
    Command {
        admin: None,
        name: String::from(name),
        color: None,
        help: None,
        url_path: path.map(String::from),
        response_type: None,
        target: target.map(String::from),
    }
}

#[test]
fn add_duplicate_rejected_and_unchanged() {
    let mut config = base_config(Some(vec![raw_command("ig", Some("https://instagram.com/me"), None)]));
    let r = config.push_command("ig", "https://elsewhere.example.com");
    assert_eq!(r, Err(CommandError::AlreadyExists));
    let cmds = config.commands.as_ref().unwrap();
    assert_eq!(cmds.len(), 1);
    assert_eq!(cmds[0].name, "ig");
    assert_eq!(cmds[0].target.as_deref(), Some("https://instagram.com/me"));
}

#[test]
fn add_duplicate_detected_after_normalization() {
    let mut config = base_config(Some(vec![raw_command("ig", Some("https://instagram.com/me"), None)]));
    let r = config.push_command("  IG ", "https://elsewhere.example.com");
    assert_eq!(r, Err(CommandError::AlreadyExists));
    assert_eq!(config.commands.as_ref().unwrap().len(), 1);
}

#[test]
fn remove_missing_rejected_and_unchanged() {
    let mut config = base_config(Some(vec![raw_command("ig", Some("https://instagram.com/me"), None)]));
    let r = config.pop_command("shop");
    assert_eq!(r, Err(CommandError::NotFound));
    assert_eq!(config.commands.as_ref().unwrap().len(), 1);
}

#[test]
fn remove_on_empty_config_rejected() {
    let mut config = base_config(None);
    assert_eq!(config.pop_command("ig"), Err(CommandError::NotFound));
    assert!(config.commands.is_none());
}

#[test]
fn add_then_remove_round_trips() {
    let mut config = base_config(Some(vec![raw_command("ig", Some("https://instagram.com/me"), None)]));
    assert_eq!(config.push_command("shop", "https://shop.example.com"), Ok(()));
    assert_eq!(config.commands.as_ref().unwrap().len(), 2);
    assert_eq!(config.pop_command("shop"), Ok(()));
    let cmds = config.commands.as_ref().unwrap();
    assert_eq!(cmds.len(), 1);
    assert_eq!(cmds[0].name, "ig");
}

#[test]
fn normalize_resolves_relative_path() {
    let config = base_config(Some(vec![raw_command("shop", None, Some("shop"))]));
    let data = config.data();
    let cmds = data.get_commands();
    assert_eq!(cmds.len(), 1);
    assert_eq!(cmds[0].get_value(), "https://x.com/shop");
}

#[test]
fn normalize_leading_slash_is_idempotent() {
    let config = base_config(Some(vec![raw_command("shop", None, Some("/shop"))]));
    let data = config.data();
    assert_eq!(data.get_commands()[0].get_value(), "https://x.com/shop");
}

#[test]
fn normalize_prefers_literal_target() {
    let config = base_config(Some(vec![raw_command(
        "shop",
        Some("https://shop.example.com"),
        Some("shop"),
    )]));
    let data = config.data();
    assert_eq!(data.get_commands()[0].get_value(), "https://shop.example.com");
}

#[test]
fn normalize_drops_record_without_target_or_path() {
    let config = base_config(Some(vec![
        raw_command("ghost", None, None),
        raw_command("shop", None, Some("shop")),
    ]));
    let data = config.data();
    assert_eq!(data.get_commands().len(), 1);
    assert_eq!(data.get_commands()[0].get_trigger(), "shop");
}

#[test]
fn normalize_fills_defaults() {
    let config = base_config(Some(vec![raw_command("  ShOp ", None, Some("shop"))]));
    let data = config.data();
    let cmd = &data.get_commands()[0];
    assert_eq!(cmd.get_trigger(), "shop");
    assert_eq!(cmd.get_help(), "No help available for this command");
    assert_eq!(*cmd.get_response_type(), CommandResponse::Channel);
    assert_eq!(cmd.get_color(), Color::BlitzBlue);
    assert!(!cmd.restricted());
    assert_eq!(data.get_site_url(), "https://x.com");
    assert_eq!(*data.get_help_color(), Color::BlitzBlue);
    assert_eq!(data.get_help_message(), "");
}

#[test]
fn normalize_admin_banner() {
    let mut cmd = raw_command("mod", None, Some("mods"));
    cmd.admin = Some(true);
    cmd.help = Some(String::from("mods only"));
    let config = base_config(Some(vec![cmd]));
    let data = config.data();
    assert_eq!(data.get_commands()[0].get_help(), "**admin command**\nmods only");
    assert!(data.get_commands()[0].restricted());
}

#[test]
fn command_prefix_defaults_to_bang() {
    let config = base_config(None);
    assert_eq!(config.get_command_prefix(), "!");
    assert_eq!(config.get_token(), "token");
    assert_eq!(config.get_log_path(), "/tmp/logs");
}
