use muffetbot::color::Color;
use muffetbot::document::{Command, Config};
use muffetbot::reload::{
    HotReloadError, ReloadAction, apply_reload, hot_reload_conf, resolve_config_path, split_args,
};
use muffetbot::store::ConfigData;

fn config_with_ig() -> Config {
    Config {
        help_color: None,
        discord_token: String::from("t"),
        log_path: String::from("/l"),
        help_message: None,
        command_prefix: None,
        site_url: None,
        commands: Some(vec![Command {
            admin: None,
            name: String::from("ig"),
            color: None,
            help: None,
            url_path: None,
            response_type: None,
            target: Some(String::from("https://instagram.com/me")),
        }]),
    }
}

#[test]
fn admin_append_adds_a_literal_target_command() {
    let mut config = config_with_ig();
    let (msg, persist) = apply_reload(
        &mut config,
        ReloadAction::Append,
        "shop https://shop.example.com",
    )
    .expect("append");
    assert_eq!(msg, "added the <shop> command!");
    assert!(persist);
    let data = config.data();
    assert_eq!(data.get_commands().len(), 2);
    let shop = data
        .get_commands()
        .iter()
        .find(|c| c.get_trigger() == "shop")
        .expect("shop present");
    assert_eq!(shop.get_value(), "https://shop.example.com");
}

#[test]
fn append_without_target_is_malformed() {
    let mut config = config_with_ig();
    assert_eq!(
        apply_reload(&mut config, ReloadAction::Append, "shop"),
        Err(HotReloadError::ImproperFormat)
    );
    assert_eq!(
        apply_reload(&mut config, ReloadAction::Append, ""),
        Err(HotReloadError::ImproperFormat)
    );
}

#[test]
fn append_duplicate_fails_operation() {
    let mut config = config_with_ig();
    assert_eq!(
        apply_reload(&mut config, ReloadAction::Append, "ig https://elsewhere.example.com"),
        Err(HotReloadError::OperationFailed)
    );
}

#[test]
fn remove_missing_fails_operation() {
    let mut config = config_with_ig();
    assert_eq!(
        apply_reload(&mut config, ReloadAction::Remove, "shop"),
        Err(HotReloadError::OperationFailed)
    );
    let (msg, persist) = apply_reload(&mut config, ReloadAction::Remove, "ig").expect("remove");
    assert_eq!(msg, "removed the <ig> command!");
    assert!(persist);
    assert_eq!(config.data().get_commands().len(), 0);
}

#[test]
fn set_help_requires_text() {
    let mut config = config_with_ig();
    assert_eq!(
        apply_reload(&mut config, ReloadAction::Help, ""),
        Err(HotReloadError::ImproperFormat)
    );
    let (msg, persist) =
        apply_reload(&mut config, ReloadAction::Help, "new help text").expect("help");
    assert_eq!(msg, "Help message successfully changed!");
    assert!(persist);
    assert_eq!(config.help_message.as_deref(), Some("new help text"));
}

#[test]
fn color_change_accepts_palette_names_case_insensitively() {
    let mut config = config_with_ig();
    let (msg, persist) =
        apply_reload(&mut config, ReloadAction::ChangeColor, " Rohrkatze-Blue ").expect("color");
    assert_eq!(msg, "Color successfully changed!");
    assert!(persist);
    assert_eq!(config.help_color, Some(Color::RohrkatzeBlue));
}

#[test]
fn color_without_argument_lists_the_palette() {
    let mut config = config_with_ig();
    let (msg, persist) = apply_reload(&mut config, ReloadAction::ChangeColor, "").expect("list");
    assert!(!persist);
    assert!(msg.contains("> *blitz-blue*\n"));
    assert!(msg.contains("> *teal*\n"));
    assert_eq!(config.help_color, None);
}

#[test]
fn invalid_color_lists_the_palette_without_persisting() {
    let mut config = config_with_ig();
    let (msg, persist) =
        apply_reload(&mut config, ReloadAction::ChangeColor, "chartreuse").expect("list");
    assert!(!persist);
    assert!(msg.starts_with("**Sorry, that's not a valid color!**\n"));
    assert_eq!(config.help_color, None);
}

#[test]
fn publish_only_after_successful_write() {
    let mut slot = ConfigData::default();
    let config = config_with_ig();
    let r = hot_reload_conf(&mut slot, config, true);
    assert_eq!(r, Ok(()));
    assert_eq!(slot.get_commands().len(), 1);
}

#[test]
fn failed_write_leaves_the_snapshot_untouched() {
    let mut slot = ConfigData::default();
    assert_eq!(hot_reload_conf(&mut slot, config_with_ig(), true), Ok(()));
    let before_len = slot.get_commands().len();
    let before_trigger = slot.get_commands()[0].get_trigger().to_string();

    let mut changed = config_with_ig();
    changed.push_command("shop", "https://shop.example.com").unwrap();
    assert_eq!(
        hot_reload_conf(&mut slot, changed, false),
        Err(HotReloadError::WriteFailed)
    );
    assert_eq!(slot.get_commands().len(), before_len);
    assert_eq!(slot.get_commands()[0].get_trigger(), before_trigger);
}

#[test]
fn missing_environment_is_reported() {
    assert_eq!(resolve_config_path(None), Err(HotReloadError::EnvMissing));
    assert_eq!(
        resolve_config_path(Some(String::from("/etc/bot.toml"))),
        Ok(String::from("/etc/bot.toml"))
    );
}

#[test]
fn error_messages_match_the_admin_texts() {
    assert_eq!(HotReloadError::EnvMissing.message(), "MUFFETBOT_CONFIG env var not found");
    assert_eq!(HotReloadError::FetchFailed.message(), "Unable to find config file");
    assert_eq!(
        HotReloadError::ImproperFormat.message(),
        "Improper formatting for command. Use the `help` command for more info."
    );
    assert_eq!(HotReloadError::OperationFailed.message(), "Unable to complete operation");
    assert_eq!(HotReloadError::WriteFailed.message(), "Unable to write new config to file");
}

#[test]
fn split_args_takes_the_first_word() {
    assert_eq!(
        split_args("shop https://shop.example.com x"),
        (String::from("shop"), String::from("https://shop.example.com x"))
    );
    assert_eq!(split_args("  shop  "), (String::from("shop"), String::from(" ")));
    assert_eq!(split_args(""), (String::from(""), String::from("")));
}
