use muffetbot::codec::{LoadError, get_conf};
use muffetbot::color::Color;
use muffetbot::document::{Command, CommandResponse, Config};

fn sample_config() -> Config {
    Config {
        help_color: Some(Color::RohrkatzeBlue),
        discord_token: String::from("SECRET-REDACTED"),
        log_path: String::from("/var/log/bot"),
        help_message: Some(String::from("hi there\nline two")),
        command_prefix: Some(String::from("?")),
        site_url: Some(String::from("https://x.com")),
        commands: Some(vec![
            Command {
                admin: Some(true),
                name: String::from("mods"),
                color: Some(Color::Gold),
                help: Some(String::from("say \"hi\" \\ bye")),
                url_path: Some(String::from("mods")),
                response_type: Some(CommandResponse::DmOwner),
                target: None,
            },
            Command {
                admin: None,
                name: String::from("ig"),
                color: None,
                help: None,
                url_path: None,
                response_type: None,
                target: Some(String::from("https://instagram.com/me")),
            },
        ]),
    }
}

#[test]
fn serialize_then_load_keeps_the_store() {
    let config = sample_config();
    let text = config.serialize();
    let reloaded = get_conf(Some(text.as_str())).expect("reload");
    let before = sample_config().data();
    let after = reloaded.data();
    assert_eq!(after.get_help_message(), before.get_help_message());
    assert_eq!(after.get_site_url(), before.get_site_url());
    assert_eq!(after.get_help_color(), before.get_help_color());
    assert_eq!(after.get_commands().len(), before.get_commands().len());
    for (a, b) in after.get_commands().iter().zip(before.get_commands().iter()) {
        assert_eq!(a.get_trigger(), b.get_trigger());
        assert_eq!(a.get_value(), b.get_value());
        assert_eq!(a.get_help(), b.get_help());
        assert_eq!(a.get_response_type(), b.get_response_type());
        assert_eq!(a.get_color(), b.get_color());
        assert_eq!(a.restricted(), b.restricted());
    }
}

#[test]
fn serialize_escapes_specials() {
    let config = sample_config();
    let text = config.serialize();
    assert!(text.contains("help_message = \"hi there\\nline two\""));
    assert!(text.contains("help = \"say \\\"hi\\\" \\\\ bye\""));
    assert!(text.contains("[[command]]"));
    assert!(text.contains("help_color = \"rohrkatze-blue\""));
    assert!(text.contains("response_type = \"dm owner\""));
    assert!(text.contains("admin = true"));
}

#[test]
fn load_minimal_document() {
    let text = "discord_token = \"t\"\nlog_path = \"/l\"\n";
    let config = get_conf(Some(text)).expect("load");
    assert_eq!(config.discord_token, "t");
    assert_eq!(config.log_path, "/l");
    assert!(config.commands.is_none());
    assert!(config.help_message.is_none());
}

#[test]
fn load_skips_blanks_comments_and_unknown_keys() {
    let text = "# a comment\n\ndiscord_token = \"t\"\nnot_a_key = \"x\"\nlog_path = \"/l\"\n";
    let config = get_conf(Some(text)).expect("load");
    assert_eq!(config.discord_token, "t");
}

#[test]
fn load_missing_contents_is_not_found() {
    assert_eq!(get_conf(None).unwrap_err(), LoadError::NotFound);
}

#[test]
fn load_without_required_fields_fails() {
    assert_eq!(
        get_conf(Some("log_path = \"/l\"\n")).unwrap_err(),
        LoadError::ParseError
    );
}

#[test]
fn load_with_wrong_value_shape_fails() {
    assert_eq!(
        get_conf(Some("discord_token = true\nlog_path = \"/l\"\n")).unwrap_err(),
        LoadError::ParseError
    );
    assert_eq!(
        get_conf(Some("discord_token = \"t\"\nlog_path = \"/l\"\nhelp_color = \"chartreuse\"\n"))
            .unwrap_err(),
        LoadError::ParseError
    );
}

#[test]
fn load_command_without_name_fails() {
    let text = "discord_token = \"t\"\nlog_path = \"/l\"\n[[command]]\ntarget = \"x\"\n";
    assert_eq!(get_conf(Some(text)).unwrap_err(), LoadError::ParseError);
}

#[test]
fn load_parses_command_blocks() {
    let text = "discord_token = \"t\"\nlog_path = \"/l\"\nsite_url = \"https://x.com\"\n[[command]]\nname = \"shop\"\npath = \"shop\"\n[[command]]\nname = \"ig\"\ntarget = \"https://instagram.com/me\"\nresponse_type = \"reply\"\n";
    let config = get_conf(Some(text)).expect("load");
    let cmds = config.commands.as_ref().unwrap();
    assert_eq!(cmds.len(), 2);
    assert_eq!(cmds[0].name, "shop");
    assert_eq!(cmds[0].url_path.as_deref(), Some("shop"));
    assert_eq!(cmds[1].response_type, Some(CommandResponse::Reply));
    let data = config.data();
    assert_eq!(data.get_commands()[0].get_value(), "https://x.com/shop");
    assert_eq!(data.get_commands()[1].get_value(), "https://instagram.com/me");
}
