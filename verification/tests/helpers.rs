use muffetbot::color::Color;
use muffetbot::document::CommandResponse;
use muffetbot::messages::{about_message, minecraft_request_message, pick_goal, zip_shop_message};
use muffetbot::router::{HelpReply, builtin_command_data, choose_help, flatten_cmds, route, str_lt, visible_commands};
use muffetbot::setup::{InitError, clean_answer, default_config_path, initial_config, is_root_user, updated_profile};
use muffetbot::store::ConfigData;
use muffetbot::text::normalize_trigger;

fn store_with(cmds: Vec<(&str, &str, bool)>) -> ConfigData {
    let mut config = muffetbot::document::Config {
        help_color: None,
        discord_token: String::from("t"),
        log_path: String::from("/l"),
        help_message: Some(String::from("welcome")),
        command_prefix: None,
        site_url: None,
        commands: None,
    };
    for (name, target, admin) in &cmds {
        config.push_command(name, target).unwrap();
        if *admin {
            if let Some(list) = config.commands.as_mut() {
                list.last_mut().unwrap().admin = Some(true);
            }
        }
    }
    config.data()
}

#[test]
fn normalize_trigger_trims_and_lowercases() {
    assert_eq!(normalize_trigger("  HeLLo "), "hello");
    assert_eq!(normalize_trigger("\tMixED\n"), "mixed");
    assert_eq!(normalize_trigger("   "), "");
}

#[test]
fn route_matches_exactly_and_first() {
    let store = store_with(vec![("ig", "https://a", false), ("shop", "https://b", false)]);
    assert_eq!(route(&store, "shop").unwrap().get_value(), "https://b");
    assert!(route(&store, "Shop").is_none());
    assert!(route(&store, "nope").is_none());
}

#[test]
fn visible_commands_hides_admin_entries_and_sorts() {
    let store = store_with(vec![
        ("zeta", "https://z", false),
        ("admin", "https://a", true),
        ("mid", "https://m", false),
    ]);
    let public = visible_commands(&Vec::new(), &store, false);
    let triggers: Vec<&str> = public.iter().map(|c| c.get_trigger()).collect();
    assert_eq!(triggers, vec!["mid", "zeta"]);
    let owner = visible_commands(&Vec::new(), &store, true);
    let triggers: Vec<&str> = owner.iter().map(|c| c.get_trigger()).collect();
    assert_eq!(triggers, vec!["admin", "mid", "zeta"]);
}

#[test]
fn choose_help_selects_detail_or_listing() {
    let store = store_with(vec![("ig", "https://a", false), ("mods", "https://m", true)]);
    let cmds = visible_commands(&Vec::new(), &store, true);
    assert_eq!(choose_help(&cmds, None), HelpReply::Listing);
    assert_eq!(choose_help(&cmds, Some("nope")), HelpReply::Silent);
    match choose_help(&cmds, Some("ig")) {
        HelpReply::Detail(i) => assert_eq!(cmds[i].get_trigger(), "ig"),
        other => panic!("unexpected reply {:?}", other),
    }
    match choose_help(&cmds, Some("mods")) {
        HelpReply::AdminDetail(i) => assert_eq!(cmds[i].get_trigger(), "mods"),
        other => panic!("unexpected reply {:?}", other),
    }
}

#[test]
fn flatten_cmds_lists_backquoted_triggers() {
    let store = store_with(vec![("ig", "https://a", false), ("shop", "https://b", false)]);
    let cmds = visible_commands(&Vec::new(), &store, false);
    assert_eq!(flatten_cmds(&cmds), "`ig`\n`shop`\n");
}

#[test]
fn str_lt_is_lexicographic() {
    assert!(str_lt("abc", "abd"));
    assert!(str_lt("ab", "abc"));
    assert!(!str_lt("abc", "abc"));
    assert!(!str_lt("b", "abc"));
}

#[test]
fn builtin_command_data_builds_help_text() {
    let examples = vec![String::from("`!goal`"), String::from("`!goal now`")];
    let cmd = builtin_command_data(
        true,
        true,
        Some("pick a goal"),
        None,
        &examples,
        "goal",
    );
    assert_eq!(
        cmd.get_help(),
        "**admin command**\npick a goal\nNo help available for this command\n`!goal`\n`!goal now`"
    );
    assert_eq!(cmd.get_trigger(), "goal");
    assert!(cmd.restricted());
    assert_eq!(*cmd.get_response_type(), CommandResponse::Channel);
}

#[test]
fn shop_message_zips_names_and_paths() {
    let names = vec![String::from("Zine"), String::from("Print")];
    let paths = vec![String::from("/shop/zine"), String::from("/shop/print")];
    assert_eq!(
        zip_shop_message(&names, &paths, "https://x.com"),
        "Zine\nhttps://x.com/shop/zine\n\nPrint\nhttps://x.com/shop/print\n\n"
    );
}

#[test]
fn about_message_joins_first_two_paragraphs() {
    let nodes = vec![String::from("one"), String::from("two"), String::from("three")];
    assert_eq!(about_message(&nodes), "one\n\ntwo");
}

#[test]
fn pick_goal_uses_the_draw_modulo_the_count() {
    let goals = vec![String::from("a"), String::from("b"), String::from("c")];
    assert_eq!(pick_goal(&goals, 4), Some(String::from("b")));
    assert_eq!(pick_goal(&Vec::new(), 4), None);
}

#[test]
fn minecraft_request_names_the_author() {
    assert_eq!(
        minecraft_request_message("muffet"),
        "muffet has requested an invite to the minecraft server!"
    );
}

#[test]
fn color_lookup_and_values() {
    assert_eq!(Color::from_name("rohrkatze-blue"), Some(Color::RohrkatzeBlue));
    assert_eq!(Color::from_name("Chartreuse"), None);
    assert_eq!(Color::BlitzBlue.value(), 0x6FC6E2);
    assert_eq!(Color::default(), Color::BlitzBlue);
    assert_eq!(Color::all().len(), 28);
    assert_eq!(Color::Teal.as_str(), "teal");
}

#[test]
fn response_type_names_round_trip() {
    for t in [
        CommandResponse::Channel,
        CommandResponse::Dm,
        CommandResponse::Embed,
        CommandResponse::DmOwner,
        CommandResponse::Reply,
    ] {
        assert_eq!(CommandResponse::from_name(t.as_str()), Some(t));
    }
    assert_eq!(CommandResponse::from_name("carrier pigeon"), None);
}

#[test]
fn clean_answer_trims_and_sanitizes() {
    assert_eq!(clean_answer("  \n", true), None);
    assert_eq!(clean_answer("token\n", true), Some(String::from("token")));
    assert_eq!(clean_answer("hi there\n", false), Some(String::from("hi there\n")));
}

#[test]
fn initial_config_uses_the_default_color_and_no_commands() {
    let config = initial_config(
        String::from("tok"),
        Some(String::from("hello")),
        None,
        None,
        String::from("/logs"),
    );
    assert_eq!(config.help_color, Some(Color::BlitzBlue));
    assert!(config.commands.is_none());
    assert_eq!(config.get_command_prefix(), "!");
}

#[test]
fn updated_profile_replaces_old_exports() {
    let profile = "export PATH=/bin\nexport MUFFETBOT_CONFIG=\"/old\"\nalias l=ls";
    assert_eq!(
        updated_profile(profile, "/new/config.toml"),
        "export PATH=/bin\nalias l=ls\nexport MUFFETBOT_CONFIG=\"/new/config.toml\""
    );
}

#[test]
fn setup_helpers_cover_the_edges() {
    assert!(is_root_user(Some("root")));
    assert!(!is_root_user(Some("muffet")));
    assert!(!is_root_user(None));
    assert_eq!(
        default_config_path("/home/muffet"),
        "/home/muffet/.config/muffetbot/config.toml"
    );
    assert_eq!(
        InitError::UserIsRoot.as_str(),
        "For security, this bot should not be installed as root!"
    );
}
