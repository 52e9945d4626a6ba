//! What the bot's commands answer.

use openab::commands::{
    build_pagination_buttons, cancel_all_reply, cancel_reply, check_remind_fields,
    check_remind_targets, config_choice_reply, config_command_reply, config_options,
    pagination_reply,
    parse_config_choice, remind_reply, remind_targets, reset_reply, ConfigOption, ConfigValue,
};

fn option(id: &str, current: &str, values: &[(&str, &str)]) -> ConfigOption {
    ConfigOption {
        id: id.to_string(),
        category: None,
        current_value: current.to_string(),
        options: values
            .iter()
            .map(|(value, name)| ConfigValue {
                value: value.to_string(),
                name: name.to_string(),
                description: None,
            })
            .collect(),
    }
}

#[test]
fn cancelling_answers_what_happened() {
    assert_eq!(cancel_reply(&Ok(())), "🛑 Cancel signal sent.");
    assert_eq!(cancel_reply(&Err("no session".to_string())), "⚠️ no session");
    assert_eq!(cancel_all_reply(true, 0), "🛑 Cancel signal sent.");
    assert_eq!(cancel_all_reply(true, 2), "🛑 Cancel signal sent. Buffered messages cleared.");
    assert_eq!(
        cancel_all_reply(false, 0),
        "⚠️ Nothing to cancel — no active session and no buffered messages."
    );
    assert_eq!(
        cancel_all_reply(false, 1),
        "🛑 Buffered messages cleared. No active session to cancel."
    );
}

#[test]
fn a_reset_answers_what_was_dropped() {
    assert_eq!(reset_reply(true, 0), "🔄 Session reset. Start a new conversation!");
    assert_eq!(
        reset_reply(true, 12),
        "🔄 Session reset. Dropped 12 buffered message(s). Start a new conversation!"
    );
    assert_eq!(
        reset_reply(false, 3),
        "🔄 Dropped 3 buffered message(s). No active session to reset."
    );
    assert_eq!(
        reset_reply(false, 0),
        "⚠️ No active session to reset. Start a conversation first by @mentioning the bot."
    );
}

#[test]
fn menus_are_announced() {
    assert_eq!(config_command_reply("model", true), "🔧 Select a model:");
    assert_eq!(
        config_command_reply("model", false),
        "⚠️ No model options available. Start a conversation first by @mentioning the bot."
    );
    assert_eq!(pagination_reply("agent", true), "🔧 Select a agent:");
    assert_eq!(pagination_reply("agent", false), "⚠️ No agent options available.");
}

#[test]
fn pages_turn_both_ways_but_not_past_the_ends() {
    assert!(build_pagination_buttons("model", 0, 1).is_none());
    let first = build_pagination_buttons("model", 0, 3).unwrap();
    assert!(first[0].disabled);
    assert!(!first.last().unwrap().disabled);
    let last = build_pagination_buttons("model", 2, 3).unwrap();
    assert!(!last[0].disabled);
    assert!(last.last().unwrap().disabled);
}

#[test]
fn a_choice_names_its_option() {
    let values = vec!["gpt".to_string(), "other".to_string()];
    assert_eq!(
        parse_config_choice("acp_config_model", &values),
        Some(("model".to_string(), "gpt".to_string()))
    );
    assert!(parse_config_choice("acp_config_", &values).is_none());
    assert!(parse_config_choice("acp_config_model", &vec![]).is_none());
    assert!(parse_config_choice("other_model", &values).is_none());
}

#[test]
fn a_choice_is_answered_by_its_name() {
    let options = vec![option("mode", "a", &[("gpt", "wrong")]), option("model", "x", &[("gpt", "GPT")])];
    let taken: Result<Vec<ConfigOption>, String> = Ok(options);
    assert_eq!(config_choice_reply(&taken, "model", "gpt"), "✅ Switched to **GPT**");
    assert_eq!(config_choice_reply(&taken, "model", "unknown"), "✅ Switched to **unknown**");
    assert_eq!(config_choice_reply(&taken, "none", "gpt"), "✅ Switched to **gpt**");
    let failed: Result<Vec<ConfigOption>, String> = Err("busy".to_string());
    assert_eq!(config_choice_reply(&failed, "model", "gpt"), "❌ Failed to switch: busy");
}

#[test]
fn reminders_are_for_mentions() {
    assert_eq!(remind_targets("tell <@1> and <@&2> , <@3"), ["<@1>", "<@&2>"]);
    assert_eq!(
        check_remind_fields(true, "<@1>", "m", "5m").as_deref(),
        Some("⚠️ Only humans can set reminders.")
    );
    assert_eq!(
        check_remind_fields(false, "<@1>", "", "5m").as_deref(),
        Some("⚠️ All fields (targets, message, delay) are required.")
    );
    assert!(check_remind_fields(false, "<@1>", "m", "5m").is_none());
}

#[test]
fn reminders_are_limited() {
    let none: Vec<u64> = vec![];
    assert_eq!(
        check_remind_targets("nobody", 3, &none, 1).unwrap_err(),
        "⚠️ No valid mentions found in targets. Use @user or @role."
    );
    assert_eq!(
        check_remind_targets("<@1> <@2>", 1, &none, 1).unwrap_err(),
        "⚠️ Too many targets (max 1). Use a @role instead."
    );
    let waiting = vec![1, 1, 2, 1, 1, 1];
    assert_eq!(
        check_remind_targets("<@1>", 3, &waiting, 1).unwrap_err(),
        "⚠️ You already have 5 active reminders. Wait for some to fire before adding more."
    );
    assert_eq!(check_remind_targets("<@1> <@9>", 3, &waiting, 2).unwrap(), ["<@1>", "<@9>"]);
}

#[test]
fn a_set_reminder_is_confirmed() {
    let targets = vec!["<@1>".to_string(), "<@2>".to_string()];
    assert_eq!(
        remind_reply("5m", &targets),
        "⏰ Reminder set! Will fire in **5m** and mention <@1> <@2>"
    );
}

#[test]
fn agent_options_are_read() {
    let list = serde_json::from_str(
        r#"[{"id":"model","category":"model","currentValue":"a",
            "options":[{"value":"a","name":"A","description":"first"},{"value":"b","name":"B"}]},
           {"id":"mode","options":7}]"#,
    )
    .unwrap();
    let options = config_options(&list);
    assert_eq!(options.len(), 2);
    assert_eq!(options[0].id, "model");
    assert_eq!(options[0].category.as_deref(), Some("model"));
    assert_eq!(options[0].current_value, "a");
    assert_eq!(options[0].options.len(), 2);
    assert_eq!(options[0].options[0].description.as_deref(), Some("first"));
    assert_eq!(options[0].options[1].value, "b");
    assert_eq!(options[0].options[1].name, "B");
    assert!(options[0].options[1].description.is_none());
    assert_eq!(options[1].id, "mode");
    assert!(options[1].category.is_none());
    assert_eq!(options[1].current_value, "");
    assert!(options[1].options.is_empty());
}

#[test]
fn no_list_is_no_options() {
    assert!(config_options(&serde_json::Value::Null).is_empty());
}
