//! The setup wizard: how answers are read, and what it shows.

use openab::wizard::{
    agent_guide, answer_or, default_dir, draw_box, next_steps, parse_checklist, parse_choice,
    parse_id_list, parse_max_sessions, parse_yes_no, print_noninteractive_guide, section_discord_guide,
    selected_ids, text_channels, ServerChannel,
};

#[test]
fn answers_fall_back_to_the_default() {
    assert_eq!(answer_or(" x \n", "d"), "x");
    assert_eq!(answer_or(" \n", "d"), "d");
    assert_eq!(parse_max_sessions("12"), 12);
    assert_eq!(parse_max_sessions("many"), 10);
}

#[test]
fn yes_and_no_are_read() {
    assert_eq!(parse_yes_no("\n", true), Some(true));
    assert_eq!(parse_yes_no(" YES\n", false), Some(true));
    assert_eq!(parse_yes_no("n", true), Some(false));
    assert_eq!(parse_yes_no("maybe", true), None);
}

#[test]
fn numbers_count_from_one() {
    assert_eq!(parse_choice("2\n", 3), Some(1));
    assert_eq!(parse_choice("0", 3), None);
    assert_eq!(parse_choice("4", 3), None);
    assert_eq!(parse_checklist("", 3), vec![0, 1, 2]);
    assert_eq!(parse_checklist("3, x, 1,9", 3), vec![2, 0]);
    assert_eq!(parse_id_list(" 1, ,2 ,"), vec!["1", "2"]);
}

#[test]
fn text_channels_are_chosen_by_number() {
    let channel = |id: &str, kind: u8| ServerChannel {
        id: id.into(),
        kind,
        name: id.into(),
    };
    let channels = text_channels(vec![channel("a", 0), channel("v", 2), channel("b", 0)]);
    assert_eq!(channels.len(), 2);
    assert_eq!(selected_ids(&channels, &vec![1]), vec!["b"]);
}

#[test]
fn agents_work_in_their_place() {
    assert_eq!(default_dir(true, "kiro"), ".");
    assert_eq!(default_dir(false, "kiro"), "/home/agent");
    assert_eq!(default_dir(false, "codex"), "/home/node");
}

#[test]
fn boxes_are_sixty_columns_or_more() {
    let text = draw_box(&vec!["hi"]);
    let lines: Vec<&str> = text.lines().collect();
    assert_eq!(lines[1], format!("\u{1b}[36m╔{}╗\u{1b}[0m", "═".repeat(62)));
    assert_eq!(
        lines[2],
        format!("\u{1b}[36m║\u{1b}[0m hi{} \u{1b}[36m║", " ".repeat(58))
    );
    assert!(section_discord_guide().contains("3. Bot -> Reset Token -> COPY the token"));
    assert!(print_noninteractive_guide().contains("session_ttl_hours = 24"));
}

#[test]
fn wide_lines_widen_the_box() {
    let line: &'static str = "日本語日本語日本語日本語日本語日本語日本語日本語日本語日本語日本語";
    let text = draw_box(&vec![line]);
    assert!(text.lines().nth(1).unwrap().contains(&"═".repeat(68)));
    assert!(!text.lines().nth(1).unwrap().contains(&"═".repeat(69)));
}

#[test]
fn next_steps_depend_on_the_agent() {
    let local = next_steps("codex", "config.toml", true);
    assert!(local.contains("codex login --device-auth"));
    assert!(local.contains("cargo run -- run config.toml"));
    assert!(agent_guide().contains("gemini:  npm install -g @google/gemini-cli"));
    let cluster = next_steps("kiro", "config.toml", false);
    assert!(cluster.contains("--set agents.kiro.discord.botToken"));
    assert!(cluster.contains("deployment/openab-kiro"));
}
