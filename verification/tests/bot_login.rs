//! Team spaces: channels that are bound to them, and users that are let in.

use openab::bot_login::{
    check_role, check_user_id, load_channel_spaces, spaces_bytes, validate_discord_channel_id,
    validate_space_id, DiscordBotLoginClient, ProvisionStep,
};
use openab::table::Table;

fn client(spaces: Table<String>) -> DiscordBotLoginClient {
    DiscordBotLoginClient::new(
        " https://workspace.example.com/ ",
        "test-api-key".to_string(),
        "workspace_session=bot-cookie".to_string(),
        spaces,
    )
    .unwrap()
}

/// Lets a user into a channel's space, and counts the logins and the grants.
fn provision(
    client: &mut DiscordBotLoginClient,
    user: &str,
    channel: &str,
    logins: &mut usize,
    grants: &mut usize,
) -> Option<String> {
    let space = client.space_of(channel)?;
    loop {
        match client.provision_editor(user, &space) {
            ProvisionStep::Login { endpoint } => {
                assert_eq!(
                    endpoint,
                    "https://workspace.example.com/api/auth/discord/bot-login"
                );
                assert_eq!(client.api_key(), "test-api-key");
                *logins += 1;
                client.logged_in(user, "workspace-user-1".to_string());
            }
            ProvisionStep::Grant { endpoint, user_id } => {
                assert_eq!(
                    endpoint,
                    "https://workspace.example.com/api/team-spaces/space-1/members/workspace-user-1"
                );
                assert_eq!(client.bot_cookie(), "workspace_session=bot-cookie");
                *grants += 1;
                client.granted(&space, &user_id);
            }
            ProvisionStep::Done => return Some(space),
        }
    }
}

#[test]
fn provisions_editor_and_caches_user_id_and_membership() {
    let mut spaces = Table::new();
    spaces.insert("1234567890".to_string(), "space-1".to_string());
    let mut client = client(spaces);
    let (mut logins, mut grants) = (0, 0);
    assert_eq!(
        provision(&mut client, "123456789", "1234567890", &mut logins, &mut grants).as_deref(),
        Some("space-1")
    );
    provision(&mut client, "123456789", "1234567890", &mut logins, &mut grants);
    assert_eq!((logins, grants), (1, 1));
    assert_eq!(
        provision(&mut client, "123456789", "unmapped", &mut logins, &mut grants),
        None
    );
    assert_eq!(
        provision(&mut client, "unmapped-user", "unmapped", &mut logins, &mut grants),
        None
    );
    assert_eq!((logins, grants), (1, 1));
    assert!(matches!(
        client.provision_editor("unmapped-user", "space-1"),
        ProvisionStep::Login { .. }
    ));
}

#[test]
fn init_creates_and_persists_only_once() {
    let mut client = client(Table::new());
    let (endpoint, name) = client.init_channel_space("1234567890", " general ").unwrap().unwrap();
    assert_eq!(endpoint, "https://workspace.example.com/api/team-spaces");
    assert_eq!(name, "general");
    let updated = client.bind_channel_space("1234567890", "created-space").unwrap();
    client.adopt(updated);
    assert_eq!(client.init_channel_space("1234567890", "general"), Ok(None));
    assert_eq!(client.space_of("1234567890").as_deref(), Some("created-space"));
}

#[test]
fn binds_channel_space_persists_and_reloads() {
    let mut client = client(Table::new());
    for space in ["space-1", "space-2"] {
        let updated = client.bind_channel_space("1234567890", space).unwrap();
        client.adopt(updated);
    }
    let updated = client.bind_channel_space("42", "space-3").unwrap();
    let bytes = spaces_bytes(&updated);
    let reloaded = load_channel_spaces(&bytes, "channel_space.json").unwrap();
    assert_eq!(reloaded.len(), 2);
    assert_eq!(reloaded.get("1234567890").map(String::as_str), Some("space-2"));
    assert_eq!(reloaded.get("42").map(String::as_str), Some("space-3"));
}

#[test]
fn rejects_invalid_binding_without_changing_file() {
    let client = client(Table::new());
    assert!(client.bind_channel_space("1234567890", "bad/space").is_err());
    assert!(client.space_of("1234567890").is_none());
}

#[test]
fn ids_are_checked() {
    assert!(validate_discord_channel_id("1234567890").is_ok());
    for bad in ["", "0", "012", "12a", "１２", "123456789012345678901"] {
        assert_eq!(
            validate_discord_channel_id(bad).unwrap_err(),
            "Discord channel ID must be numeric"
        );
    }
    assert!(validate_space_id("space-1").is_ok());
    for bad in ["", "  ", "a/b", "a?b", "a#b"] {
        assert!(validate_space_id(bad).is_err());
        assert!(check_user_id(bad.to_string()).is_err());
    }
    assert!(check_role("editor").is_ok());
    assert!(check_role("viewer").is_err());
}

#[test]
fn a_client_needs_an_address_and_its_secrets() {
    let make = |host: &str, key: &str, cookie: &str| {
        DiscordBotLoginClient::new(host, key.to_string(), cookie.to_string(), Table::new())
            .map(|_| ())
    };
    assert_eq!(
        make("ftp://x", "k", "c").unwrap_err(),
        "univer_workspace.host must start with http:// or https://"
    );
    assert_eq!(
        make("http://x", " ", "c").unwrap_err(),
        "univer_workspace.api_key must not be empty"
    );
    assert_eq!(
        make("http://x", "k", "").unwrap_err(),
        "univer_workspace.bot_cookie must not be empty"
    );
}

#[test]
fn saved_spaces_are_checked() {
    let load = |text: &str| load_channel_spaces(text.as_bytes(), "f.json").map(|t| t.len());
    assert_eq!(load("{}"), Ok(0));
    assert_eq!(load("{").unwrap_err(), "f.json is not valid JSON");
    assert_eq!(load("[1]").unwrap_err(), "f.json is not valid JSON");
    assert_eq!(load("{\"1\": 2}").unwrap_err(), "f.json is not valid JSON");
    assert_eq!(load("{\"x\": \"s\"}").unwrap_err(), "invalid Discord channel ID in f.json");
    assert_eq!(load("{\"1\": \"a/b\"}").unwrap_err(), "invalid Workspace Space ID in f.json");
}
