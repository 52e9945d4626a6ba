//! What is decided when the broker starts: where its configuration comes from,
//! which parts of it run, and whom the Discord bot answers.

use vstd::prelude::*;
use std::collections::HashSet;
use crate::config::{
    resolve_allow_all, setting_view, text_view, Config, CronConfig, DiscordConfig, GatewayConfig,
    HookConfig, SttConfig,
};
use crate::discord_gate::Gate;
use crate::gateway::GatewayParams;
use crate::patterns::{expand_env_vars, with_variables};
use crate::pool::{below, path_below};
use crate::table::Table;
use crate::text::{
    append_decimal, begins, contains, decimal, occurs, parse_u64, starts_with, unsigned, views,
};

verus! {

/// Where the configuration comes from.
#[derive(Debug, Clone, Copy, PartialEq, Eq, Structural)]
pub enum ConfigOrigin {
    Https,
    /// Not encrypted, and so worth a warning.
    Http,
    File,
}

/// The place that an argument names; without one, a file in the working directory.
pub open spec fn source_of(arg: Option<Seq<char>>) -> Seq<char> {
    match arg {
        Some(s) => s,
        None => "config.toml"@,
    }
}

/// Where a configuration is to be read from.
pub open spec fn origin_of(source: Seq<char>) -> ConfigOrigin {
    if begins(source, "https://"@) {
        ConfigOrigin::Https
    } else if begins(source, "http://"@) {
        ConfigOrigin::Http
    } else {
        ConfigOrigin::File
    }
}

pub fn config_source(arg: Option<String>) -> (r: String)
    ensures
        r@ == source_of(text_view(arg)),
{
    match arg {
        Some(s) => s,
        None => "config.toml".to_owned(),
    }
}

pub fn config_origin(source: &str) -> (r: ConfigOrigin)
    ensures
        r == origin_of(source@),
{
    if starts_with(source, "https://") {
        ConfigOrigin::Https
    } else if starts_with(source, "http://") {
        ConfigOrigin::Http
    } else {
        ConfigOrigin::File
    }
}

/// What is wrong with bytes that are no UTF-8.
pub uninterp spec fn utf8_error(bytes: Seq<u8>) -> Seq<char>;

/// `String::from_utf8`: the text of which the bytes are the UTF-8, if they are that
/// of any. What is said of others depends on the bytes alone.
#[verifier::external_body]
fn from_utf8(bytes: Vec<u8>) -> (r: Result<String, String>)
    ensures
        match r {
            Ok(s) => vstd::utf8::valid_utf8(bytes@) && vstd::utf8::encode_utf8(s@) == bytes@,
            Err(e) => !vstd::utf8::valid_utf8(bytes@) && e@ == utf8_error(bytes@),
        },
{
    String::from_utf8(bytes).map_err(|e| e.to_string())
}

/// The largest configuration that is fetched, in bytes.
pub const MAX_CONFIG_BYTES: usize = 1_048_576;

/// Why a configuration that was fetched cannot be used, if it cannot.
pub open spec fn remote_error(url: Seq<char>, bytes: Seq<u8>) -> Option<Seq<char>> {
    if bytes.len() > MAX_CONFIG_BYTES {
        Some(
            "remote config from "@ + url + " exceeds 1 MiB limit ("@ + decimal(bytes.len())
                + " bytes)"@,
        )
    } else if !vstd::utf8::valid_utf8(bytes) {
        Some("remote config from "@ + url + " is not valid UTF-8: "@ + utf8_error(bytes))
    } else {
        None
    }
}

/// Reads a configuration that was fetched, with the variables of the environment
/// put in.
pub fn load_config_raw_from_url(url: &str, body: Vec<u8>, vars: &Table<String>) -> (r: Result<
    String,
    String,
>)
    ensures
        match r {
            Err(e) => remote_error(url@, body@) == Some(e@),
            Ok(expanded) => remote_error(url@, body@) is None && exists|raw: Seq<char>|
                vstd::utf8::encode_utf8(raw) == body@ && expanded@ == #[trigger] with_variables(
                    raw,
                    vars@,
                ),
        },
{
    if body.len() > MAX_CONFIG_BYTES {
        let mut out = "remote config from ".to_owned();
        out.append(url);
        out.append(" exceeds 1 MiB limit (");
        append_decimal(&mut out, body.len() as u64);
        out.append(" bytes)");
        return Err(out);
    }
    match from_utf8(body) {
        Ok(raw) => {
            let expanded = expand_env_vars(raw.as_str(), vars);
            assert(expanded@ == with_variables(raw@, vars@));
            Ok(expanded)
        },
        Err(e) => {
            let mut out = "remote config from ".to_owned();
            out.append(url);
            out.append(" is not valid UTF-8: ");
            out.append(e.as_str());
            Err(out)
        },
    }
}

/// What is said where a configuration cannot be fetched.
pub fn remote_status_error(url: &str, status: &str) -> (r: String)
    ensures
        r@ == "remote config request to "@ + url@ + " returned HTTP "@ + status@,
{
    let mut out = "remote config request to ".to_owned();
    out.append(url);
    out.append(" returned HTTP ");
    out.append(status);
    out
}

/// Checks that there is a platform to run on.
pub fn check_adapters(config: &Config) -> (r: Result<(), String>)
    ensures
        match r {
            Ok(()) => config.discord is Some || config.slack is Some || config.gateway is Some,
            Err(e) => config.discord is None && config.slack is None && config.gateway is None
                && e@
                == "no adapter configured — add [discord], [slack], and/or [gateway] to config.toml"@,
        },
{
    if config.discord.is_none() && config.slack.is_none() && config.gateway.is_none() {
        Err(
            "no adapter configured — add [discord], [slack], and/or [gateway] to config.toml".to_owned(),
        )
    } else {
        Ok(())
    }
}

/// How many sources of its script a hook names.
pub open spec fn hook_sources(hook: HookConfig) -> int {
    (if hook.script is Some {
        1int
    } else {
        0
    }) + (if hook.inline is Some {
        1int
    } else {
        0
    }) + (if hook.url is Some {
        1int
    } else {
        0
    })
}

/// Checks that a hook has exactly one script: a file, a text, or one to fetch.
pub fn validate_hook(label: &str, hook: &HookConfig) -> (r: Result<(), String>)
    ensures
        match r {
            Ok(()) => hook_sources(*hook) == 1,
            Err(e) => hook_sources(*hook) != 1 && e@ == "hooks."@ + label@
                + ": exactly one of script, inline, or url must be set"@,
        },
{
    let (script, inline, url) = (
        hook.script.is_some(),
        hook.inline.is_some(),
        hook.url.is_some(),
    );
    if (script && !inline && !url) || (!script && inline && !url) || (!script && !inline && url) {
        return Ok(());
    }
    let mut e = "hooks.".to_owned();
    e.append(label);
    e.append(": exactly one of script, inline, or url must be set");
    Err(e)
}

/// Checks that a script to fetch comes with its checksum.
pub fn validate_checksum(label: &str, hook: &HookConfig) -> (r: Result<(), String>)
    ensures
        match r {
            Ok(()) => hook.url is Some ==> hook.sha256 is Some,
            Err(e) => hook.url is Some && hook.sha256 is None && e@ == "hooks."@ + label@
                + ": sha256 is required with url"@,
        },
{
    if hook.url.is_none() || hook.sha256.is_some() {
        return Ok(());
    }
    let mut e = "hooks.".to_owned();
    e.append(label);
    e.append(": sha256 is required with url");
    Err(e)
}

/// The key for speech recognition: the one that is set, or, at one provider, the
/// one of the environment.
pub open spec fn stt_key(stt: SttConfig, groq_key: Option<Seq<char>>) -> Seq<char> {
    if stt.api_key@.len() == 0 && occurs(stt.base_url@, "groq.com"@) && groq_key is Some {
        groq_key->0
    } else {
        stt.api_key@
    }
}

/// Settles the key for speech recognition. There must be one, if it is enabled.
pub fn resolve_stt(stt: &mut SttConfig, groq_key: Option<&str>) -> (r: Result<(), String>)
    ensures
        final(stt).enabled == old(stt).enabled,
        final(stt).model == old(stt).model,
        final(stt).base_url == old(stt).base_url,
        final(stt).echo_transcript == old(stt).echo_transcript,
        final(stt).api_key@ == (if old(stt).enabled {
            stt_key(*old(stt), setting_view(groq_key))
        } else {
            old(stt).api_key@
        }),
        match r {
            Ok(()) => !old(stt).enabled || stt_key(*old(stt), setting_view(groq_key)).len() > 0,
            Err(e) => old(stt).enabled && stt_key(*old(stt), setting_view(groq_key)).len() == 0
                && e@
                == "stt.enabled = true but no API key found — set stt.api_key in config or export GROQ_API_KEY"@,
        },
{
    if !stt.enabled {
        return Ok(());
    }
    if stt.api_key.as_str().unicode_len() == 0 && contains(stt.base_url.as_str(), "groq.com") {
        if let Some(key) = groq_key {
            stt.api_key = key.to_owned();
        }
    }
    if stt.api_key.as_str().unicode_len() == 0 {
        return Err(
            "stt.enabled = true but no API key found — set stt.api_key in config or export GROQ_API_KEY".to_owned(),
        );
    }
    Ok(())
}

/// The platforms that scheduled jobs can run on.
pub open spec fn platforms(discord: bool, slack: bool) -> Seq<Seq<char>> {
    (if discord {
        seq!["discord"@]
    } else {
        Seq::<Seq<char>>::empty()
    }) + (if slack {
        seq!["slack"@]
    } else {
        Seq::<Seq<char>>::empty()
    })
}

pub fn configured_platforms(config: &Config) -> (r: Vec<&'static str>)
    ensures
        r@.map_values(|s: &'static str| s@) == platforms(
            config.discord is Some,
            config.slack is Some,
        ),
{
    let mut out: Vec<&'static str> = Vec::new();
    if config.discord.is_some() {
        out.push("discord");
    }
    if config.slack.is_some() {
        out.push("slack");
    }
    assert(out@.map_values(|s: &'static str| s@) =~= platforms(
        config.discord is Some,
        config.slack is Some,
    ));
    out
}

/// A file of the broker's own, below the home directory.
pub open spec fn own_file(home: Option<Seq<char>>, name: Seq<char>) -> Seq<char> {
    below(
        below(
            match home {
                Some(h) => h,
                None => Seq::empty(),
            },
            ".openab"@,
        ),
        name,
    )
}

pub fn own_path(home: Option<&str>, name: &str) -> (r: String)
    ensures
        r@ == own_file(setting_view(home), name@),
{
    let base = match home {
        Some(h) => path_below(h, ".openab"),
        None => {
            let nothing = String::new();
            assert(nothing@ =~= Seq::<char>::empty());
            path_below(nothing.as_str(), ".openab")
        },
    };
    path_below(base.as_str(), name)
}

/// The user's file of jobs, if it is used: a relative path starts in the broker's
/// own directory.
pub open spec fn job_file(cron: CronConfig, home: Option<Seq<char>>) -> Option<Seq<char>> {
    if !cron.usercron_enabled || cron.usercron_path is None {
        None
    } else if begins(cron.usercron_path->0@, "/"@) {
        Some(cron.usercron_path->0@)
    } else {
        Some(own_file(home, cron.usercron_path->0@))
    }
}

pub fn usercron_path(cron: &CronConfig, home: Option<&str>) -> (r: Option<String>)
    ensures
        text_view(r) == job_file(*cron, setting_view(home)),
{
    if !cron.usercron_enabled {
        return None;
    }
    match &cron.usercron_path {
        None => None,
        Some(path) => {
            if starts_with(path.as_str(), "/") {
                Some(path.clone())
            } else {
                Some(own_path(home, path.as_str()))
            }
        },
    }
}

/// Whether parameters are those that a configuration asks for. Where nothing is
/// said on it, all channels or users are allowed if none is listed.
pub open spec fn are_params_of(config: GatewayConfig, p: GatewayParams) -> bool {
    &&& p.url == config.url
    &&& p.platform == config.platform
    &&& p.token == config.token
    &&& p.bot_username == config.bot_username
    &&& p.allow_all_channels == (match config.allow_all_channels {
        Some(b) => b,
        None => config.allowed_channels@.len() == 0,
    })
    &&& p.allowed_channels == config.allowed_channels
    &&& p.allow_all_users == (match config.allow_all_users {
        Some(b) => b,
        None => config.allowed_users@.len() == 0,
    })
    &&& p.allowed_users == config.allowed_users
    &&& p.streaming == config.streaming
}

/// What the gateway's adapter goes by.
pub fn gateway_params(config: GatewayConfig, stt: SttConfig) -> (r: GatewayParams)
    ensures
        are_params_of(config, r),
        r.stt == stt,
{
    let allow_all_channels = resolve_allow_all(
        config.allow_all_channels,
        config.allowed_channels.as_slice(),
    );
    let allow_all_users = resolve_allow_all(config.allow_all_users, config.allowed_users.as_slice());
    GatewayParams {
        url: config.url,
        platform: config.platform,
        token: config.token,
        bot_username: config.bot_username,
        allow_all_channels,
        allowed_channels: config.allowed_channels,
        allow_all_users,
        allowed_users: config.allowed_users,
        streaming: config.streaming,
        stt,
    }
}

// ---------------------------------------------------------------------------
// Ids
// ---------------------------------------------------------------------------

/// The ids in a list of texts; what is no number is left out.
pub open spec fn ids_in(raw: Seq<Seq<char>>) -> Set<u64> {
    Set::new(
        |id: u64|
            exists|i: int|
                0 <= i < raw.len() && #[trigger] unsigned(raw[i], u64::MAX as nat) == Some(
                    id as nat,
                ),
    )
}

/// Reads a list of ids. A list in which no text is an id is refused: it would
/// let nobody in.
pub fn parse_id_set(raw: &Vec<String>, label: &str) -> (r: Result<HashSet<u64>, String>)
    ensures
        match r {
            Ok(ids) => ids@ == ids_in(views(raw@)) && (raw@.len() > 0 ==> ids_in(views(raw@))
                != Set::<u64>::empty()),
            Err(e) => {
                &&& raw@.len() > 0
                &&& ids_in(views(raw@)) == Set::<u64>::empty()
                &&& e@ == "all "@ + label@
                    + " entries failed to parse — refusing to start with an empty allowlist"@
            },
        },
{
    broadcast use vstd::std_specs::hash::group_hash_axioms;

    let ghost texts = views(raw@);
    let mut ids: HashSet<u64> = HashSet::new();
    let mut any = false;
    let mut i: usize = 0;
    assert(ids@ =~= ids_in(texts.take(0)));
    while i < raw.len()
        invariant
            i <= raw@.len(),
            texts == views(raw@),
            ids@ == ids_in(texts.take(i as int)),
            any <==> ids@ != Set::<u64>::empty(),
        decreases raw@.len() - i,
    {
        broadcast use vstd::std_specs::hash::group_hash_axioms;

        let ghost before = texts.take(i as int);
        let ghost after = texts.take(i + 1);
        let parsed = parse_u64(raw[i].as_str());
        assert(texts[i as int] == raw@[i as int]@);
        assert(after[i as int] == texts[i as int]);
        if let Some(id) = parsed {
            ids.insert(id);
            any = true;
            proof {
                assert(ids@.contains(id));
                assert forall|x: u64| ids_in(after).contains(x) == ids_in(before).insert(
                    id,
                ).contains(x) by {
                    if ids_in(before).contains(x) {
                        let k = choose|k: int|
                            0 <= k < before.len() && #[trigger] unsigned(
                                before[k],
                                u64::MAX as nat,
                            ) == Some(x as nat);
                        assert(after[k] == before[k]);
                    }
                    if x == id {
                        assert(unsigned(after[i as int], u64::MAX as nat) == Some(x as nat));
                    }
                    if ids_in(after).contains(x) && x != id {
                        let k = choose|k: int|
                            0 <= k < after.len() && #[trigger] unsigned(after[k], u64::MAX as nat)
                                == Some(x as nat);
                        assert(before[k] == after[k]);
                    }
                }
                assert(ids_in(after) =~= ids_in(before).insert(id));
            }
        } else {
            proof {
                assert forall|x: u64| ids_in(after).contains(x) == ids_in(before).contains(x) by {
                    if ids_in(before).contains(x) {
                        let k = choose|k: int|
                            0 <= k < before.len() && #[trigger] unsigned(
                                before[k],
                                u64::MAX as nat,
                            ) == Some(x as nat);
                        assert(after[k] == before[k]);
                    }
                    if ids_in(after).contains(x) {
                        let k = choose|k: int|
                            0 <= k < after.len() && #[trigger] unsigned(after[k], u64::MAX as nat)
                                == Some(x as nat);
                        assert(before[k] == after[k]);
                    }
                }
                assert(ids_in(after) =~= ids_in(before));
            }
        }
        i += 1;
    }
    assert(texts.take(texts.len() as int) =~= texts);
    if raw.len() > 0 && !any {
        let mut message = "all ".to_owned();
        message.append(label);
        message.append(" entries failed to parse — refusing to start with an empty allowlist");
        return Err(message);
    }
    Ok(ids)
}

/// Whether a list of ids is refused.
pub open spec fn refused_ids(raw: Seq<Seq<char>>) -> bool {
    raw.len() > 0 && ids_in(raw) == Set::<u64>::empty()
}

/// Whether a gate is the one that a configuration asks for. Where nothing is said
/// on it, all channels or users are allowed if none is listed.
pub open spec fn is_gate_of(config: DiscordConfig, bot_id: u64, g: Gate) -> bool {
    &&& g.bot_id == bot_id
    &&& g.allow_all_channels == (match config.allow_all_channels {
        Some(b) => b,
        None => config.allowed_channels@.len() == 0,
    })
    &&& g.allow_all_users == (match config.allow_all_users {
        Some(b) => b,
        None => config.allowed_users@.len() == 0,
    })
    &&& g.allowed_channels@ == ids_in(views(config.allowed_channels@))
    &&& g.allowed_users@ == ids_in(views(config.allowed_users@))
    &&& g.trusted_bot_ids@ == ids_in(views(config.trusted_bot_ids@))
    &&& g.allowed_role_ids@ == ids_in(views(config.allowed_role_ids@))
    &&& g.allow_bot_messages == config.allow_bot_messages
    &&& g.allow_user_messages == config.allow_user_messages
    &&& g.allow_dm == config.allow_dm
}

/// Whom and where the Discord bot answers, out of its configuration.
pub fn discord_gate(config: &DiscordConfig, bot_id: u64) -> (r: Result<Gate, String>)
    ensures
        match r {
            Ok(g) => {
                &&& is_gate_of(*config, bot_id, g)
                &&& !refused_ids(views(config.allowed_channels@))
                &&& !refused_ids(views(config.allowed_users@))
                &&& !refused_ids(views(config.trusted_bot_ids@))
                &&& !refused_ids(views(config.allowed_role_ids@))
            },
            Err(e) => e@ == "all "@ + (if refused_ids(views(config.allowed_channels@)) {
                "discord.allowed_channels"@
            } else if refused_ids(views(config.allowed_users@)) {
                "discord.allowed_users"@
            } else if refused_ids(views(config.trusted_bot_ids@)) {
                "discord.trusted_bot_ids"@
            } else {
                "discord.allowed_role_ids"@
            }) + " entries failed to parse — refusing to start with an empty allowlist"@ && (
            refused_ids(views(config.allowed_channels@)) || refused_ids(views(config.allowed_users@))
                || refused_ids(views(config.trusted_bot_ids@)) || refused_ids(
                views(config.allowed_role_ids@),
            )),
        },
{
    let allow_all_channels = resolve_allow_all(
        config.allow_all_channels,
        config.allowed_channels.as_slice(),
    );
    let allow_all_users = resolve_allow_all(config.allow_all_users, config.allowed_users.as_slice());
    let allowed_channels = match parse_id_set(&config.allowed_channels, "discord.allowed_channels") {
        Ok(ids) => ids,
        Err(e) => return Err(e),
    };
    let allowed_users = match parse_id_set(&config.allowed_users, "discord.allowed_users") {
        Ok(ids) => ids,
        Err(e) => return Err(e),
    };
    let trusted_bot_ids = match parse_id_set(&config.trusted_bot_ids, "discord.trusted_bot_ids") {
        Ok(ids) => ids,
        Err(e) => return Err(e),
    };
    let allowed_role_ids = match parse_id_set(&config.allowed_role_ids, "discord.allowed_role_ids") {
        Ok(ids) => ids,
        Err(e) => return Err(e),
    };
    Ok(
        Gate {
            bot_id,
            allow_all_channels,
            allow_all_users,
            allowed_channels,
            allowed_users,
            allow_bot_messages: config.allow_bot_messages,
            trusted_bot_ids,
            allow_user_messages: config.allow_user_messages,
            allowed_role_ids,
            allow_dm: config.allow_dm,
        },
    )
}

} // verus!
