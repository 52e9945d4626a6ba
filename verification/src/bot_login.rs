//! Team spaces of a workspace: which space a Discord channel belongs to, and which
//! users have been let into it.

use vstd::prelude::*;
use crate::json::{mapping_bytes, mapping_read, text_map, text_mapping};
use crate::table::{distinct, Table};
use crate::text::{
    begins, blank, is_blank, is_digit, only, same, starts_with, to_chars, trim, trim_end_of,
    trimmed, without_back,
};
use crate::validate::{contains_char, has_char};

verus! {

// ---------------------------------------------------------------------------
// Ids
// ---------------------------------------------------------------------------

/// Whether a text is the id of a Discord channel: a number of at most twenty
/// digits that does not begin with a zero.
pub open spec fn is_channel_id(s: Seq<char>) -> bool {
    &&& 0 < s.len() <= 20
    &&& s[0] != '0'
    &&& forall|i: int| 0 <= i < s.len() ==> is_digit(#[trigger] s[i])
}

pub fn validate_discord_channel_id(discord_channel_id: &str) -> (r: Result<(), String>)
    ensures
        match r {
            Ok(()) => is_channel_id(discord_channel_id@),
            Err(e) => !is_channel_id(discord_channel_id@) && e@
                == "Discord channel ID must be numeric"@,
        },
{
    let v = to_chars(discord_channel_id);
    let mut ok = v.len() > 0 && v.len() <= 20 && v[0] != '0';
    let mut i: usize = 0;
    while i < v.len() && ok
        invariant
            i <= v@.len(),
            v@ == discord_channel_id@,
            ok ==> 0 < v@.len() <= 20 && v@[0] != '0' && forall|k: int|
                0 <= k < i ==> is_digit(#[trigger] v@[k]),
            !ok ==> !is_channel_id(v@),
        decreases v@.len() - i,
    {
        if !crate::text::ascii_digit(v[i]) {
            ok = false;
        }
        i += 1;
    }
    if ok {
        Ok(())
    } else {
        Err("Discord channel ID must be numeric".to_owned())
    }
}

/// Whether a text can stand in an address as one part of a path.
pub open spec fn is_path_segment(s: Seq<char>) -> bool {
    !blank(s) && !has_char(s, '/') && !has_char(s, '?') && !has_char(s, '#')
}

fn path_segment(s: &str) -> (r: bool)
    ensures
        r == is_path_segment(s@),
{
    !is_blank(s) && !contains_char(s, '/') && !contains_char(s, '?') && !contains_char(s, '#')
}

pub fn validate_space_id(space_id: &str) -> (r: Result<(), String>)
    ensures
        match r {
            Ok(()) => is_path_segment(space_id@),
            Err(e) => !is_path_segment(space_id@) && e@
                == "Workspace Space ID must be a non-empty URL path segment"@,
        },
{
    if path_segment(space_id) {
        Ok(())
    } else {
        Err("Workspace Space ID must be a non-empty URL path segment".to_owned())
    }
}

/// Checks the user that a login gave.
pub fn check_user_id(user_id: String) -> (r: Result<String, String>)
    ensures
        match r {
            Ok(id) => is_path_segment(user_id@) && id == user_id,
            Err(e) => !is_path_segment(user_id@) && e@
                == "Discord bot login response user.id must be a non-empty URL path segment"@,
        },
{
    if path_segment(user_id.as_str()) {
        Ok(user_id)
    } else {
        Err(
            "Discord bot login response user.id must be a non-empty URL path segment".to_owned(),
        )
    }
}

/// Checks the role that a grant gave.
pub fn check_role(role: &str) -> (r: Result<(), String>)
    ensures
        match r {
            Ok(()) => role@ == "editor"@,
            Err(e) => role@ != "editor"@ && e@ == "Workspace Team Space member role was not editor"@,
        },
{
    if same(role, "editor") {
        Ok(())
    } else {
        Err("Workspace Team Space member role was not editor".to_owned())
    }
}

// ---------------------------------------------------------------------------
// The spaces of channels
// ---------------------------------------------------------------------------

/// Whether spaces are those there were, with a channel bound to one.
pub open spec fn is_bound(
    spaces: Map<Seq<char>, String>,
    channel: Seq<char>,
    space: Seq<char>,
    updated: Map<Seq<char>, String>,
) -> bool {
    &&& updated.dom() == spaces.dom().insert(channel)
    &&& updated[channel]@ == space
    &&& forall|k: Seq<char>| #[trigger]
        spaces.contains_key(k) && k != channel ==> updated[k] == spaces[k]
}

/// Whether all channels and spaces of a mapping are valid.
pub open spec fn valid_spaces(m: Map<Seq<char>, String>) -> bool {
    forall|k: Seq<char>| #[trigger] m.contains_key(k) ==> is_channel_id(k) && is_path_segment(m[k]@)
}

fn in_path(head: &str, path: &str) -> (r: String)
    ensures
        r@ == head@ + path@,
{
    let mut out = head.to_owned();
    out.append(path);
    out
}

/// Reads the saved spaces of channels. The path is for what is said of a file that
/// is not valid.
pub fn load_channel_spaces(data: &[u8], path: &str) -> (r: Result<Table<String>, String>)
    ensures
        match r {
            Ok(t) => mapping_read(data@) == Some(text_map(t@)) && valid_spaces(t@),
            Err(e) => {
                ||| e@ == path@ + " is not valid JSON"@ && mapping_read(data@) is None
                ||| e@ == "invalid Discord channel ID in "@ + path@ && (mapping_read(
                    data@,
                ) matches Some(m) && exists|k: Seq<char>| #[trigger]
                    m.contains_key(k) && !is_channel_id(k))
                ||| e@ == "invalid Workspace Space ID in "@ + path@ && (mapping_read(
                    data@,
                ) matches Some(m) && exists|k: Seq<char>| #[trigger]
                    m.contains_key(k) && !is_path_segment(m[k]))
            },
        },
{
    let table = match text_mapping(data) {
        Some(t) => t,
        None => return Err(in_path(path, " is not valid JSON")),
    };
    let ghost texts = text_map(table@);
    let n = table.len();
    let mut i: usize = 0;
    while i < n
        invariant
            i <= n,
            n == table.rows().len(),
            distinct(table.rows()),
            texts == text_map(table@),
            mapping_read(data@) == Some(texts),
            forall|a: int|
                0 <= a < i ==> is_channel_id((#[trigger] table.rows()[a]).0@) && is_path_segment(
                    table.rows()[a].1@,
                ),
        decreases n - i,
    {
        let key = table.key_at(i);
        let space = table.value_at(i);
        assert(table@.contains_key(key@));
        assert(texts.contains_key(key@));
        assert(texts[key@] == space@);
        if validate_discord_channel_id(key).is_err() {
            assert(mapping_read(data@)->0.contains_key(key@) && !is_channel_id(key@));
            return Err(in_path("invalid Discord channel ID in ", path));
        }
        if validate_space_id(space.as_str()).is_err() {
            assert(mapping_read(data@)->0.contains_key(key@) && !is_path_segment(texts[key@]));
            return Err(in_path("invalid Workspace Space ID in ", path));
        }
        i += 1;
    }
    proof {
        table.lemma_rows();
        assert forall|k: Seq<char>| #[trigger] table@.contains_key(k) implies is_channel_id(k)
            && is_path_segment(table@[k]@) by {
            let a = choose|a: int|
                0 <= a < table.rows().len() && #[trigger] table.rows()[a].0@ == k;
            assert(table@[table.rows()[a].0@] == table.rows()[a].1);
        }
    }
    Ok(table)
}

/// The bytes in which the spaces of channels are saved.
pub fn spaces_bytes(spaces: &Table<String>) -> (r: Vec<u8>)
    ensures
        mapping_read(r@) == Some(text_map(spaces@)),
{
    mapping_bytes(spaces)
}

/// What was saved reads back as it was: what loads from the bytes is the mapping that
/// was saved, and where all of that was valid, nothing in the bytes is not.
pub proof fn saved_spaces_read_back(
    bytes: Seq<u8>,
    saved: Map<Seq<char>, String>,
    loaded: Map<Seq<char>, String>,
)
    requires
        mapping_read(bytes) == Some(text_map(saved)),
    ensures
        mapping_read(bytes) == Some(text_map(loaded)) ==> loaded.dom() == saved.dom() && forall|
            k: Seq<char>,
        | #[trigger]
            loaded.contains_key(k) ==> loaded[k]@ == saved[k]@,
        valid_spaces(saved) ==> forall|k: Seq<char>| #[trigger]
            mapping_read(bytes)->0.contains_key(k) ==> is_channel_id(k) && is_path_segment(
                mapping_read(bytes)->0[k],
            ),
{
    if mapping_read(bytes) == Some(text_map(loaded)) {
        crate::json::mappings_read_back(bytes, saved, loaded);
    }
    let texts = text_map(saved);
    assert(texts.dom() =~= saved.dom());
    if valid_spaces(saved) {
        assert forall|k: Seq<char>| #[trigger] texts.contains_key(k) implies is_channel_id(k)
            && is_path_segment(texts[k]) by {
            assert(saved.contains_key(k));
        }
    }
}

// ---------------------------------------------------------------------------
// Letting users in
// ---------------------------------------------------------------------------

/// What is done next to let a user into a space.
#[derive(Debug)]
pub enum ProvisionStep {
    /// Log in at this address to learn the user's id.
    Login { endpoint: String },
    /// Make this user an editor, at this address.
    Grant { endpoint: String, user_id: String },
    /// The user is in.
    Done,
}

/// What is done next to let a user into a space.
pub enum ProvisionView {
    Login { endpoint: Seq<char> },
    Grant { endpoint: Seq<char>, user_id: Seq<char> },
    Done,
}

impl View for ProvisionStep {
    type V = ProvisionView;

    open spec fn view(&self) -> ProvisionView {
        match *self {
            ProvisionStep::Login { endpoint } => ProvisionView::Login { endpoint: endpoint@ },
            ProvisionStep::Grant { endpoint, user_id } => ProvisionView::Grant {
                endpoint: endpoint@,
                user_id: user_id@,
            },
            ProvisionStep::Done => ProvisionView::Done,
        }
    }
}

/// The workspace, the spaces of channels, and what is known of users. What it
/// needs to call the workspace stays in it, and cannot be printed.
pub struct DiscordBotLoginClient {
    base_url: String,
    api_key: String,
    bot_cookie: String,
    channel_spaces: Table<String>,
    user_ids: Table<String>,
    editor_memberships: Vec<(String, String)>,
}

/// What a client knows.
pub struct ClientView {
    pub base_url: Seq<char>,
    pub api_key: Seq<char>,
    pub bot_cookie: Seq<char>,
    /// The space of each channel.
    pub spaces: Map<Seq<char>, String>,
    /// The workspace user of each Discord user.
    pub users: Map<Seq<char>, String>,
    /// The spaces that users have been let into.
    pub editors: Set<(Seq<char>, Seq<char>)>,
}

/// The pairs of a row.
pub open spec fn pair_set(row: Seq<(String, String)>) -> Set<(Seq<char>, Seq<char>)> {
    Set::new(
        |p: (Seq<char>, Seq<char>)|
            exists|i: int|
                0 <= i < row.len() && (#[trigger] row[i]).0@ == p.0 && row[i].1@ == p.1,
    )
}

impl View for DiscordBotLoginClient {
    type V = ClientView;

    closed spec fn view(&self) -> ClientView {
        ClientView {
            base_url: self.base_url@,
            api_key: self.api_key@,
            bot_cookie: self.bot_cookie@,
            spaces: self.channel_spaces@,
            users: self.user_ids@,
            editors: pair_set(self.editor_memberships@),
        }
    }
}

/// Whether a channel gets a space in this way: none where it has one, else a new
/// one that is named after it.
pub open spec fn is_space_plan(
    c: ClientView,
    channel: Seq<char>,
    name: Seq<char>,
    plan: Option<(String, String)>,
) -> bool {
    match plan {
        None => c.spaces.contains_key(channel),
        Some((endpoint, title)) => {
            &&& !c.spaces.contains_key(channel)
            &&& endpoint@ == c.base_url + "/api/team-spaces"@
            &&& title@ == trimmed(name)
        },
    }
}

/// What is done next to let a user into a space: learn who the user is, unless
/// that is known, and make that user an editor, unless that was done.
pub open spec fn next_provision(c: ClientView, user: Seq<char>, space: Seq<char>) -> ProvisionView {
    if !c.users.contains_key(user) {
        ProvisionView::Login { endpoint: c.base_url + "/api/auth/discord/bot-login"@ }
    } else if !c.editors.contains((space, c.users[user]@)) {
        ProvisionView::Grant {
            endpoint: c.base_url + "/api/team-spaces/"@ + space + "/members/"@ + c.users[user]@,
            user_id: c.users[user]@,
        }
    } else {
        ProvisionView::Done
    }
}

impl ClientView {
    /// What is known once a user has logged in.
    pub open spec fn after_login(self, user: Seq<char>, id: String) -> ClientView {
        ClientView { users: self.users.insert(user, id), ..self }
    }

    /// What is known once a user has been let in.
    pub open spec fn after_grant(self, space: Seq<char>, id: Seq<char>) -> ClientView {
        ClientView { editors: self.editors.insert((space, id)), ..self }
    }
}

/// Why a workspace cannot be used, if it cannot.
pub open spec fn client_error(host: Seq<char>, api_key: Seq<char>, bot_cookie: Seq<char>) -> Option<
    Seq<char>,
> {
    let url = without_back(trimmed(host), only('/'));
    if !begins(url, "http://"@) && !begins(url, "https://"@) {
        Some("univer_workspace.host must start with http:// or https://"@)
    } else if blank(api_key) {
        Some("univer_workspace.api_key must not be empty"@)
    } else if blank(bot_cookie) {
        Some("univer_workspace.bot_cookie must not be empty"@)
    } else {
        None
    }
}

impl DiscordBotLoginClient {
    /// A client that knows the saved spaces, and no user yet.
    pub fn new(host: &str, api_key: String, bot_cookie: String, channel_spaces: Table<String>) -> (r:
        Result<Self, String>)
        ensures
            match r {
                Ok(c) => {
                    &&& client_error(host@, api_key@, bot_cookie@) is None
                    &&& c@.base_url == without_back(trimmed(host@), only('/'))
                    &&& c@.api_key == api_key@
                    &&& c@.bot_cookie == bot_cookie@
                    &&& c@.spaces == channel_spaces@
                    &&& c@.users == Map::<Seq<char>, String>::empty()
                    &&& c@.editors == Set::<(Seq<char>, Seq<char>)>::empty()
                },
                Err(e) => client_error(host@, api_key@, bot_cookie@) == Some(e@),
            },
    {
        let url = trim_end_of(trim(host), '/');
        if !starts_with(url, "http://") && !starts_with(url, "https://") {
            return Err("univer_workspace.host must start with http:// or https://".to_owned());
        }
        if is_blank(api_key.as_str()) {
            return Err("univer_workspace.api_key must not be empty".to_owned());
        }
        if is_blank(bot_cookie.as_str()) {
            return Err("univer_workspace.bot_cookie must not be empty".to_owned());
        }
        let r = DiscordBotLoginClient {
            base_url: url.to_owned(),
            api_key,
            bot_cookie,
            channel_spaces,
            user_ids: Table::new(),
            editor_memberships: Vec::new(),
        };
        assert(r@.editors =~= Set::<(Seq<char>, Seq<char>)>::empty());
        Ok(r)
    }

    pub fn api_key(&self) -> (r: &str)
        ensures
            r@ == self@.api_key,
    {
        self.api_key.as_str()
    }

    pub fn bot_cookie(&self) -> (r: &str)
        ensures
            r@ == self@.bot_cookie,
    {
        self.bot_cookie.as_str()
    }

    /// The space of a channel.
    pub fn space_of(&self, discord_channel_id: &str) -> (r: Option<String>)
        ensures
            match r {
                Some(s) => self@.spaces.contains_key(discord_channel_id@) && s
                    == self@.spaces[discord_channel_id@],
                None => !self@.spaces.contains_key(discord_channel_id@),
            },
    {
        match self.channel_spaces.get(discord_channel_id) {
            Some(s) => Some(s.clone()),
            None => None,
        }
    }

    fn is_editor(&self, space_id: &str, user_id: &str) -> (r: bool)
        ensures
            r == self@.editors.contains((space_id@, user_id@)),
    {
        let mut i: usize = 0;
        while i < self.editor_memberships.len()
            invariant
                i <= self.editor_memberships@.len(),
                forall|k: int|
                    0 <= k < i ==> !((#[trigger] self.editor_memberships@[k]).0@ == space_id@
                        && self.editor_memberships@[k].1@ == user_id@),
            decreases self.editor_memberships@.len() - i,
        {
            let m = &self.editor_memberships[i];
            if same(m.0.as_str(), space_id) && same(m.1.as_str(), user_id) {
                assert(self.editor_memberships@[i as int].0@ == space_id@);
                return true;
            }
            i += 1;
        }
        false
    }

    /// Tells what is done next to let a user into a space.
    pub fn provision_editor(&self, discord_user_id: &str, space_id: &str) -> (r: ProvisionStep)
        ensures
            r@ == next_provision(self@, discord_user_id@, space_id@),
    {
        match self.user_ids.get(discord_user_id) {
            None => {
                let mut endpoint = self.base_url.clone();
                endpoint.append("/api/auth/discord/bot-login");
                ProvisionStep::Login { endpoint }
            },
            Some(user_id) => {
                if self.is_editor(space_id, user_id.as_str()) {
                    ProvisionStep::Done
                } else {
                    let mut endpoint = self.base_url.clone();
                    endpoint.append("/api/team-spaces/");
                    endpoint.append(space_id);
                    endpoint.append("/members/");
                    endpoint.append(user_id.as_str());
                    ProvisionStep::Grant { endpoint, user_id: user_id.clone() }
                }
            },
        }
    }

    /// Keeps who a Discord user is.
    pub fn logged_in(&mut self, discord_user_id: &str, user_id: String)
        ensures
            final(self)@ == old(self)@.after_login(discord_user_id@, user_id),
    {
        self.user_ids.insert(discord_user_id.to_owned(), user_id);
    }

    /// Keeps that a user has been let into a space.
    pub fn granted(&mut self, space_id: &str, user_id: &str)
        ensures
            final(self)@ == old(self)@.after_grant(space_id@, user_id@),
    {
        let ghost before = self.editor_memberships@;
        self.editor_memberships.push((space_id.to_owned(), user_id.to_owned()));
        proof {
            let row = self.editor_memberships@;
            let p = (space_id@, user_id@);
            assert forall|q: (Seq<char>, Seq<char>)| pair_set(row).contains(q) == pair_set(
                before,
            ).insert(p).contains(q) by {
                if pair_set(before).contains(q) {
                    let i = choose|i: int|
                        0 <= i < before.len() && (#[trigger] before[i]).0@ == q.0 && before[i].1@
                            == q.1;
                    assert(row[i].0@ == q.0 && row[i].1@ == q.1);
                }
                if q == p {
                    assert(row[before.len() as int].0@ == q.0);
                }
                if pair_set(row).contains(q) && q != p {
                    let i = choose|i: int|
                        0 <= i < row.len() && (#[trigger] row[i]).0@ == q.0 && row[i].1@ == q.1;
                    assert(before[i].0@ == q.0 && before[i].1@ == q.1);
                }
            }
            assert(pair_set(row) =~= pair_set(before).insert(p));
        }
    }

    /// The spaces of channels with one more, or with another for the same channel.
    /// They are saved before they are taken up.
    pub fn bind_channel_space(&self, discord_channel_id: &str, space_id: &str) -> (r: Result<
        Table<String>,
        String,
    >)
        ensures
            match r {
                Ok(updated) => {
                    &&& is_channel_id(discord_channel_id@)
                    &&& is_path_segment(space_id@)
                    &&& is_bound(self@.spaces, discord_channel_id@, space_id@, updated@)
                },
                Err(e) => if !is_channel_id(discord_channel_id@) {
                    e@ == "Discord channel ID must be numeric"@
                } else {
                    !is_path_segment(space_id@) && e@
                        == "Workspace Space ID must be a non-empty URL path segment"@
                },
            },
    {
        match validate_discord_channel_id(discord_channel_id) {
            Ok(()) => {},
            Err(e) => return Err(e),
        }
        match validate_space_id(space_id) {
            Ok(()) => {},
            Err(e) => return Err(e),
        }
        let mut updated = self.channel_spaces.duplicate();
        updated.insert(discord_channel_id.to_owned(), space_id.to_owned());
        assert(updated@.dom() =~= self@.spaces.dom().insert(discord_channel_id@));
        Ok(updated)
    }

    /// Takes up spaces that were saved.
    pub fn adopt(&mut self, updated: Table<String>)
        ensures
            final(self)@ == (ClientView { spaces: updated@, ..old(self)@ }),
    {
        self.channel_spaces = updated;
    }

    /// Where a space for a channel is made, and its name; nothing where the channel
    /// has a space.
    pub fn init_channel_space(&self, discord_channel_id: &str, channel_name: &str) -> (r: Result<
        Option<(String, String)>,
        String,
    >)
        ensures
            match r {
                Ok(plan) => {
                    &&& is_channel_id(discord_channel_id@)
                    &&& 0 < trimmed(channel_name@).len() <= 100
                    &&& is_space_plan(self@, discord_channel_id@, channel_name@, plan)
                },
                Err(e) => if !is_channel_id(discord_channel_id@) {
                    e@ == "Discord channel ID must be numeric"@
                } else {
                    !(0 < trimmed(channel_name@).len() <= 100) && e@
                        == "Discord channel name must contain 1 to 100 characters"@
                },
            },
    {
        match validate_discord_channel_id(discord_channel_id) {
            Ok(()) => {},
            Err(e) => return Err(e),
        }
        let name = trim(channel_name);
        let n = name.unicode_len();
        if n == 0 || n > 100 {
            return Err("Discord channel name must contain 1 to 100 characters".to_owned());
        }
        if self.channel_spaces.contains_key(discord_channel_id) {
            return Ok(None);
        }
        let mut endpoint = self.base_url.clone();
        endpoint.append("/api/team-spaces");
        Ok(Some((endpoint, name.to_owned())))
    }
}

/// No user logs in twice or is let into a space twice: after a login the next step
/// is another, after a grant there is none, and neither is undone for this user or
/// for others.
pub proof fn provisioning_is_done_once(
    c: ClientView,
    user: Seq<char>,
    space: Seq<char>,
    other: Seq<char>,
    elsewhere: Seq<char>,
    id: String,
)
    ensures
        !(next_provision(c.after_login(user, id), user, space) is Login),
        c.users.contains_key(user) ==> next_provision(
            c.after_grant(space, c.users[user]@),
            user,
            space,
        ) is Done,
        other != user ==> next_provision(c.after_login(user, id), other, elsewhere)
            == next_provision(c, other, elsewhere),
        next_provision(c, other, elsewhere) is Done ==> next_provision(
            c.after_grant(space, id@),
            other,
            elsewhere,
        ) is Done,
{
}

} // verus!
