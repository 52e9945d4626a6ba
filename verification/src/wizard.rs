//! The setup wizard: the texts that it shows, and how answers are read.

use vstd::prelude::*;
use crate::text::{
    lower_case, parse_usize, pieces, same, split, trim, trimmed, unsigned, views,
};

verus! {

pub const RESET: &'static str = "\x1b[0m";

pub const BOLD: &'static str = "\x1b[1m";

pub const CYAN: &'static str = "\x1b[36m";

pub const GREEN: &'static str = "\x1b[32m";

pub const RED: &'static str = "\x1b[31m";

pub const YELLOW: &'static str = "\x1b[33m";

pub const MAGENTA: &'static str = "\x1b[35m";

// ---------------------------------------------------------------------------
// Answers
// ---------------------------------------------------------------------------

/// An answer, or the default where there is none.
pub open spec fn answer(input: Seq<char>, default: Seq<char>) -> Seq<char> {
    if trimmed(input).len() == 0 {
        default
    } else {
        trimmed(input)
    }
}

pub fn answer_or(input: &str, default: &str) -> (r: String)
    ensures
        r@ == answer(input@, default@),
{
    let text = trim(input);
    if text.unicode_len() == 0 {
        default.to_owned()
    } else {
        text.to_owned()
    }
}

/// What an answer to a question of yes or no means; nothing where it is neither,
/// and the question is put again.
pub open spec fn yes_or_no(input: Seq<char>, default: bool) -> Option<bool> {
    let text = lower_case(trimmed(input));
    if text.len() == 0 {
        Some(default)
    } else if text == "y"@ || text == "yes"@ {
        Some(true)
    } else if text == "n"@ || text == "no"@ {
        Some(false)
    } else {
        None
    }
}

pub fn parse_yes_no(input: &str, default: bool) -> (r: Option<bool>)
    ensures
        r == yes_or_no(input@, default),
{
    let text = trim(input).to_lowercase();
    if text.as_str().unicode_len() == 0 {
        Some(default)
    } else if same(text.as_str(), "y") || same(text.as_str(), "yes") {
        Some(true)
    } else if same(text.as_str(), "n") || same(text.as_str(), "no") {
        Some(false)
    } else {
        None
    }
}

/// The place of an item that is chosen by its number, which counts from one.
pub open spec fn picked(input: Seq<char>, count: nat) -> Option<nat> {
    match unsigned(trimmed(input), usize::MAX as nat) {
        Some(n) => if 1 <= n <= count {
            Some((n - 1) as nat)
        } else {
            None
        },
        None => None,
    }
}

/// Reads the choice of one of several items; nothing where it is none of them, and
/// the question is put again.
pub fn parse_choice(input: &str, count: usize) -> (r: Option<usize>)
    ensures
        match r {
            Some(i) => picked(input@, count as nat) == Some(i as nat) && i < count,
            None => picked(input@, count as nat) is None,
        },
{
    match parse_usize(trim(input)) {
        Some(n) => if n >= 1 && n <= count {
            Some(n - 1)
        } else {
            None
        },
        None => None,
    }
}

/// The places of the items that are chosen by their numbers; what is no number of
/// an item is left out.
pub open spec fn all_picked(parts: Seq<Seq<char>>, count: nat) -> Seq<nat>
    decreases parts.len(),
{
    if parts.len() == 0 {
        Seq::empty()
    } else {
        match picked(parts.last(), count) {
            Some(n) => all_picked(parts.drop_last(), count).push(n),
            None => all_picked(parts.drop_last(), count),
        }
    }
}

/// The places in a row, from the first.
pub open spec fn every(count: nat) -> Seq<nat> {
    Seq::new(count, |i: int| i as nat)
}

/// The items of a checklist: all of them, or those whose numbers are given.
pub open spec fn checked(input: Seq<char>, count: nat) -> Seq<nat> {
    if trimmed(input).len() == 0 {
        every(count)
    } else {
        all_picked(pieces(trimmed(input), ','), count)
    }
}

pub open spec fn as_nats(v: Seq<usize>) -> Seq<nat> {
    v.map_values(|i: usize| i as nat)
}

pub fn parse_checklist(input: &str, count: usize) -> (r: Vec<usize>)
    ensures
        as_nats(r@) == checked(input@, count as nat),
        forall|i: int| 0 <= i < r@.len() ==> #[trigger] r@[i] < count,
{
    let text = trim(input);
    let mut out: Vec<usize> = Vec::new();
    if text.unicode_len() == 0 {
        let mut i: usize = 0;
        while i < count
            invariant
                i <= count,
                out@.len() == i,
                forall|k: int| 0 <= k < i ==> #[trigger] out@[k] == k,
            decreases count - i,
        {
            out.push(i);
            i += 1;
        }
        assert(as_nats(out@) =~= every(count as nat));
        return out;
    }
    let parts = split(text, ',');
    let ghost all = views(parts@);
    let mut i: usize = 0;
    assert(as_nats(out@) =~= all_picked(all.take(0), count as nat));
    while i < parts.len()
        invariant
            i <= parts@.len(),
            all == views(parts@),
            as_nats(out@) == all_picked(all.take(i as int), count as nat),
            forall|k: int| 0 <= k < out@.len() ==> #[trigger] out@[k] < count,
        decreases parts@.len() - i,
    {
        assert(all.take(i + 1).drop_last() =~= all.take(i as int));
        assert(all.take(i + 1).last() == parts@[i as int]@);
        if let Some(n) = parse_choice(parts[i].as_str(), count) {
            let ghost before = out@;
            out.push(n);
            assert(as_nats(out@) =~= as_nats(before).push(n as nat));
        }
        i += 1;
    }
    assert(all.take(all.len() as int) =~= all);
    out
}

/// The texts between commas, without white space around them, and no empty ones.
pub open spec fn listed(parts: Seq<Seq<char>>) -> Seq<Seq<char>>
    decreases parts.len(),
{
    if parts.len() == 0 {
        Seq::empty()
    } else if trimmed(parts.last()).len() == 0 {
        listed(parts.drop_last())
    } else {
        listed(parts.drop_last()).push(trimmed(parts.last()))
    }
}

/// Reads a list of ids that are separated by commas.
pub fn parse_id_list(input: &str) -> (r: Vec<String>)
    ensures
        views(r@) == listed(pieces(input@, ',')),
{
    let parts = split(input, ',');
    let ghost all = views(parts@);
    let mut out: Vec<String> = Vec::new();
    let mut i: usize = 0;
    assert(views(out@) =~= listed(all.take(0)));
    while i < parts.len()
        invariant
            i <= parts@.len(),
            all == views(parts@),
            views(out@) == listed(all.take(i as int)),
        decreases parts@.len() - i,
    {
        assert(all.take(i + 1).drop_last() =~= all.take(i as int));
        assert(all.take(i + 1).last() == parts@[i as int]@);
        let text = trim(parts[i].as_str());
        if text.unicode_len() > 0 {
            let owned = text.to_owned();
            proof {
                crate::text::lemma_views_push(out@, owned);
            }
            out.push(owned);
        }
        i += 1;
    }
    assert(all.take(all.len() as int) =~= all);
    out
}

/// No id of a list is empty or has white space around it.
pub proof fn listed_ids_are_clean(parts: Seq<Seq<char>>)
    ensures
        forall|i: int|
            0 <= i < listed(parts).len() ==> (#[trigger] listed(parts)[i]).len() > 0 && trimmed(
                listed(parts)[i],
            ) == listed(parts)[i],
    decreases parts.len(),
{
    if parts.len() > 0 {
        listed_ids_are_clean(parts.drop_last());
        let before = listed(parts.drop_last());
        let now = listed(parts);
        crate::text::trimming_is_idempotent(parts.last());
        assert forall|i: int| 0 <= i < now.len() implies (#[trigger] now[i]).len() > 0 && trimmed(
            now[i],
        ) == now[i] by {
            if i < before.len() {
                assert(now[i] == before[i]);
            }
        }
    }
}

/// The most sessions: as answered, or ten where that is no number.
pub fn parse_max_sessions(answer: &str) -> (r: usize)
    ensures
        r == (match unsigned(answer@, usize::MAX as nat) {
            Some(n) => n as usize,
            None => 10,
        }),
{
    match parse_usize(answer) {
        Some(n) => n,
        None => 10,
    }
}

/// A channel of a server: its id, its name and its kind.
#[derive(Debug)]
pub struct ServerChannel {
    pub id: String,
    pub kind: u8,
    pub name: String,
}

/// Whether a channel is one for text.
pub open spec fn is_text_channel() -> spec_fn(ServerChannel) -> bool {
    |c: ServerChannel| c.kind == 0
}

/// The channels for text.
pub fn text_channels(channels: Vec<ServerChannel>) -> (r: Vec<ServerChannel>)
    ensures
        r@ == channels@.filter(is_text_channel()),
{
    let ghost all = channels@;
    let mut out: Vec<ServerChannel> = Vec::new();
    proof {
        reveal(Seq::filter);
        assert(out@ =~= all.take(0).filter(is_text_channel()));
    }
    for c in it: channels
        invariant
            it.seq() == all,
            out@ == all.take(it.index()).filter(is_text_channel()),
    {
        proof {
            reveal(Seq::filter);
            assert(all.take(it.index() + 1).drop_last() =~= all.take(it.index()));
            assert(all.take(it.index() + 1).last() == c);
        }
        if c.kind == 0 {
            out.push(c);
        }
    }
    assert(all.take(all.len() as int) =~= all);
    out
}

/// The ids of the channels that were chosen.
pub fn selected_ids(channels: &Vec<ServerChannel>, selected: &Vec<usize>) -> (r: Vec<String>)
    requires
        forall|i: int| 0 <= i < selected@.len() ==> #[trigger] selected@[i] < channels@.len(),
    ensures
        r@.len() == selected@.len(),
        forall|i: int|
            0 <= i < r@.len() ==> (#[trigger] r@[i])@ == channels@[selected@[i] as int].id@,
{
    let mut out: Vec<String> = Vec::new();
    let mut i: usize = 0;
    while i < selected.len()
        invariant
            i <= selected@.len(),
            out@.len() == i,
            forall|k: int| 0 <= k < selected@.len() ==> #[trigger] selected@[k] < channels@.len(),
            forall|k: int|
                0 <= k < i ==> (#[trigger] out@[k])@ == channels@[selected@[k] as int].id@,
        decreases selected@.len() - i,
    {
        out.push(channels[selected[i]].id.clone());
        i += 1;
    }
    out
}

/// Where an agent works unless told otherwise.
pub fn default_dir(is_local: bool, agent: &str) -> (r: &'static str)
    ensures
        r@ == (if is_local {
            "."@
        } else if agent@ == "kiro"@ {
            "/home/agent"@
        } else {
            "/home/node"@
        }),
{
    if is_local {
        "."
    } else if same(agent, "kiro") {
        "/home/agent"
    } else {
        "/home/node"
    }
}

// ---------------------------------------------------------------------------
// Boxes
// ---------------------------------------------------------------------------

/// How many columns of a terminal a text takes.
pub uninterp spec fn columns(s: Seq<char>) -> nat;

/// `unicode_width::UnicodeWidthStr::width`: it depends on the text alone.
#[verifier::external_body]
fn text_width(s: &str) -> (r: usize)
    ensures
        r == columns(s@),
{
    unicode_width::UnicodeWidthStr::width(s)
}

/// A character over and over.
pub open spec fn repeated(c: char, n: nat) -> Seq<char> {
    Seq::new(n, |i: int| c)
}

fn append_repeated(out: &mut String, c: char, n: usize)
    ensures
        final(out)@ == old(out)@ + repeated(c, n as nat),
{
    let ghost before = out@;
    let mut i: usize = 0;
    assert(before + repeated(c, 0) =~= before);
    while i < n
        invariant
            i <= n,
            out@ == before + repeated(c, i as nat),
        decreases n - i,
    {
        out.push(c);
        assert(before + repeated(c, (i + 1) as nat) =~= (before + repeated(c, i as nat)).push(c));
        i += 1;
    }
}

/// The widest of texts.
pub open spec fn widest(lines: Seq<Seq<char>>) -> nat
    decreases lines.len(),
{
    if lines.len() == 0 {
        0
    } else {
        let before = widest(lines.drop_last());
        if columns(lines.last()) > before {
            columns(lines.last())
        } else {
            before
        }
    }
}

/// The width of a box: that of its widest line, but from 60 to 76 columns.
pub open spec fn box_width(lines: Seq<Seq<char>>) -> nat {
    if widest(lines) < 60 {
        60
    } else if widest(lines) > 76 {
        76
    } else {
        widest(lines)
    }
}

/// A line of a box: filled up with spaces to as many characters as the box is wide.
pub open spec fn box_line(line: Seq<char>, width: nat) -> Seq<char> {
    CYAN@ + "║"@ + RESET@ + " "@ + line + repeated(
        ' ',
        if line.len() < width {
            (width - line.len()) as nat
        } else {
            0
        },
    ) + " "@ + CYAN@ + "║\n"@
}

/// The lines of a box, one behind the other.
pub open spec fn box_lines(lines: Seq<Seq<char>>, width: nat) -> Seq<char>
    decreases lines.len(),
{
    if lines.len() == 0 {
        Seq::empty()
    } else {
        box_lines(lines.drop_last(), width) + box_line(lines.last(), width)
    }
}

/// A box round lines.
pub open spec fn boxed(lines: Seq<Seq<char>>) -> Seq<char> {
    let width = box_width(lines);
    "\n"@ + CYAN@ + "╔"@ + repeated('═', width + 2) + "╗"@ + RESET@ + "\n"@ + box_lines(
        lines,
        width,
    ) + CYAN@ + "╚"@ + repeated('═', width + 2) + "╝"@ + RESET@ + "\n\n"@
}

/// The texts of lines.
pub open spec fn line_views(lines: Seq<&'static str>) -> Seq<Seq<char>> {
    lines.map_values(|s: &'static str| s@)
}

fn measure(lines: &Vec<&'static str>) -> (r: usize)
    ensures
        r == box_width(line_views(lines@)),
{
    let ghost all = line_views(lines@);
    let mut width: usize = 0;
    let mut i: usize = 0;
    while i < lines.len()
        invariant
            i <= lines@.len(),
            all == line_views(lines@),
            width == widest(all.take(i as int)),
        decreases lines@.len() - i,
    {
        assert(all.take(i + 1).drop_last() =~= all.take(i as int));
        assert(all.take(i + 1).last() == lines@[i as int]@);
        let w = text_width(lines[i]);
        if w > width {
            width = w;
        }
        i += 1;
    }
    assert(all.take(all.len() as int) =~= all);
    if width < 60 {
        60
    } else if width > 76 {
        76
    } else {
        width
    }
}

/// Draws a box round lines.
pub fn draw_box(lines: &Vec<&'static str>) -> (r: String)
    ensures
        r@ == boxed(line_views(lines@)),
{
    let ghost all = line_views(lines@);
    let width = measure(lines);
    let mut out = "\n".to_owned();
    out.append(CYAN);
    out.append("╔");
    append_repeated(&mut out, '═', width + 2);
    out.append("╗");
    out.append(RESET);
    out.append("\n");
    let ghost head = out@;
    assert(head =~= "\n"@ + CYAN@ + "╔"@ + repeated('═', (width + 2) as nat) + "╗"@ + RESET@
        + "\n"@);
    let mut i: usize = 0;
    assert(head + box_lines(all.take(0), width as nat) =~= head);
    while i < lines.len()
        invariant
            i <= lines@.len(),
            all == line_views(lines@),
            60 <= width <= 76,
            out@ == head + box_lines(all.take(i as int), width as nat),
        decreases lines@.len() - i,
    {
        let line = lines[i];
        let ghost before = out@;
        out.append(CYAN);
        out.append("║");
        out.append(RESET);
        out.append(" ");
        out.append(line);
        let n = line.unicode_len();
        append_repeated(
            &mut out,
            ' ',
            if n < width {
                width - n
            } else {
                0
            },
        );
        out.append(" ");
        out.append(CYAN);
        out.append("║\n");
        proof {
            assert(out@ =~= before + box_line(line@, width as nat));
            assert(all.take(i + 1).drop_last() =~= all.take(i as int));
            assert(all.take(i + 1).last() == line@);
            assert(head + (box_lines(all.take(i as int), width as nat) + box_line(
                line@,
                width as nat,
            )) =~= before + box_line(line@, width as nat));
        }
        i += 1;
    }
    assert(all.take(all.len() as int) =~= all);
    out.append(CYAN);
    out.append("╚");
    append_repeated(&mut out, '═', width + 2);
    out.append("╝");
    out.append(RESET);
    out.append("\n\n");
    assert(out@ =~= boxed(all));
    out
}

/// The lines of the guide to a Discord bot.
pub fn section_discord_guide() -> (r: String)
    ensures
        r@ == boxed(
            seq![
                "Discord Bot Setup Guide"@,
                ""@,
                "1. Go to: https://discord.com/developers/applications"@,
                "2. Click 'New Application' -> name it (e.g. OpenAB)"@,
                "3. Bot -> Reset Token -> COPY the token"@,
                ""@,
                "4. Enable Privileged Gateway Intents:"@,
                "   - Message Content Intent"@,
                "   - Guild Members Intent"@,
                ""@,
                "5. OAuth2 -> URL Generator:"@,
                "   - SCOPES: bot"@,
                "   - BOT PERMISSIONS:"@,
                "     Send Messages | Embed Links | Attach Files"@,
                "     Read Message History | Add Reactions | View Audit Log"@,
                "     Use Slash Commands"@,
                ""@,
                "6. Visit the generated URL -> add bot to your server"@,
            ],
        ),
{
    let mut lines: Vec<&'static str> = Vec::new();
    lines.push("Discord Bot Setup Guide");
    lines.push("");
    lines.push("1. Go to: https://discord.com/developers/applications");
    lines.push("2. Click 'New Application' -> name it (e.g. OpenAB)");
    lines.push("3. Bot -> Reset Token -> COPY the token");
    lines.push("");
    lines.push("4. Enable Privileged Gateway Intents:");
    lines.push("   - Message Content Intent");
    lines.push("   - Guild Members Intent");
    lines.push("");
    lines.push("5. OAuth2 -> URL Generator:");
    lines.push("   - SCOPES: bot");
    lines.push("   - BOT PERMISSIONS:");
    lines.push("     Send Messages | Embed Links | Attach Files");
    lines.push("     Read Message History | Add Reactions | View Audit Log");
    lines.push("     Use Slash Commands");
    lines.push("");
    lines.push("6. Visit the generated URL -> add bot to your server");
    assert(line_views(lines@) =~= seq![
        "Discord Bot Setup Guide"@,
        ""@,
        "1. Go to: https://discord.com/developers/applications"@,
        "2. Click 'New Application' -> name it (e.g. OpenAB)"@,
        "3. Bot -> Reset Token -> COPY the token"@,
        ""@,
        "4. Enable Privileged Gateway Intents:"@,
        "   - Message Content Intent"@,
        "   - Guild Members Intent"@,
        ""@,
        "5. OAuth2 -> URL Generator:"@,
        "   - SCOPES: bot"@,
        "   - BOT PERMISSIONS:"@,
        "     Send Messages | Embed Links | Attach Files"@,
        "     Read Message History | Add Reactions | View Audit Log"@,
        "     Use Slash Commands"@,
        ""@,
        "6. Visit the generated URL -> add bot to your server"@,
    ]);
    draw_box(&lines)
}

/// The guide to installing an agent. Agents that it does not list are installed and
/// signed in as their own guides say, and their command is written into the
/// configuration by hand.
pub fn agent_guide() -> (r: String)
    ensures
        r@ == boxed(
            seq![
                "Agent Installation Guide"@,
                ""@,
                "kiro:    npm install -g @koryhutchison/kiro-cli"@,
                "codex:   npm install -g openai-codex (requires OpenAI API key)"@,
                "gemini:  npm install -g @google/gemini-cli"@,
                ""@,
                "Make sure the agent is in your PATH before continuing."@,
            ],
        ),
{
    let mut lines: Vec<&'static str> = Vec::new();
    lines.push("Agent Installation Guide");
    lines.push("");
    lines.push("kiro:    npm install -g @koryhutchison/kiro-cli");
    lines.push("codex:   npm install -g openai-codex (requires OpenAI API key)");
    lines.push("gemini:  npm install -g @google/gemini-cli");
    lines.push("");
    lines.push("Make sure the agent is in your PATH before continuing.");
    assert(line_views(lines@) =~= seq![
        "Agent Installation Guide"@,
        ""@,
        "kiro:    npm install -g @koryhutchison/kiro-cli"@,
        "codex:   npm install -g openai-codex (requires OpenAI API key)"@,
        "gemini:  npm install -g @google/gemini-cli"@,
        ""@,
        "Make sure the agent is in your PATH before continuing."@,
    ]);
    draw_box(&lines)
}

/// What is shown where there is no terminal to ask at.
pub fn print_noninteractive_guide() -> (r: String)
    ensures
        r@ == boxed(
            seq![
                "Non-Interactive Mode"@,
                ""@,
                "The interactive wizard requires a terminal."@,
                "Create config.toml manually, then run:"@,
                ""@,
                "  openab run config.toml"@,
                ""@,
                "Config format reference:"@,
                "  [discord]"@,
                "  bot_token = \"YOUR_BOT_TOKEN\""@,
                "  allowed_channels = [\"CHANNEL_ID\"]"@,
                ""@,
                "  [agent]"@,
                "  command = \"kiro-cli\""@,
                "  args = [\"acp\", \"--trust-all-tools\"]"@,
                "  working_dir = \"/home/agent\""@,
                ""@,
                "  [pool]"@,
                "  max_sessions = 10"@,
                "  session_ttl_hours = 24"@,
                ""@,
                "  [reactions]"@,
                "  enabled = true"@,
                "  remove_after_reply = false"@,
                "  ..."@,
            ],
        ),
{
    let mut lines: Vec<&'static str> = Vec::new();
    lines.push("Non-Interactive Mode");
    lines.push("");
    lines.push("The interactive wizard requires a terminal.");
    lines.push("Create config.toml manually, then run:");
    lines.push("");
    lines.push("  openab run config.toml");
    lines.push("");
    lines.push("Config format reference:");
    lines.push("  [discord]");
    lines.push("  bot_token = \"YOUR_BOT_TOKEN\"");
    lines.push("  allowed_channels = [\"CHANNEL_ID\"]");
    lines.push("");
    lines.push("  [agent]");
    lines.push("  command = \"kiro-cli\"");
    lines.push("  args = [\"acp\", \"--trust-all-tools\"]");
    lines.push("  working_dir = \"/home/agent\"");
    lines.push("");
    lines.push("  [pool]");
    lines.push("  max_sessions = 10");
    lines.push("  session_ttl_hours = 24");
    lines.push("");
    lines.push("  [reactions]");
    lines.push("  enabled = true");
    lines.push("  remove_after_reply = false");
    lines.push("  ...");
    assert(line_views(lines@) =~= seq![
        "Non-Interactive Mode"@,
        ""@,
        "The interactive wizard requires a terminal."@,
        "Create config.toml manually, then run:"@,
        ""@,
        "  openab run config.toml"@,
        ""@,
        "Config format reference:"@,
        "  [discord]"@,
        "  bot_token = \"YOUR_BOT_TOKEN\""@,
        "  allowed_channels = [\"CHANNEL_ID\"]"@,
        ""@,
        "  [agent]"@,
        "  command = \"kiro-cli\""@,
        "  args = [\"acp\", \"--trust-all-tools\"]"@,
        "  working_dir = \"/home/agent\""@,
        ""@,
        "  [pool]"@,
        "  max_sessions = 10"@,
        "  session_ttl_hours = 24"@,
        ""@,
        "  [reactions]"@,
        "  enabled = true"@,
        "  remove_after_reply = false"@,
        "  ..."@,
    ]);
    draw_box(&lines)
}

// ---------------------------------------------------------------------------
// Next steps
// ---------------------------------------------------------------------------

/// A line in a colour.
pub open spec fn coloured(color: Seq<char>, text: Seq<char>) -> Seq<char> {
    color + text + RESET@ + "\n"@
}

/// How an agent is installed and signed in on this machine.
pub open spec fn install_steps(agent: Seq<char>) -> Seq<char> {
    if agent == "kiro"@ {
        coloured(CYAN@, "  1. Install kiro-cli (see https://kiro.dev for installer)"@) + coloured(
            CYAN@,
            "  2. Authenticate:"@,
        ) + "       kiro-cli login --use-device-flow\n"@
    } else if agent == "codex"@ {
        coloured(CYAN@, "  1. Install Codex CLI + ACP adapter:"@)
            + "       npm install -g @openai/codex @zed-industries/codex-acp\n"@ + coloured(
            CYAN@,
            "  2. Authenticate:"@,
        ) + "       codex login --device-auth\n"@
    } else if agent == "gemini"@ {
        coloured(CYAN@, "  1. Install Gemini CLI:"@)
            + "       npm install -g @google/gemini-cli\n"@ + coloured(
            CYAN@,
            "  2. Authenticate via Google OAuth, or set GEMINI_API_KEY in config.toml"@,
        )
    } else {
        Seq::empty()
    }
}

/// How an agent is signed in within a cluster.
pub open spec fn cluster_steps(agent: Seq<char>) -> Seq<char> {
    if agent == "kiro"@ {
        "       kubectl exec -it deployment/openab-kiro -- kiro-cli login --use-device-flow\n"@
    } else if agent == "codex"@ {
        "       kubectl exec -it deployment/openab-codex -- codex login --device-auth\n"@
    } else if agent == "gemini"@ {
        "       Set GEMINI_API_KEY via secret, or exec into the pod for OAuth\n"@
    } else {
        Seq::empty()
    }
}

/// What is left to do once the configuration is saved.
pub open spec fn next_steps_text(agent: Seq<char>, output_path: Seq<char>, is_local: bool) -> Seq<char> {
    "\n"@ + coloured(BOLD@, "--- Next Steps ---"@) + "\n"@ + (if is_local {
        install_steps(agent) + "\n"@ + coloured(GREEN@, "  3. Run the bot:"@)
            + "       cargo run -- run "@ + output_path + "\n"@
    } else {
        coloured(CYAN@, "  Docker image already bundles the agent CLI and ACP adapter."@) + "\n"@
            + coloured(CYAN@, "  1. Deploy with Helm (or your preferred method):"@)
            + "       helm install openab openab/openab \\\n         --set agents."@ + agent
            + ".discord.botToken=\"$BOT_TOKEN\"\n\n"@ + coloured(
            CYAN@,
            "  2. Authenticate inside the pod (first time only):"@,
        ) + cluster_steps(agent) + "\n"@ + coloured(GREEN@, "  See README for full Helm options."@)
    }) + "\n"@
}

fn append_coloured(out: &mut String, color: &str, text: &str)
    ensures
        final(out)@ == old(out)@ + coloured(color@, text@),
{
    let ghost before = out@;
    out.append(color);
    out.append(text);
    out.append(RESET);
    out.append("\n");
    assert(out@ =~= before + coloured(color@, text@));
}

fn install_text(agent: &str) -> (r: String)
    ensures
        r@ == install_steps(agent@),
{
    let mut out = String::new();
    let ghost empty = out@;
    assert(empty =~= Seq::<char>::empty());
    if same(agent, "kiro") {
        append_coloured(
            &mut out,
            CYAN,
            "  1. Install kiro-cli (see https://kiro.dev for installer)",
        );
        append_coloured(&mut out, CYAN, "  2. Authenticate:");
        out.append("       kiro-cli login --use-device-flow\n");
    } else if same(agent, "codex") {
        append_coloured(&mut out, CYAN, "  1. Install Codex CLI + ACP adapter:");
        out.append("       npm install -g @openai/codex @zed-industries/codex-acp\n");
        append_coloured(&mut out, CYAN, "  2. Authenticate:");
        out.append("       codex login --device-auth\n");
    } else if same(agent, "gemini") {
        append_coloured(&mut out, CYAN, "  1. Install Gemini CLI:");
        out.append("       npm install -g @google/gemini-cli\n");
        append_coloured(
            &mut out,
            CYAN,
            "  2. Authenticate via Google OAuth, or set GEMINI_API_KEY in config.toml",
        );
    }
    assert(out@ =~= install_steps(agent@));
    out
}

fn cluster_text(agent: &str) -> (r: String)
    ensures
        r@ == cluster_steps(agent@),
{
    if same(agent, "kiro") {
        "       kubectl exec -it deployment/openab-kiro -- kiro-cli login --use-device-flow\n".to_owned()
    } else if same(agent, "codex") {
        "       kubectl exec -it deployment/openab-codex -- codex login --device-auth\n".to_owned()
    } else if same(agent, "gemini") {
        "       Set GEMINI_API_KEY via secret, or exec into the pod for OAuth\n".to_owned()
    } else {
        let r = String::new();
        assert(r@ =~= Seq::<char>::empty());
        r
    }
}

/// Tells what is left to do once the configuration is saved.
pub fn next_steps(agent: &str, output_path: &str, is_local: bool) -> (r: String)
    ensures
        r@ == next_steps_text(agent@, output_path@, is_local),
{
    let mut out = "\n".to_owned();
    append_coloured(&mut out, BOLD, "--- Next Steps ---");
    out.append("\n");
    if is_local {
        out.append(install_text(agent).as_str());
        out.append("\n");
        append_coloured(&mut out, GREEN, "  3. Run the bot:");
        out.append("       cargo run -- run ");
        out.append(output_path);
        out.append("\n");
    } else {
        append_coloured(
            &mut out,
            CYAN,
            "  Docker image already bundles the agent CLI and ACP adapter.",
        );
        out.append("\n");
        append_coloured(&mut out, CYAN, "  1. Deploy with Helm (or your preferred method):");
        out.append("       helm install openab openab/openab \\\n         --set agents.");
        out.append(agent);
        out.append(".discord.botToken=\"$BOT_TOKEN\"\n\n");
        append_coloured(&mut out, CYAN, "  2. Authenticate inside the pod (first time only):");
        out.append(cluster_text(agent).as_str());
        out.append("\n");
        append_coloured(&mut out, GREEN, "  See README for full Helm options.");
    }
    out.append("\n");
    assert(out@ =~= next_steps_text(agent@, output_path@, is_local));
    out
}

} // verus!
