//! Reading a Discord channel's history: which messages are fetched, how they are
//! written out as a file or as context for the agent, and the buttons that ask
//! for them.

use vstd::prelude::*;
use crate::commands::{HISTORY_BUTTON_PREFIX, HISTORY_MODAL_PREFIX};
use crate::config::{setting_view, text_view};
use crate::discord_gate::{locate, place_in, ChannelKind, Gate, Place};
use crate::text::{
    append_decimal, ascii_digit, ascii_letter, begins, blank, byte_len, bytes_of, decimal, is_blank,
    is_digit, is_letter, is_white_space, lemma_byte_len_add, once, parse_u64, same, split_once,
    strip_prefix, to_chars, trim, trim_end, trim_of, trimmed, trimmed_of, unsigned, views, white,
    without_back,
};

verus! {

// ---------------------------------------------------------------------------
// What is exported
// ---------------------------------------------------------------------------

/// The most messages that are exported.
pub const THREAD_EXPORT_MESSAGE_LIMIT: usize = 5000;

/// The most bytes of history that an agent is given.
pub const CONTEXT_HISTORY_PROMPT_BYTES: usize = 12_000;

/// The first moment of Discord, in milliseconds since 1970.
pub const DISCORD_EPOCH_MS: u64 = 1_420_070_400_000;

/// Which messages are exported.
#[derive(Debug, Clone, Copy, PartialEq, Eq, Structural)]
pub enum ExportFilter {
    All,
    /// The newest so many.
    Limit(usize),
    /// Those behind a message.
    After(u64),
}

/// The most messages that a filter lets through.
pub open spec fn cap_of(filter: ExportFilter) -> nat {
    match filter {
        ExportFilter::Limit(n) => n as nat,
        _ => THREAD_EXPORT_MESSAGE_LIMIT as nat,
    }
}

impl ExportFilter {
    /// The most messages that this filter lets through.
    pub fn cap(&self) -> (r: usize)
        ensures
            r == cap_of(*self),
    {
        match self {
            ExportFilter::Limit(n) => *n,
            _ => THREAD_EXPORT_MESSAGE_LIMIT,
        }
    }
}

/// The first message number of a moment: its milliseconds since Discord's first,
/// above 22 bits; never zero.
pub open spec fn snowflake_of(timestamp_ms: u64) -> u64 {
    let since: u64 = if timestamp_ms > DISCORD_EPOCH_MS {
        (timestamp_ms - DISCORD_EPOCH_MS) as u64
    } else {
        0
    };
    if since << 22 == 0 {
        1
    } else {
        since << 22
    }
}

pub fn timestamp_ms_to_snowflake(timestamp_ms: u64) -> (r: u64)
    ensures
        r == snowflake_of(timestamp_ms),
        r > 0,
{
    let since: u64 = if timestamp_ms > DISCORD_EPOCH_MS {
        timestamp_ms - DISCORD_EPOCH_MS
    } else {
        0
    };
    let shifted = since << 22;
    if shifted == 0 {
        1
    } else {
        shifted
    }
}

/// The moment can be read out of the number again, for 139 years.
pub proof fn snowflake_keeps_time(timestamp_ms: u64)
    requires
        DISCORD_EPOCH_MS <= timestamp_ms < DISCORD_EPOCH_MS + 0x400_0000_0000,
    ensures
        (snowflake_of(timestamp_ms) >> 22) + DISCORD_EPOCH_MS == timestamp_ms,
{
    let since: u64 = (timestamp_ms - DISCORD_EPOCH_MS) as u64;
    assert((since << 22) >> 22 == since) by (bit_vector)
        requires
            since < 0x400_0000_0000u64,
    ;
    assert(since << 22 == 0 ==> since == 0) by (bit_vector)
        requires
            since < 0x400_0000_0000u64,
    ;
    assert(1u64 >> 22 == 0) by (bit_vector);
}

/// A day in milliseconds.
pub const DAY_MS: u64 = 86_400_000;

/// How many of the ways to choose messages are used.
pub open spec fn filters_given(
    limit: Option<i64>,
    since: Option<Seq<char>>,
    days: Option<i64>,
    all: bool,
) -> int {
    (if limit is Some {
        1int
    } else {
        0
    }) + (if since is Some {
        1int
    } else {
        0
    }) + (if days is Some {
        1int
    } else {
        0
    }) + (if all {
        1int
    } else {
        0
    })
}

/// A time some days before another one, but not before 1970.
pub open spec fn days_before(now_ms: u64, days: i64) -> u64 {
    if now_ms >= days * DAY_MS {
        (now_ms - days * DAY_MS) as u64
    } else {
        0
    }
}

/// The filter that is asked for, or what is wrong with it; the newest hundred
/// messages where nothing is asked.
pub open spec fn requested_filter(
    limit: Option<i64>,
    since: Option<Seq<char>>,
    days: Option<i64>,
    all: bool,
    now_ms: u64,
) -> Result<ExportFilter, Seq<char>> {
    if filters_given(limit, since, days, all) > 1 {
        Err("⚠️ Please specify only one filter: `limit`, `since`, `days`, or `all`."@)
    } else if all {
        Ok(ExportFilter::All)
    } else if limit is Some {
        if 1 <= limit->0 <= 5000 {
            Ok(ExportFilter::Limit(limit->0 as usize))
        } else {
            Err("⚠️ `limit` must be between 1 and 5000."@)
        }
    } else if since is Some {
        match unsigned(since->0, u64::MAX as nat) {
            Some(id) => if id > 0 {
                Ok(ExportFilter::After(id as u64))
            } else {
                Err(
                    "⚠️ `since` must be a valid message ID (right-click a message → Copy Message ID)."@,
                )
            },
            None => Err(
                "⚠️ `since` must be a valid message ID (right-click a message → Copy Message ID)."@,
            ),
        }
    } else if days is Some {
        if 1 <= days->0 <= 365 {
            Ok(ExportFilter::After(snowflake_of(days_before(now_ms, days->0))))
        } else {
            Err("⚠️ `days` must be between 1 and 365."@)
        }
    } else {
        Ok(ExportFilter::Limit(100))
    }
}

/// Reads the filter out of a command's options.
pub fn parse_export_filter(
    limit: Option<i64>,
    since: Option<&str>,
    days: Option<i64>,
    all: bool,
    now_ms: u64,
) -> (r: Result<ExportFilter, String>)
    ensures
        match r {
            Ok(f) => requested_filter(
                limit,
                setting_view(since),
                days,
                all,
                now_ms,
            ) == Ok::<ExportFilter, Seq<char>>(f),
            Err(e) => requested_filter(
                limit,
                setting_view(since),
                days,
                all,
                now_ms,
            ) == Err::<ExportFilter, Seq<char>>(e@),
        },
{
    let mut given: u8 = 0;
    if limit.is_some() {
        given += 1;
    }
    if since.is_some() {
        given += 1;
    }
    if days.is_some() {
        given += 1;
    }
    if all {
        given += 1;
    }
    if given > 1 {
        return Err(
            "⚠️ Please specify only one filter: `limit`, `since`, `days`, or `all`.".to_owned(),
        );
    }
    if all {
        return Ok(ExportFilter::All);
    }
    if let Some(n) = limit {
        if n < 1 || n > 5000 {
            return Err("⚠️ `limit` must be between 1 and 5000.".to_owned());
        }
        return Ok(ExportFilter::Limit(n as usize));
    }
    if let Some(text) = since {
        if let Some(id) = parse_u64(text) {
            if id > 0 {
                return Ok(ExportFilter::After(id));
            }
        }
        return Err(
            "⚠️ `since` must be a valid message ID (right-click a message → Copy Message ID).".to_owned(),
        );
    }
    if let Some(d) = days {
        if d < 1 || d > 365 {
            return Err("⚠️ `days` must be between 1 and 365.".to_owned());
        }
        let back = d as u64 * DAY_MS;
        let since: u64 = if now_ms >= back {
            now_ms - back
        } else {
            0
        };
        return Ok(ExportFilter::After(timestamp_ms_to_snowflake(since)));
    }
    Ok(ExportFilter::Limit(100))
}

/// Whether a channel may be exported.
pub open spec fn may_export(g: Gate, channel_id: u64, kind: ChannelKind) -> bool {
    match kind {
        ChannelKind::Guild { .. } => place_in(g, channel_id, kind).in_thread,
        ChannelKind::Private => g.allow_dm,
        ChannelKind::Other => false,
    }
}

/// Whether a channel can be exported, and under which name: a thread in an
/// allowed place, or a direct message where those are allowed.
pub fn export_target(g: &Gate, channel_id: u64, kind: &ChannelKind, name: &str) -> (r: (
    bool,
    String,
))
    ensures
        r.0 == may_export(*g, channel_id, *kind),
        r.1@ == (match *kind {
            ChannelKind::Guild { .. } => name@,
            ChannelKind::Private => "dm"@,
            ChannelKind::Other => "channel"@,
        }),
{
    match kind {
        ChannelKind::Guild { .. } => (locate(g, channel_id, kind).in_thread, name.to_owned()),
        ChannelKind::Private => (g.allow_dm, "dm".to_owned()),
        ChannelKind::Other => (false, "channel".to_owned()),
    }
}

/// What an export command is answered at once, or the filter that it starts with:
/// who may not use the bot is told so, then a channel that cannot be exported is
/// refused, and then a filter that cannot be read.
pub open spec fn export_start(
    denied: bool,
    allowed: bool,
    filter: Result<ExportFilter, Seq<char>>,
) -> Result<ExportFilter, Seq<char>> {
    if denied {
        Err("🚫 You are not allowed to use this bot."@)
    } else if !allowed {
        Err("⚠️ Run this command inside an allowed Discord thread or DM."@)
    } else {
        filter
    }
}

/// Decides what becomes of an export command.
pub fn handle_export_thread_command(
    denied: bool,
    allowed: bool,
    limit: Option<i64>,
    since: Option<&str>,
    days: Option<i64>,
    all: bool,
    now_ms: u64,
) -> (r: Result<ExportFilter, String>)
    ensures
        match r {
            Ok(f) => export_start(
                denied,
                allowed,
                requested_filter(limit, setting_view(since), days, all, now_ms),
            ) == Ok::<ExportFilter, Seq<char>>(f),
            Err(e) => export_start(
                denied,
                allowed,
                requested_filter(limit, setting_view(since), days, all, now_ms),
            ) == Err::<ExportFilter, Seq<char>>(e@),
        },
{
    if denied {
        return Err("🚫 You are not allowed to use this bot.".to_owned());
    }
    if !allowed {
        return Err("⚠️ Run this command inside an allowed Discord thread or DM.".to_owned());
    }
    parse_export_filter(limit, since, days, all, now_ms)
}

/// What an export that failed is answered.
pub fn export_failure(e: &str) -> (r: String)
    ensures
        r@ == "⚠️ Failed to export thread: "@ + e@,
{
    let mut out = "⚠️ Failed to export thread: ".to_owned();
    out.append(e);
    out
}

// ---------------------------------------------------------------------------
// Fetching, page by page
// ---------------------------------------------------------------------------

/// A file that came with a message.
#[derive(Debug)]
pub struct ExportAttachment {
    pub filename: String,
    pub size: u64,
    pub content_type: Option<String>,
    pub url: String,
}

/// A message to be written out.
#[derive(Debug)]
pub struct ExportMessage {
    pub id: u64,
    pub timestamp: String,
    pub author_name: String,
    pub author_id: u64,
    pub author_is_bot: bool,
    pub content: String,
    pub attachments: Vec<ExportAttachment>,
}

/// What an export does next.
#[derive(Debug, Clone, Copy, PartialEq, Eq, Structural)]
pub enum FetchStep {
    /// Fetch so many messages, older than the one named.
    Fetch { before: Option<u64>, limit: usize },
    /// See whether there is one more, older than the one named.
    Probe { before: Option<u64> },
    Finished,
}

/// Whether a message is within a filter.
pub open spec fn within(filter: ExportFilter, m: ExportMessage) -> bool {
    match filter {
        ExportFilter::After(id) => m.id > id,
        _ => true,
    }
}

/// An export that fetches.
#[derive(Debug)]
pub struct ExportRun {
    filter: ExportFilter,
    messages: Vec<ExportMessage>,
    before: Option<u64>,
    done: bool,
    hit_cap: bool,
    probed: bool,
}

/// Whether a step is the next of an export, which it leaves in this state.
pub open spec fn goes_on(before: ExportRun, after: ExportRun, step: FetchStep) -> bool {
    let full = !before.is_done() && before.fetched().len() >= cap_of(before.filter_of());
    let left = cap_of(before.filter_of()) - before.fetched().len();
    &&& after.filter_of() == before.filter_of()
    &&& after.fetched() == before.fetched()
    &&& after.oldest() == before.oldest()
    &&& after.was_probed() == before.was_probed()
    &&& after.is_cut() == (before.is_cut() || full)
    &&& after.is_done() == (before.is_done() || full)
    &&& step == (if !after.is_done() {
        FetchStep::Fetch {
            before: before.oldest(),
            limit: (if left < 100 {
                left
            } else {
                100
            }) as usize,
        }
    } else if after.is_cut() && !before.was_probed() {
        FetchStep::Probe { before: before.oldest() }
    } else {
        FetchStep::Finished
    })
}

/// Whether an export has taken in a page of messages, of which it had asked for
/// so many.
pub open spec fn has_taken(
    before: ExportRun,
    batch: Seq<ExportMessage>,
    limit: nat,
    after: ExportRun,
) -> bool {
    let kept = batch.filter(|m: ExportMessage| within(before.filter_of(), m));
    &&& after.filter_of() == before.filter_of()
    &&& after.is_cut() == before.is_cut()
    &&& after.was_probed() == before.was_probed()
    &&& after.fetched() == before.fetched() + kept
    &&& after.oldest() == (if batch.len() > 0 {
        Some(batch.last().id)
    } else {
        before.oldest()
    })
    &&& after.is_done() == (before.is_done() || batch.len() == 0 || kept.len() < batch.len()
        || batch.len() < limit)
}

/// Whether some message came after the one named.
pub open spec fn any_after(ids: Seq<u64>, id: u64) -> bool {
    exists|i: int| 0 <= i < ids.len() && #[trigger] ids[i] > id
}

/// Whether an export has taken in what the look for one more message gave.
pub open spec fn has_probed(before: ExportRun, found: Option<Seq<u64>>, after: ExportRun) -> bool {
    &&& after.filter_of() == before.filter_of()
    &&& after.fetched() == before.fetched()
    &&& after.oldest() == before.oldest()
    &&& after.is_done() == before.is_done()
    &&& after.was_probed()
    &&& after.is_cut() == (before.is_cut() && (match found {
        None => true,
        Some(ids) => match before.filter_of() {
            ExportFilter::After(id) => any_after(ids, id),
            _ => ids.len() > 0,
        },
    }))
}

impl ExportRun {
    pub closed spec fn filter_of(&self) -> ExportFilter {
        self.filter
    }

    /// The messages fetched so far, newest first.
    pub closed spec fn fetched(&self) -> Seq<ExportMessage> {
        self.messages@
    }

    /// The oldest message that was seen.
    pub closed spec fn oldest(&self) -> Option<u64> {
        self.before
    }

    /// Whether nothing more is to be fetched.
    pub closed spec fn is_done(&self) -> bool {
        self.done
    }

    /// Whether messages were left out for want of room.
    pub closed spec fn is_cut(&self) -> bool {
        self.hit_cap
    }

    pub closed spec fn was_probed(&self) -> bool {
        self.probed
    }

    pub fn new(filter: ExportFilter) -> (r: Self)
        ensures
            r.filter_of() == filter,
            r.fetched() == Seq::<ExportMessage>::empty(),
            r.oldest() is None,
            !r.is_done(),
            !r.is_cut(),
            !r.was_probed(),
    {
        ExportRun {
            filter,
            messages: Vec::new(),
            before: None,
            done: false,
            hit_cap: false,
            probed: false,
        }
    }

    /// What an export does next: fetch up to a hundred messages while there is
    /// room, and once there is none, see whether any are left.
    pub fn next_step(&mut self) -> (r: FetchStep)
        ensures
            goes_on(*old(self), *final(self), r),
    {
        let cap = self.filter.cap();
        if !self.done && self.messages.len() >= cap {
            self.hit_cap = true;
            self.done = true;
        }
        if !self.done {
            let left = cap - self.messages.len();
            let limit = if left < 100 {
                left
            } else {
                100
            };
            return FetchStep::Fetch { before: self.before, limit };
        }
        if self.hit_cap && !self.probed {
            FetchStep::Probe { before: self.before }
        } else {
            FetchStep::Finished
        }
    }

    /// Takes in the messages that were fetched, newest first. Those outside the
    /// filter are dropped. Fetching ends with an empty page, with a page that is
    /// not full, and with a message outside the filter.
    pub fn on_batch(&mut self, batch: Vec<ExportMessage>, limit: usize)
        ensures
            has_taken(*old(self), batch@, limit as nat, *final(self)),
    {
        let ghost all = batch@;
        let ghost start = self.messages@;
        let ghost filter = self.filter;
        let ghost pick = |m: ExportMessage| within(filter, m);
        let n = batch.len();
        proof {
            reveal(Seq::filter);
        }
        if n == 0 {
            self.done = true;
            assert(start + all.filter(pick) =~= start);
            return;
        }
        self.before = Some(batch[n - 1].id);
        let mut kept: usize = 0;
        assert(self.messages@ =~= start + all.take(0).filter(pick));
        let mut messages: Vec<ExportMessage> = Vec::new();
        std::mem::swap(&mut messages, &mut self.messages);
        for m in it: batch
            invariant
                it.seq() == all,
                filter == self.filter,
                pick == (|m: ExportMessage| within(filter, m)),
                messages@ == start + all.take(it.index()).filter(pick),
                kept == all.take(it.index()).filter(pick).len(),
                kept <= it.index() <= all.len(),
                n == all.len(),
        {
            proof {
                reveal(Seq::filter);
                assert(all.take(it.index() + 1).drop_last() =~= all.take(it.index()));
                assert(all.take(it.index() + 1).last() == m);
            }
            let inside = match self.filter {
                ExportFilter::After(id) => m.id > id,
                _ => true,
            };
            if inside {
                proof {
                    let now = all.take(it.index()).filter(pick);
                    assert((start + now).push(m) =~= start + now.push(m));
                }
                messages.push(m);
                kept += 1;
            }
        }
        assert(all.take(all.len() as int) =~= all);
        self.messages = messages;
        if kept < n || n < limit {
            self.done = true;
        }
    }

    /// Takes in what the look for one more message gave: the messages found, or
    /// nothing where it failed. Where none is within the filter, nothing was left
    /// out.
    pub fn on_probe(&mut self, found: Option<&Vec<u64>>)
        ensures
            has_probed(
                *old(self),
                match found {
                    Some(ids) => Some(ids@),
                    None => None,
                },
                *final(self),
            ),
    {
        self.probed = true;
        let ids = match found {
            None => return,
            Some(ids) => ids,
        };
        match self.filter {
            ExportFilter::After(id) => {
                let mut i: usize = 0;
                let mut any = false;
                while i < ids.len()
                    invariant
                        i <= ids@.len(),
                        any == (exists|k: int| 0 <= k < i && #[trigger] ids@[k] > id),
                    decreases ids@.len() - i,
                {
                    if ids[i] > id {
                        any = true;
                    }
                    i += 1;
                }
                assert(any == any_after(ids@, id));
                if !any {
                    self.hit_cap = false;
                }
            },
            _ => {
                if ids.len() == 0 {
                    self.hit_cap = false;
                }
            },
        }
    }

    /// The messages, oldest first, and whether some were left out.
    pub fn finish(self) -> (r: (Vec<ExportMessage>, bool))
        ensures
            r.0@ == self.fetched().reverse(),
            r.1 == self.is_cut(),
    {
        let ghost all = self.messages@;
        let hit_cap = self.hit_cap;
        let mut messages = self.messages;
        let mut out: Vec<ExportMessage> = Vec::new();
        assert(all.take(all.len() as int) =~= all);
        while messages.len() > 0
            invariant
                messages@.len() <= all.len(),
                messages@ == all.take(messages@.len() as int),
                out@ == all.skip(messages@.len() as int).reverse(),
            decreases messages@.len(),
        {
            let ghost n = messages@.len() as int;
            if let Some(m) = messages.pop() {
                assert(m == all[n - 1]);
                assert(messages@ =~= all.take(n - 1));
                proof {
                    assert(all.skip(n - 1).reverse() =~= all.skip(n).reverse().push(all[n - 1]));
                }
                out.push(m);
            }
        }
        assert(all.skip(0) =~= all);
        (out, hit_cap)
    }
}

/// Everything that is fetched is within the filter, and as pages hold no more
/// than was asked for, no more than the filter's number is fetched.
pub proof fn fetched_stays_within(
    filter: ExportFilter,
    fetched: Seq<ExportMessage>,
    batch: Seq<ExportMessage>,
    limit: nat,
)
    requires
        forall|i: int| 0 <= i < fetched.len() ==> within(filter, #[trigger] fetched[i]),
        fetched.len() + limit <= cap_of(filter),
        batch.len() <= limit,
    ensures
        ({
            let after = fetched + batch.filter(|m: ExportMessage| within(filter, m));
            &&& forall|i: int| 0 <= i < after.len() ==> within(filter, #[trigger] after[i])
            &&& after.len() <= cap_of(filter)
        }),
{
    broadcast use vstd::seq_lib::group_filter_ensures;

    let pick = |m: ExportMessage| within(filter, m);
    let kept = batch.filter(pick);
    let after = fetched + kept;
    assert(kept.len() <= batch.len());
    assert forall|i: int| 0 <= i < after.len() implies within(filter, #[trigger] after[i]) by {
        if i >= fetched.len() {
            assert(pick(kept[i - fetched.len()]));
        }
    }
}

// ---------------------------------------------------------------------------
// Writing messages out
// ---------------------------------------------------------------------------

/// The line of a file that came with a message.
pub open spec fn attachment_line(a: ExportAttachment) -> Seq<char> {
    "[attachment] "@ + a.filename@ + " ("@ + decimal(a.size as nat) + " bytes, "@ + (
    match a.content_type {
        Some(t) => t@,
        None => "unknown"@,
    }) + "): "@ + a.url@ + "\n"@
}

/// The lines of the files that came with a message.
pub open spec fn attachment_lines(list: Seq<ExportAttachment>) -> Seq<char>
    decreases list.len(),
{
    if list.len() == 0 {
        Seq::empty()
    } else {
        attachment_lines(list.drop_last()) + attachment_line(list.last())
    }
}

/// A message written out.
pub open spec fn message_text(m: ExportMessage) -> Seq<char> {
    "["@ + m.timestamp@ + "] "@ + m.author_name@ + (if m.author_is_bot {
        " [bot]"@
    } else {
        Seq::<char>::empty()
    }) + " ("@ + decimal(m.author_id as nat) + ")\n"@ + (if m.content@.len() == 0 {
        "(no text)\n"@
    } else {
        m.content@ + "\n"@
    }) + attachment_lines(m.attachments@) + "\n"@
}

pub fn format_export_message(m: &ExportMessage) -> (r: String)
    ensures
        r@ == message_text(*m),
{
    let mut out = "[".to_owned();
    out.append(m.timestamp.as_str());
    out.append("] ");
    out.append(m.author_name.as_str());
    if m.author_is_bot {
        out.append(" [bot]");
    }
    out.append(" (");
    append_decimal(&mut out, m.author_id);
    out.append(")\n");
    if m.content.as_str().unicode_len() == 0 {
        out.append("(no text)\n");
    } else {
        out.append(m.content.as_str());
        out.append("\n");
    }
    let ghost head = out@;
    assert(head =~= "["@ + m.timestamp@ + "] "@ + m.author_name@ + (if m.author_is_bot {
        " [bot]"@
    } else {
        Seq::<char>::empty()
    }) + " ("@ + decimal(m.author_id as nat) + ")\n"@ + (if m.content@.len() == 0 {
        "(no text)\n"@
    } else {
        m.content@ + "\n"@
    }));
    let mut i: usize = 0;
    assert(out@ =~= head + attachment_lines(m.attachments@.take(0)));
    while i < m.attachments.len()
        invariant
            i <= m.attachments@.len(),
            out@ == head + attachment_lines(m.attachments@.take(i as int)),
        decreases m.attachments@.len() - i,
    {
        let a = &m.attachments[i];
        let ghost before = out@;
        out.append("[attachment] ");
        out.append(a.filename.as_str());
        out.append(" (");
        append_decimal(&mut out, a.size);
        out.append(" bytes, ");
        match &a.content_type {
            Some(t) => {
                out.append(t.as_str());
            },
            None => {
                out.append("unknown");
            },
        }
        out.append("): ");
        out.append(a.url.as_str());
        out.append("\n");
        assert(out@ =~= before + attachment_line(*a));
        assert(m.attachments@.take(i + 1).drop_last() =~= m.attachments@.take(i as int));
        assert(m.attachments@.take(i + 1).last() == *a);
        assert(head + (attachment_lines(m.attachments@.take(i as int)) + attachment_line(*a))
            =~= before + attachment_line(*a));
        i += 1;
    }
    assert(m.attachments@.take(m.attachments@.len() as int) =~= m.attachments@);
    out.append("\n");
    out
}

/// The texts of a row, one behind the other.
pub open spec fn run_together(texts: Seq<Seq<char>>) -> Seq<char>
    decreases texts.len(),
{
    if texts.len() == 0 {
        Seq::empty()
    } else {
        run_together(texts.drop_last()) + texts.last()
    }
}

/// How many of the entries fit behind `used` bytes: all before the first that does not.
pub open spec fn fitting(used: nat, entries: Seq<Seq<char>>, max_bytes: nat) -> nat
    decreases entries.len(),
{
    if entries.len() == 0 || used + byte_len(entries[0]) > max_bytes {
        0
    } else {
        1 + fitting(used + byte_len(entries[0]), entries.drop_first(), max_bytes)
    }
}

/// The remark at the end of a file that was cut.
pub open spec fn cut_note() -> Seq<char> {
    "\n[Export truncated to fit Discord attachment size limit]\n"@
}

/// The entries that fit, under a header, with a remark where some do not and the
/// remark still does.
pub open spec fn assembled(header: Seq<char>, entries: Seq<Seq<char>>, max_bytes: nat) -> (
    Seq<char>,
    nat,
    bool,
) {
    let n = fitting(byte_len(header), entries, max_bytes);
    let body = header + run_together(entries.take(n as int));
    let cut = n < entries.len();
    (
        if cut && byte_len(body) + byte_len(cut_note()) <= max_bytes {
            body + cut_note()
        } else {
            body
        },
        n,
        cut,
    )
}

proof fn lemma_fitting_bound(used: nat, entries: Seq<Seq<char>>, max_bytes: nat)
    ensures
        fitting(used, entries, max_bytes) <= entries.len(),
    decreases entries.len(),
{
    if entries.len() > 0 && used + byte_len(entries[0]) <= max_bytes {
        lemma_fitting_bound(used + byte_len(entries[0]), entries.drop_first(), max_bytes);
    }
}

/// Puts a file together from a header and entries.
pub fn assemble_export(header: &str, entries: &[String], max_bytes: usize) -> (r: (
    String,
    usize,
    bool,
))
    ensures
        (r.0@, r.1 as nat, r.2) == assembled(header@, views(entries@), max_bytes as nat),
{
    let ghost all = views(entries@);
    let mut out = header.to_owned();
    let mut used = bytes_of(header);
    let mut written: usize = 0;
    let mut truncated = false;
    assert(all.skip(0) =~= all);
    assert(header@ + run_together(all.take(0)) =~= header@);
    while written < entries.len() && !truncated
        invariant
            written <= entries@.len(),
            all == views(entries@),
            used == byte_len(out@),
            out@ == header@ + run_together(all.take(written as int)),
            fitting(byte_len(header@), all, max_bytes as nat) == written + fitting(
                used as nat,
                all.skip(written as int),
                max_bytes as nat,
            ),
            truncated ==> written < entries@.len() && fitting(
                used as nat,
                all.skip(written as int),
                max_bytes as nat,
            ) == 0,
        decreases entries@.len() - written + (if truncated {
                0int
            } else {
                1int
            }),
    {
        let entry = entries[written].as_str();
        let size = bytes_of(entry);
        assert(all.skip(written as int)[0] == entry@);
        if used > max_bytes || size > max_bytes - used {
            truncated = true;
        } else {
            proof {
                lemma_byte_len_add(out@, entry@);
                assert(all.take(written + 1).drop_last() =~= all.take(written as int));
                assert(all.take(written + 1).last() == entry@);
                assert(all.skip(written as int).drop_first() =~= all.skip(written + 1));
                assert(header@ + (run_together(all.take(written as int)) + entry@) =~= out@
                    + entry@);
            }
            out.append(entry);
            used = used + size;
            written += 1;
        }
    }
    proof {
        if written == entries@.len() {
            assert(all.skip(written as int).len() == 0);
        }
    }
    if truncated {
        let note = "\n[Export truncated to fit Discord attachment size limit]\n";
        let size = bytes_of(note);
        if used <= max_bytes && max_bytes - used >= size {
            out.append(note);
        }
    }
    (out, written, truncated)
}

proof fn lemma_fitting_bytes(header: Seq<char>, entries: Seq<Seq<char>>, max_bytes: nat, k: int)
    requires
        byte_len(header) <= max_bytes,
        0 <= k <= fitting(byte_len(header), entries, max_bytes),
    ensures
        k <= entries.len(),
        byte_len(header + run_together(entries.take(k))) <= max_bytes,
        fitting(byte_len(header), entries, max_bytes) == k + fitting(
            byte_len(header + run_together(entries.take(k))),
            entries.skip(k),
            max_bytes,
        ),
    decreases k,
{
    lemma_fitting_bound(byte_len(header), entries, max_bytes);
    if k == 0 {
        assert(header + run_together(entries.take(0)) =~= header);
        assert(entries.skip(0) =~= entries);
    } else {
        lemma_fitting_bytes(header, entries, max_bytes, k - 1);
        let body = header + run_together(entries.take(k - 1));
        lemma_byte_len_add(body, entries[k - 1]);
        assert(entries.take(k).drop_last() =~= entries.take(k - 1));
        assert(header + run_together(entries.take(k)) =~= body + entries[k - 1]);
        assert(entries.skip(k - 1).drop_first() =~= entries.skip(k));
        assert(entries.skip(k - 1)[0] == entries[k - 1]);
    }
}

/// A file is never larger than it may be, unless its header alone is.
pub proof fn export_stays_in_size(header: Seq<char>, entries: Seq<Seq<char>>, max_bytes: nat)
    requires
        byte_len(header) <= max_bytes,
    ensures
        byte_len(assembled(header, entries, max_bytes).0) <= max_bytes,
{
    let n = fitting(byte_len(header), entries, max_bytes);
    lemma_fitting_bytes(header, entries, max_bytes, n as int);
    let body = header + run_together(entries.take(n as int));
    lemma_byte_len_add(body, cut_note());
}

fn format_all(messages: &Vec<ExportMessage>) -> (r: Vec<String>)
    ensures
        views(r@) == messages@.map_values(|m: ExportMessage| message_text(m)),
{
    let ghost all = messages@.map_values(|m: ExportMessage| message_text(m));
    let mut out: Vec<String> = Vec::new();
    let mut i: usize = 0;
    assert(views(out@) =~= all.take(0));
    while i < messages.len()
        invariant
            i <= messages@.len(),
            all == messages@.map_values(|m: ExportMessage| message_text(m)),
            views(out@) == all.take(i as int),
        decreases messages@.len() - i,
    {
        let text = format_export_message(&messages[i]);
        proof {
            crate::text::lemma_views_push(out@, text);
            assert(all.take(i + 1) =~= all.take(i as int).push(all[i as int]));
        }
        out.push(text);
        i += 1;
    }
    assert(all.take(all.len() as int) =~= all);
    out
}

/// The header of an exported file.
pub open spec fn export_header(channel_id: nat, channel_name: Seq<char>, count: nat) -> Seq<char> {
    "Discord thread export\nChannel: "@ + channel_name + " ("@ + decimal(channel_id)
        + ")\nMessages: "@ + decimal(count) + "\n\n"@
}

/// The file of an export, how many messages are in it, and whether some are not.
pub fn format_thread_export(
    channel_id: u64,
    channel_name: &str,
    messages: &Vec<ExportMessage>,
    max_bytes: usize,
) -> (r: (String, usize, bool))
    ensures
        (r.0@, r.1 as nat, r.2) == assembled(
            export_header(channel_id as nat, channel_name@, messages@.len()),
            messages@.map_values(|m: ExportMessage| message_text(m)),
            max_bytes as nat,
        ),
{
    let mut header = "Discord thread export\nChannel: ".to_owned();
    header.append(channel_name);
    header.append(" (");
    append_decimal(&mut header, channel_id);
    header.append(")\nMessages: ");
    append_decimal(&mut header, messages.len() as u64);
    header.append("\n\n");
    let entries = format_all(messages);
    assemble_export(header.as_str(), entries.as_slice(), max_bytes)
}

/// How many bytes an export may have, for files of a size.
pub open spec fn budget_of(size_limit: nat) -> nat {
    if size_limit < 2048 {
        1024
    } else {
        (size_limit - 1024) as nat
    }
}

/// How large a file may be so that it can be attached: a kilobyte under the limit,
/// and never under a kilobyte.
pub fn export_budget(attachment_size_limit: u32) -> (r: usize)
    ensures
        r == budget_of(attachment_size_limit as nat),
{
    if attachment_size_limit < 2048 {
        1024
    } else {
        (attachment_size_limit - 1024) as usize
    }
}

/// What people are told of an export.
pub open spec fn export_told(written: nat, fetched: nat, hit_cap: bool, byte_truncated: bool) -> Seq<char> {
    "Exported "@ + decimal(written) + " messages."@ + (if hit_cap {
        " Only the most recent "@ + decimal(fetched)
            + " messages were fetched — older messages were not included."@
    } else {
        Seq::<char>::empty()
    }) + (if byte_truncated {
        " Transcript truncated to fit Discord's attachment size limit ("@ + decimal(written) + " of "@
            + decimal(fetched) + " fetched messages included)."@
    } else {
        Seq::<char>::empty()
    })
}

/// What an export replies.
pub fn export_reply(written: usize, fetched: usize, hit_cap: bool, byte_truncated: bool) -> (r: String)
    ensures
        r@ == export_told(written as nat, fetched as nat, hit_cap, byte_truncated),
{
    let mut out = "Exported ".to_owned();
    append_decimal(&mut out, written as u64);
    out.append(" messages.");
    if hit_cap {
        out.append(" Only the most recent ");
        append_decimal(&mut out, fetched as u64);
        out.append(" messages were fetched — older messages were not included.");
    }
    if byte_truncated {
        out.append(" Transcript truncated to fit Discord's attachment size limit (");
        append_decimal(&mut out, written as u64);
        out.append(" of ");
        append_decimal(&mut out, fetched as u64);
        out.append(" fetched messages included).");
    }
    assert(out@ =~= "Exported "@ + decimal(written as nat) + " messages."@ + (if hit_cap {
        " Only the most recent "@ + decimal(fetched as nat)
            + " messages were fetched — older messages were not included."@
    } else {
        Seq::<char>::empty()
    }) + (if byte_truncated {
        " Transcript truncated to fit Discord's attachment size limit ("@ + decimal(written as nat)
            + " of "@ + decimal(fetched as nat) + " fetched messages included)."@
    } else {
        Seq::<char>::empty()
    }));
    out
}

/// What becomes of a character in a file's name, if anything.
pub open spec fn file_char(c: char) -> Option<char> {
    if is_letter(c) || is_digit(c) || c == '-' || c == '_' {
        Some(c)
    } else if is_white_space(c) || c == '.' || c == '/' {
        Some('-')
    } else {
        None
    }
}

/// The characters of a text that can stand in a file's name.
pub open spec fn file_chars(s: Seq<char>) -> Seq<char>
    decreases s.len(),
{
    if s.len() == 0 {
        s
    } else {
        match file_char(s.last()) {
            Some(c) => file_chars(s.drop_last()).push(c),
            None => file_chars(s.drop_last()),
        }
    }
}

/// What is left of a text for a file's name: letters, digits, hyphens and
/// underscores, at most 64 of them.
pub open spec fn kept_name(s: Seq<char>) -> Seq<char> {
    let name = trimmed_of(file_chars(s), '-');
    if name.len() > 64 {
        name.take(64)
    } else {
        name
    }
}

/// A name for a file: what is left of a text, or the fallback where nothing is.
pub open spec fn file_name(s: Seq<char>, fallback: Seq<char>) -> Seq<char> {
    if kept_name(s).len() == 0 {
        fallback
    } else {
        kept_name(s)
    }
}

/// Keeps of a text what can stand in a file's name.
pub fn keep_name(input: &str) -> (r: String)
    ensures
        r@ == kept_name(input@),
{
    let v = to_chars(input);
    let mut safe = String::new();
    let mut i: usize = 0;
    assert(safe@ =~= file_chars(v@.take(0)));
    while i < v.len()
        invariant
            i <= v@.len(),
            safe@ == file_chars(v@.take(i as int)),
        decreases v@.len() - i,
    {
        let c = v[i];
        assert(v@.take(i + 1).drop_last() =~= v@.take(i as int));
        assert(v@.take(i + 1).last() == c);
        if ascii_letter(c) || ascii_digit(c) || c == '-' || c == '_' {
            safe.push(c);
        } else if c.is_whitespace() || c == '.' || c == '/' {
            safe.push('-');
        }
        i += 1;
    }
    assert(v@.take(v@.len() as int) =~= v@);
    let name = trim_of(safe.as_str(), '-');
    if name.as_str().unicode_len() > 64 {
        let cut = name.as_str().substring_char(0, 64);
        assert(cut@ =~= name@.take(64));
        cut.to_owned()
    } else {
        name
    }
}

/// Whether a text can be a day, written as year, month and day without anything
/// between: digits, and a plus sign where the year has more than four of them.
pub open spec fn is_date(s: Seq<char>) -> bool {
    &&& 8 <= s.len() <= 11
    &&& forall|i: int| 0 <= i < s.len() ==> is_digit(#[trigger] s[i]) || s[i] == '+'
}

/// `chrono::Utc::now`, written as year, month and day: years have at most six
/// digits. Which day it is depends on the clock.
#[verifier::external_body]
fn today() -> (r: String)
    ensures
        is_date(r@),
{
    chrono::Utc::now().format("%Y%m%d").to_string()
}

/// Makes a file's name of a channel's, or of the date where nothing is left of it.
pub fn sanitize_filename_component(input: &str) -> (r: String)
    ensures
        kept_name(input@).len() > 0 ==> r@ == kept_name(input@),
        kept_name(input@).len() == 0 ==> is_date(r@),
{
    let name = keep_name(input);
    if name.as_str().unicode_len() == 0 {
        today()
    } else {
        name
    }
}

/// The characters that a file's name is made of.
pub open spec fn is_file_char(c: char) -> bool {
    is_letter(c) || is_digit(c) || c == '-' || c == '_'
}

/// Whether a text is made of such characters alone.
pub open spec fn is_file_name(s: Seq<char>) -> bool {
    forall|i: int| 0 <= i < s.len() ==> is_file_char(#[trigger] s[i])
}

proof fn lemma_file_chars(s: Seq<char>)
    ensures
        is_file_name(file_chars(s)),
    decreases s.len(),
{
    if s.len() > 0 {
        lemma_file_chars(s.drop_last());
        let before = file_chars(s.drop_last());
        let now = file_chars(s);
        assert forall|i: int| 0 <= i < now.len() implies is_file_char(#[trigger] now[i]) by {
            if i < before.len() {
                assert(now[i] == before[i]);
            }
        }
    }
}

proof fn lemma_trimmed_file_name(f: Seq<char>)
    requires
        is_file_name(f),
    ensures
        is_file_name(trimmed_of(f, '-')),
{
    let dash = crate::text::only('-');
    let a = crate::text::without_front(f, dash);
    let t = trimmed_of(f, '-');
    crate::text::lemma_trim_ends(f, dash);
    crate::text::lemma_trim_ends(a, dash);
    assert forall|i: int| 0 <= i < t.len() implies is_file_char(#[trigger] t[i]) by {
        assert(t[i] == a[i]);
        assert(a[i] == f[f.len() - a.len() + i]);
    }
}

/// Whatever a channel is called, and on whatever day, its file's name is short and
/// made of letters, digits, dashes, underscores and plus signs alone.
pub proof fn file_name_is_safe(s: Seq<char>, date: Seq<char>)
    requires
        is_date(date),
    ensures
        0 < file_name(s, date).len() <= 64,
        forall|i: int|
            0 <= i < file_name(s, date).len() ==> is_file_char(#[trigger] file_name(s, date)[i])
                || file_name(s, date)[i] == '+',
{
    lemma_file_chars(s);
    lemma_trimmed_file_name(file_chars(s));
}

/// The name of an exported file, of a channel's name and number.
pub open spec fn export_name(name: Seq<char>, channel_id: nat) -> Seq<char> {
    "discord-thread-"@ + name + "-"@ + decimal(channel_id) + ".txt"@
}

/// The name of an exported file.
pub fn export_filename(channel_id: u64, channel_name: &str) -> (r: String)
    ensures
        exists|date: Seq<char>|
            is_date(date) && r@ == #[trigger] export_name(
                file_name(channel_name@, date),
                channel_id as nat,
            ),
{
    let mut out = "discord-thread-".to_owned();
    let name = sanitize_filename_component(channel_name);
    out.append(name.as_str());
    out.append("-");
    append_decimal(&mut out, channel_id);
    out.append(".txt");
    proof {
        let date = if kept_name(channel_name@).len() == 0 {
            name@
        } else {
            Seq::new(8, |i: int| '0')
        };
        assert(file_name(channel_name@, date) == name@);
        assert(out@ == export_name(file_name(channel_name@, date), channel_id as nat));
    }
    out
}

/// An export: the file, and what is told of it.
#[derive(Debug)]
pub struct ExportResult {
    pub filename: String,
    pub transcript: String,
    /// How many messages were fetched.
    pub fetched: usize,
    /// How many of them are in the file.
    pub written: usize,
    /// Whether older messages were left behind.
    pub hit_cap: bool,
    /// Whether the file was cut to its size.
    pub byte_truncated: bool,
}

/// The export that a run comes to.
pub fn export_channel_messages(
    run: ExportRun,
    channel_id: u64,
    channel_name: &str,
    attachment_size_limit: u32,
) -> (r: ExportResult)
    ensures
        exists|date: Seq<char>|
            is_date(date) && r.filename@ == #[trigger] export_name(
                file_name(channel_name@, date),
                channel_id as nat,
            ),
        r.fetched == run.fetched().len(),
        r.hit_cap == run.is_cut(),
        (r.transcript@, r.written as nat, r.byte_truncated) == assembled(
            export_header(channel_id as nat, channel_name@, run.fetched().len()),
            run.fetched().reverse().map_values(|m: ExportMessage| message_text(m)),
            budget_of(attachment_size_limit as nat),
        ),
{
    let (messages, hit_cap) = run.finish();
    let filename = export_filename(channel_id, channel_name);
    let max_bytes = export_budget(attachment_size_limit);
    let (transcript, written, byte_truncated) = format_thread_export(
        channel_id,
        channel_name,
        &messages,
        max_bytes,
    );
    ExportResult {
        filename,
        transcript,
        fetched: messages.len(),
        written,
        hit_cap,
        byte_truncated,
    }
}

// ---------------------------------------------------------------------------
// History as context
// ---------------------------------------------------------------------------

/// Which part of a channel's history is read.
#[derive(Debug, Clone, Copy, PartialEq, Eq, Structural)]
pub enum HistorySelectionMode {
    Before10,
    Before20,
    ToNow,
    Recent100,
}

impl HistorySelectionMode {
    pub open spec fn word(self) -> Seq<char> {
        match self {
            HistorySelectionMode::Before10 => "b10"@,
            HistorySelectionMode::Before20 => "b20"@,
            HistorySelectionMode::ToNow => "tonow"@,
            HistorySelectionMode::Recent100 => "r100"@,
        }
    }

    pub open spec fn title(self) -> Seq<char> {
        match self {
            HistorySelectionMode::Before10 => "前 10 条"@,
            HistorySelectionMode::Before20 => "前 20 条"@,
            HistorySelectionMode::ToNow => "从这条到现在"@,
            HistorySelectionMode::Recent100 => "最近 100 条"@,
        }
    }

    /// The mode of a word.
    /// Which messages are asked for.
    pub open spec fn asked(self) -> HistoryRequest {
        match self {
            HistorySelectionMode::Before10 => HistoryRequest {
                side: Side::Before,
                limit: 10,
                with_target: true,
            },
            HistorySelectionMode::Before20 => HistoryRequest {
                side: Side::Before,
                limit: 20,
                with_target: true,
            },
            HistorySelectionMode::ToNow => HistoryRequest {
                side: Side::After,
                limit: 99,
                with_target: true,
            },
            HistorySelectionMode::Recent100 => HistoryRequest {
                side: Side::Latest,
                limit: 100,
                with_target: false,
            },
        }
    }

    pub open spec fn named(word: Seq<char>) -> Option<Self> {
        if word == "b10"@ {
            Some(HistorySelectionMode::Before10)
        } else if word == "b20"@ {
            Some(HistorySelectionMode::Before20)
        } else if word == "tonow"@ {
            Some(HistorySelectionMode::ToNow)
        } else if word == "r100"@ {
            Some(HistorySelectionMode::Recent100)
        } else {
            None
        }
    }

    pub fn code(&self) -> (r: &'static str)
        ensures
            r@ == self.word(),
    {
        match self {
            HistorySelectionMode::Before10 => "b10",
            HistorySelectionMode::Before20 => "b20",
            HistorySelectionMode::ToNow => "tonow",
            HistorySelectionMode::Recent100 => "r100",
        }
    }

    pub fn from_code(code: &str) -> (r: Option<Self>)
        ensures
            r == Self::named(code@),
    {
        if same(code, "b10") {
            Some(HistorySelectionMode::Before10)
        } else if same(code, "b20") {
            Some(HistorySelectionMode::Before20)
        } else if same(code, "tonow") {
            Some(HistorySelectionMode::ToNow)
        } else if same(code, "r100") {
            Some(HistorySelectionMode::Recent100)
        } else {
            None
        }
    }

    pub fn label(&self) -> (r: &'static str)
        ensures
            r@ == self.title(),
    {
        match self {
            HistorySelectionMode::Before10 => "前 10 条",
            HistorySelectionMode::Before20 => "前 20 条",
            HistorySelectionMode::ToNow => "从这条到现在",
            HistorySelectionMode::Recent100 => "最近 100 条",
        }
    }

    /// What is fetched for a mode: how many messages, on which side of the one
    /// that was picked, and whether that one belongs to them.
    pub fn request(&self) -> (r: HistoryRequest)
        ensures
            r == self.asked(),
    {
        match self {
            HistorySelectionMode::Before10 => HistoryRequest {
                side: Side::Before,
                limit: 10,
                with_target: true,
            },
            HistorySelectionMode::Before20 => HistoryRequest {
                side: Side::Before,
                limit: 20,
                with_target: true,
            },
            HistorySelectionMode::ToNow => HistoryRequest {
                side: Side::After,
                limit: 99,
                with_target: true,
            },
            HistorySelectionMode::Recent100 => HistoryRequest {
                side: Side::Latest,
                limit: 100,
                with_target: false,
            },
        }
    }
}

#[derive(Debug, Clone, Copy, PartialEq, Eq, Structural)]
pub enum Side {
    Before,
    After,
    Latest,
}

/// The messages to fetch.
#[derive(Debug, Clone, Copy, PartialEq, Eq, Structural)]
pub struct HistoryRequest {
    pub side: Side,
    pub limit: u8,
    pub with_target: bool,
}

/// A custom id: a prefix, a mode and a message.
pub open spec fn history_id(prefix: Seq<char>, mode: HistorySelectionMode, message: nat) -> Seq<char> {
    prefix + mode.word() + ":"@ + decimal(message)
}

/// The mode and the message in a custom id.
pub open spec fn read_history_id(prefix: Seq<char>, id: Seq<char>) -> Option<
    (HistorySelectionMode, nat),
> {
    if !begins(id, prefix) {
        None
    } else {
        match once(id.skip(prefix.len() as int), ':') {
            None => None,
            Some((word, message)) => match HistorySelectionMode::named(word) {
                None => None,
                Some(mode) => match unsigned(message, u64::MAX as nat) {
                    None => None,
                    Some(n) => Some((mode, n)),
                },
            },
        }
    }
}

fn make_history_id(prefix: &str, mode: HistorySelectionMode, message: u64) -> (r: String)
    ensures
        r@ == history_id(prefix@, mode, message as nat),
{
    let mut out = prefix.to_owned();
    out.append(mode.code());
    out.append(":");
    append_decimal(&mut out, message);
    out
}

fn parse_history_id(prefix: &str, id: &str) -> (r: Option<(HistorySelectionMode, u64)>)
    ensures
        match r {
            Some((m, n)) => read_history_id(prefix@, id@) == Some((m, n as nat)),
            None => read_history_id(prefix@, id@) is None,
        },
{
    let rest = match strip_prefix(id, prefix) {
        Some(rest) => rest,
        None => return None,
    };
    let (word, message) = match split_once(rest.as_str(), ':') {
        Some(x) => x,
        None => return None,
    };
    let mode = match HistorySelectionMode::from_code(word.as_str()) {
        Some(m) => m,
        None => return None,
    };
    match parse_u64(message.as_str()) {
        Some(n) => Some((mode, n)),
        None => None,
    }
}

/// The custom id of a button that asks for history.
pub fn history_button_id(mode: HistorySelectionMode, message: u64) -> (r: String)
    ensures
        r@ == history_id(HISTORY_BUTTON_PREFIX@, mode, message as nat),
{
    make_history_id(HISTORY_BUTTON_PREFIX, mode, message)
}

/// The custom id of the form that such a button opens.
pub fn history_modal_id(mode: HistorySelectionMode, message: u64) -> (r: String)
    ensures
        r@ == history_id(HISTORY_MODAL_PREFIX@, mode, message as nat),
{
    make_history_id(HISTORY_MODAL_PREFIX, mode, message)
}

pub fn parse_history_button_custom_id(custom_id: &str) -> (r: Option<(HistorySelectionMode, u64)>)
    ensures
        match r {
            Some((m, n)) => read_history_id(HISTORY_BUTTON_PREFIX@, custom_id@) == Some(
                (m, n as nat),
            ),
            None => read_history_id(HISTORY_BUTTON_PREFIX@, custom_id@) is None,
        },
{
    parse_history_id(HISTORY_BUTTON_PREFIX, custom_id)
}

pub fn parse_history_modal_custom_id(custom_id: &str) -> (r: Option<(HistorySelectionMode, u64)>)
    ensures
        match r {
            Some((m, n)) => read_history_id(HISTORY_MODAL_PREFIX@, custom_id@) == Some((m, n as nat)),
            None => read_history_id(HISTORY_MODAL_PREFIX@, custom_id@) is None,
        },
{
    parse_history_id(HISTORY_MODAL_PREFIX, custom_id)
}

/// A custom id reads back as the mode and the message that it was made of.
pub proof fn history_ids_read_back(prefix: Seq<char>, mode: HistorySelectionMode, message: nat)
    requires
        message <= u64::MAX,
    ensures
        read_history_id(prefix, history_id(prefix, mode, message)) == Some((mode, message)),
{
    reveal_strlit("b10");
    reveal_strlit("b20");
    reveal_strlit("tonow");
    reveal_strlit("r100");
    reveal_strlit(":");
    let id = history_id(prefix, mode, message);
    let word = mode.word();
    let n = prefix.len() as int;
    assert(id.subrange(0, n) =~= prefix);
    let rest = id.skip(n);
    assert(rest =~= word + ":"@ + decimal(message));
    crate::text::lemma_first_of(rest, ':');
    let k = word.len() as int;
    assert(rest[k] == ':');
    assert forall|i: int| 0 <= i < k implies rest[i] != ':' by {
        assert(rest[i] == word[i]);
    }
    assert(crate::text::first_of(rest, ':') == k);
    assert(rest.take(k) =~= word);
    assert(rest.skip(k + 1) =~= decimal(message));
    assert("b10"@[1] != "b20"@[1]);
    assert("b10"@.len() != "tonow"@.len());
    assert("b10"@.len() != "r100"@.len());
    assert("b20"@.len() != "tonow"@.len());
    assert("b20"@.len() != "r100"@.len());
    assert("tonow"@.len() != "r100"@.len());
    crate::text::decimal_reads_back(message, u64::MAX as nat);
}

/// A button that asks for history.
#[derive(Debug)]
pub struct HistoryButton {
    pub custom_id: String,
    pub label: String,
    /// Whether it stands out.
    pub primary: bool,
}

fn history_button(mode: HistorySelectionMode, message: u64, primary: bool) -> (r: HistoryButton)
    ensures
        r.custom_id@ == history_id(HISTORY_BUTTON_PREFIX@, mode, message as nat),
        r.label@ == mode.title(),
        r.primary == primary,
{
    HistoryButton {
        custom_id: history_button_id(mode, message),
        label: mode.label().to_owned(),
        primary,
    }
}

/// Whether a button asks for a mode of a message's history.
pub open spec fn asks_for(
    b: HistoryButton,
    mode: HistorySelectionMode,
    message: u64,
    primary: bool,
) -> bool {
    &&& b.custom_id@ == history_id(HISTORY_BUTTON_PREFIX@, mode, message as nat)
    &&& b.label@ == mode.title()
    &&& b.primary == primary
}

/// The buttons under a picked message: two rows of two.
pub fn build_history_buttons(message: u64) -> (r: Vec<Vec<HistoryButton>>)
    ensures
        r@.len() == 2,
        r@[0]@.len() == 2,
        r@[1]@.len() == 2,
        asks_for(r@[0]@[0], HistorySelectionMode::Before10, message, true),
        asks_for(r@[0]@[1], HistorySelectionMode::Before20, message, true),
        asks_for(r@[1]@[0], HistorySelectionMode::ToNow, message, false),
        asks_for(r@[1]@[1], HistorySelectionMode::Recent100, message, false),
{
    let mut first: Vec<HistoryButton> = Vec::new();
    first.push(history_button(HistorySelectionMode::Before10, message, true));
    first.push(history_button(HistorySelectionMode::Before20, message, true));
    let mut second: Vec<HistoryButton> = Vec::new();
    second.push(history_button(HistorySelectionMode::ToNow, message, false));
    second.push(history_button(HistorySelectionMode::Recent100, message, false));
    let mut rows: Vec<Vec<HistoryButton>> = Vec::new();
    rows.push(first);
    rows.push(second);
    rows
}

/// The title of the form that asks what to do with a mode's history.
pub fn history_modal_title(mode: HistorySelectionMode) -> (r: String)
    ensures
        r@ == "读取历史: "@ + mode.title(),
{
    let mut out = "读取历史: ".to_owned();
    out.append(mode.label());
    out
}

/// A field of a form: its id, and what was entered, if anything.
#[derive(Debug)]
pub struct FormField {
    pub custom_id: String,
    pub value: Option<String>,
}

/// What was entered in the first field of an id that holds anything.
pub open spec fn entered(fields: Seq<FormField>, id: Seq<char>) -> Option<Seq<char>>
    decreases fields.len(),
{
    if fields.len() == 0 {
        None
    } else if fields[0].custom_id@ == id && fields[0].value is Some {
        Some(fields[0].value->0@)
    } else {
        entered(fields.drop_first(), id)
    }
}

/// Looks a field up among those of a form, row by row.
pub fn modal_input_value(fields: &Vec<FormField>, input_id: &str) -> (r: Option<String>)
    ensures
        text_view(r) == entered(fields@, input_id@),
{
    let mut i: usize = 0;
    assert(fields@.skip(0) =~= fields@);
    while i < fields.len()
        invariant
            i <= fields@.len(),
            entered(fields@, input_id@) == entered(fields@.skip(i as int), input_id@),
        decreases fields@.len() - i,
    {
        assert(fields@.skip(i as int)[0] == fields@[i as int]);
        assert(fields@.skip(i as int).drop_first() =~= fields@.skip(i + 1));
        if same(fields[i].custom_id.as_str(), input_id) {
            if let Some(v) = &fields[i].value {
                return Some(v.clone());
            }
        }
        i += 1;
    }
    None
}

/// Whether messages stand in the order of their numbers.
pub open spec fn in_order(messages: Seq<ExportMessage>) -> bool {
    forall|i: int, j: int|
        0 <= i < j < messages.len() ==> #[trigger] messages[i].id <= #[trigger] messages[j].id
}

proof fn lemma_insert_to_multiset(s: Seq<ExportMessage>, k: int, m: ExportMessage)
    requires
        0 <= k <= s.len(),
    ensures
        s.insert(k, m).to_multiset() == s.to_multiset().insert(m),
{
    broadcast use vstd::seq_lib::group_to_multiset_ensures;

    let t = s.insert(k, m);
    assert(t.remove(k) =~= s);
    assert(t[k] == m);
    assert(t.contains(m));
    assert(t.to_multiset() =~= t.to_multiset().remove(m).insert(m));
}

/// Puts messages into the order of their numbers.
pub fn sort_by_id(messages: Vec<ExportMessage>) -> (r: Vec<ExportMessage>)
    ensures
        in_order(r@),
        r@.to_multiset() == messages@.to_multiset(),
{
    let ghost all = messages@;
    let mut out: Vec<ExportMessage> = Vec::new();
    proof {
        assert(out@ =~= all.take(0));
    }
    for m in it: messages
        invariant
            it.seq() == all,
            in_order(out@),
            out@.to_multiset() == all.take(it.index()).to_multiset(),
            out@.len() <= it.index(),
    {
        let mut k = out.len();
        while k > 0 && out[k - 1].id > m.id
            invariant
                k <= out@.len(),
                forall|j: int| k <= j < out@.len() ==> #[trigger] out@[j].id > m.id,
            decreases k,
        {
            k -= 1;
        }
        proof {
            broadcast use vstd::seq_lib::group_to_multiset_ensures;

            lemma_insert_to_multiset(out@, k as int, m);
            assert(all.take(it.index() + 1) =~= all.take(it.index()).push(m));
        }
        out.insert(k, m);
    }
    assert(all.take(all.len() as int) =~= all);
    out
}

/// The header of a channel's history.
pub open spec fn history_header(channel_id: nat, mode: HistorySelectionMode, count: nat) -> Seq<char> {
    "<discord_history>\nSource channel: "@ + decimal(channel_id) + "\nSelection: "@ + mode.title()
        + "\nMessages: "@ + decimal(count) + "\n\n"@
}

/// A channel's history as context for the agent.
pub open spec fn history_block(
    channel_id: nat,
    messages: Seq<ExportMessage>,
    mode: HistorySelectionMode,
) -> Seq<char> {
    let (body, _, cut) = assembled(
        history_header(channel_id, mode, messages.len()),
        messages.map_values(|m: ExportMessage| message_text(m)),
        CONTEXT_HISTORY_PROMPT_BYTES as nat,
    );
    if cut {
        body + "\n[History truncated to fit prompt budget]\n</discord_history>"@
    } else {
        body + "</discord_history>"@
    }
}

pub fn render_history_block(
    channel_id: u64,
    messages: &Vec<ExportMessage>,
    mode: HistorySelectionMode,
) -> (r: String)
    ensures
        r@ == history_block(channel_id as nat, messages@, mode),
{
    let mut header = "<discord_history>\nSource channel: ".to_owned();
    append_decimal(&mut header, channel_id);
    header.append("\nSelection: ");
    header.append(mode.label());
    header.append("\nMessages: ");
    append_decimal(&mut header, messages.len() as u64);
    header.append("\n\n");
    let entries = format_all(messages);
    let (body, _, truncated) = assemble_export(
        header.as_str(),
        entries.as_slice(),
        CONTEXT_HISTORY_PROMPT_BYTES,
    );
    let mut out = body;
    if truncated {
        out.append("\n[History truncated to fit prompt budget]\n</discord_history>");
    } else {
        out.append("</discord_history>");
    }
    out
}

/// A text without white space around it, or what stands in for an empty one.
pub open spec fn or_default(s: Seq<char>, fallback: Seq<char>) -> Seq<char> {
    if blank(s) {
        fallback
    } else {
        trimmed(s)
    }
}

fn text_or(s: &str, fallback: &str) -> (r: String)
    ensures
        r@ == or_default(s@, fallback@),
{
    if is_blank(s) {
        fallback.to_owned()
    } else {
        trim(s).to_owned()
    }
}

/// The prompt that goes with a channel's history.
pub open spec fn history_prompt(
    content: Seq<char>,
    summary: Seq<char>,
    mode: HistorySelectionMode,
    user_prompt: Seq<char>,
) -> Seq<char> {
    "A user selected a Discord message and asked you to read surrounding history.\nSelection mode: "@
        + mode.title()
        + ".\nTreat the <discord_history> block as authoritative background context.\nUser instruction:\n"@
        + or_default(user_prompt, "No extra instruction provided."@)
        + "\n\nSelected message text:\n"@ + or_default(content, "(no text on selected message)"@)
        + "\n\nSelected message detail:\n"@ + without_back(summary, white())
        + "\nIf the selected message already contains a clear request, answer it directly using the history.\nOtherwise, briefly acknowledge that the context is loaded and ask one concise follow-up question."@
}

pub fn build_history_prompt(
    target_content: &str,
    target_summary: &str,
    mode: HistorySelectionMode,
    user_prompt: &str,
) -> (r: String)
    ensures
        r@ == history_prompt(target_content@, target_summary@, mode, user_prompt@),
{
    let mut out =
        "A user selected a Discord message and asked you to read surrounding history.\nSelection mode: ".to_owned();
    out.append(mode.label());
    out.append(
        ".\nTreat the <discord_history> block as authoritative background context.\nUser instruction:\n",
    );
    out.append(text_or(user_prompt, "No extra instruction provided.").as_str());
    out.append("\n\nSelected message text:\n");
    out.append(text_or(target_content, "(no text on selected message)").as_str());
    out.append("\n\nSelected message detail:\n");
    out.append(trim_end(target_summary));
    out.append(
        "\nIf the selected message already contains a clear request, answer it directly using the history.\nOtherwise, briefly acknowledge that the context is loaded and ask one concise follow-up question.",
    );
    out
}

/// What the title of a thread for a picked message is made of.
pub fn thread_seed(content: &str) -> (r: String)
    ensures
        r@ == (if blank(content@) {
            "read context"@
        } else {
            content@
        }),
{
    if is_blank(content) {
        "read context".to_owned()
    } else {
        content.to_owned()
    }
}

/// What reading history replies: what is read, and where.
pub fn history_reply(mode: HistorySelectionMode, is_dm: bool, in_thread: bool, channel_id: &str, has_parent: bool) -> (r:
    String)
    ensures
        r@ == "已读取 `"@ + mode.title() + "` 历史，正在 "@ + (if is_dm {
            "this DM"@
        } else if has_parent || in_thread {
            "<#"@ + channel_id@ + ">"@
        } else {
            "this thread"@
        }) + " 中加载上下文。"@,
{
    let mut out = "已读取 `".to_owned();
    out.append(mode.label());
    out.append("` 历史，正在 ");
    let ghost head = out@;
    if is_dm {
        out.append("this DM");
    } else if has_parent || in_thread {
        out.append("<#");
        out.append(channel_id);
        out.append(">");
        assert(out@ =~= head + ("<#"@ + channel_id@ + ">"@));
    } else {
        out.append("this thread");
    }
    out.append(" 中加载上下文。");
    out
}

/// What the agent gets for a picked message: the prompt, and the history.
#[derive(Debug)]
pub struct HistoryPlan {
    pub prompt: String,
    pub history: String,
    /// Whether the message's own channel is answered in, and no thread is made.
    pub in_place: bool,
}

/// What is said where history cannot be read.
pub open spec fn history_refusal(
    place: Option<Place>,
    history: Result<Vec<ExportMessage>, String>,
) -> Option<Seq<char>> {
    if place is None {
        Some("⚠️ This channel is not allowed."@)
    } else {
        match history {
            Err(e) => Some("⚠️ Failed to read message history: "@ + e@),
            Ok(messages) => if messages@.len() == 0 {
                Some("⚠️ No history messages found."@)
            } else {
                None
            },
        }
    }
}

/// Decides what becomes of a picked message: its channel must be allowed, and some
/// history must have been read. The history goes to the agent in order.
pub fn handle_history_modal(
    target: &ExportMessage,
    channel_id: u64,
    place: Option<Place>,
    history: Result<Vec<ExportMessage>, String>,
    mode: HistorySelectionMode,
    user_prompt: &str,
) -> (r: Result<HistoryPlan, String>)
    ensures
        match r {
            Err(e) => history_refusal(place, history) == Some(e@),
            Ok(plan) => {
                &&& history_refusal(place, history) is None
                &&& plan.in_place == (place->0.in_thread || place->0.is_dm)
                &&& plan.prompt@ == history_prompt(
                    target.content@,
                    message_text(*target),
                    mode,
                    user_prompt@,
                )
                &&& exists|sorted: Seq<ExportMessage>|
                    {
                        &&& #[trigger] in_order(sorted)
                        &&& sorted.to_multiset() == history->Ok_0@.to_multiset()
                        &&& plan.history@ == history_block(channel_id as nat, sorted, mode)
                    }
            },
        },
{
    let place = match place {
        Some(p) => p,
        None => return Err("⚠️ This channel is not allowed.".to_owned()),
    };
    let messages = match history {
        Ok(messages) => messages,
        Err(e) => {
            let mut out = "⚠️ Failed to read message history: ".to_owned();
            out.append(e.as_str());
            return Err(out);
        },
    };
    if messages.len() == 0 {
        return Err("⚠️ No history messages found.".to_owned());
    }
    let sorted = sort_by_id(messages);
    let summary = format_export_message(target);
    let history = render_history_block(channel_id, &sorted, mode);
    let prompt = build_history_prompt(target.content.as_str(), summary.as_str(), mode, user_prompt);
    assert(in_order(sorted@));
    Ok(HistoryPlan { prompt, history, in_place: place.in_thread || place.is_dm })
}

} // verus!
