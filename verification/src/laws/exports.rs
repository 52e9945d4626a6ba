//! What is exported of a thread, and what is read of its history.

use vstd::prelude::*;
use crate::discord_gate::{ChannelKind, Gate, Place};
use crate::export::{
    assembled, attachment_line, attachment_lines, budget_of, cap_of, entered, export_header, export_told,
    export_name, export_start, file_char, file_chars, file_name, fitting, goes_on, has_probed,
    has_taken, history_block, history_header, history_prompt, history_refusal, is_file_char,
    may_export, message_text, or_default, read_history_id,
    requested_filter, run_together, snowflake_keeps_time,
    within, ExportAttachment, ExportFilter, ExportMessage, ExportRun, FetchStep, FormField,
    HistorySelectionMode, DISCORD_EPOCH_MS,
};
use crate::text::{
    begins, blank, byte_len, decimal, decimal_reads_back, ends, is_digit, is_letter, is_white_space,
    lemma_byte_len_add, lemma_occurs_in_part, lemma_occurs_within, lemma_parts_stand, occurs,
    once, stands_at, trimmed, unsigned,
};

verus! {

// ---------------------------------------------------------------------------
// Filters
// ---------------------------------------------------------------------------

/// A filter by number, by message or for everything is the one asked for. Two
/// filters at once are refused; without any, a hundred messages are exported.
pub proof fn filters_are_as_asked(n: i64, id: u64, now_ms: u64, days: Option<i64>)
    ensures
        1 <= n <= 5000 ==> requested_filter(Some(n), None, None, false, now_ms) == Ok::<
            ExportFilter,
            Seq<char>,
        >(ExportFilter::Limit(n as usize)),
        !(1 <= n <= 5000) ==> requested_filter(Some(n), None, None, false, now_ms) is Err,
        id > 0 ==> requested_filter(None, Some(decimal(id as nat)), None, false, now_ms) == Ok::<
            ExportFilter,
            Seq<char>,
        >(ExportFilter::After(id)),
        requested_filter(None, None, None, true, now_ms) == Ok::<ExportFilter, Seq<char>>(
            ExportFilter::All,
        ),
        requested_filter(None, None, None, false, now_ms) == Ok::<ExportFilter, Seq<char>>(
            ExportFilter::Limit(100),
        ),
        requested_filter(Some(n), Some(decimal(id as nat)), days, false, now_ms) is Err,
        requested_filter(Some(n), None, days, true, now_ms) is Err,
        requested_filter(None, Some(decimal(id as nat)), days, true, now_ms) is Err,
        days is Some ==> requested_filter(Some(n), None, days, false, now_ms) is Err,
        days is Some ==> requested_filter(None, None, days, true, now_ms) is Err,
        requested_filter(None, Some(decimal(0)), None, false, now_ms) is Err,
        forall|text: Seq<char>|
            unsigned(text, u64::MAX as nat) is None ==> #[trigger] requested_filter(
                None,
                Some(text),
                None,
                false,
                now_ms,
            ) is Err,
{
    decimal_reads_back(id as nat, u64::MAX as nat);
    decimal_reads_back(0, u64::MAX as nat);
}

/// A filter by days leaves out what was said before so many days ago, to the
/// millisecond; only one to 365 days can be asked for.
pub proof fn days_are_counted_back(days: i64, now_ms: u64)
    ensures
        !(1 <= days <= 365) ==> requested_filter(None, None, Some(days), false, now_ms) is Err,
        1 <= days <= 365 && DISCORD_EPOCH_MS <= now_ms - days * 86_400_000 < DISCORD_EPOCH_MS
            + 0x400_0000_0000 ==> (requested_filter(None, None, Some(days), false, now_ms) matches Ok(
            ExportFilter::After(id),
        ) && (id >> 22) + DISCORD_EPOCH_MS == now_ms - days * 86_400_000),
{
    if 1 <= days <= 365 && DISCORD_EPOCH_MS <= now_ms - days * 86_400_000 < DISCORD_EPOCH_MS
        + 0x400_0000_0000 {
        snowflake_keeps_time((now_ms - days * 86_400_000) as u64);
    }
}

/// What comes after a message has a greater id; a filter by message keeps
/// exactly that, and the others keep all.
pub proof fn filters_keep_what_came_after(id: u64, m: ExportMessage, n: usize)
    ensures
        within(ExportFilter::After(id), m) <==> m.id > id,
        within(ExportFilter::All, m),
        within(ExportFilter::Limit(n), m),
        cap_of(ExportFilter::Limit(n)) == n,
        cap_of(ExportFilter::All) == cap_of(ExportFilter::After(id)),
{
}

/// An export starts only for people who may use the bot, in a place that is
/// allowed; then its filter decides.
pub proof fn exports_need_permission(
    denied: bool,
    allowed: bool,
    filter: Result<ExportFilter, Seq<char>>,
)
    ensures
        export_start(denied, allowed, filter) is Ok <==> !denied && allowed && filter is Ok,
        !denied && allowed ==> export_start(denied, allowed, filter) == filter,
{
}

/// What may be exported is a thread that is open, or a direct conversation where
/// such are allowed; no channel outside threads is.
pub proof fn threads_and_conversations_are_exported(g: Gate, channel_id: u64, kind: ChannelKind)
    ensures
        kind is Private ==> may_export(g, channel_id, kind) == g.allow_dm,
        kind is Other ==> !may_export(g, channel_id, kind),
        kind matches ChannelKind::Guild { has_thread_metadata, parent_id, owner_id } ==> (may_export(
            g,
            channel_id,
            kind,
        ) <==> has_thread_metadata && (g.allow_all_channels || g.allowed_channels@.contains(channel_id)
            || (parent_id is Some && g.allowed_channels@.contains(parent_id->0)))),
{
}

/// An export stays a kilobyte below the size of a file, and has at least a
/// kilobyte; a larger size never leaves less room.
pub proof fn exports_have_room(size: nat, larger: nat)
    ensures
        budget_of(size) >= 1024,
        size >= 2048 ==> budget_of(size) + 1024 == size,
        size <= larger ==> budget_of(size) <= budget_of(larger),
{
}

// ---------------------------------------------------------------------------
// Fetching
// ---------------------------------------------------------------------------

/// An export fetches one to a hundred messages at a time, older than the oldest
/// it has seen, and never more than it still has room for. Once it is full it
/// fetches no more, and looks for one more message once before it ends.
pub proof fn fetching_stays_within_the_cap(before: ExportRun, after: ExportRun, step: FetchStep)
    requires
        goes_on(before, after, step),
        cap_of(before.filter_of()) <= usize::MAX,
    ensures
        step matches FetchStep::Fetch { before: from, limit } ==> {
            &&& 1 <= limit <= 100
            &&& before.fetched().len() + limit <= cap_of(before.filter_of())
            &&& limit == 100 || before.fetched().len() + limit == cap_of(before.filter_of())
            &&& from == before.oldest()
            &&& !before.is_done()
        },
        !before.is_done() && before.fetched().len() < cap_of(before.filter_of()) ==> step is Fetch,
        before.fetched().len() >= cap_of(before.filter_of()) ==> !(step is Fetch),
        !before.is_done() && before.fetched().len() >= cap_of(before.filter_of())
            && !before.was_probed() ==> (step matches FetchStep::Probe { before: from } && from
            == before.oldest()) && after.is_cut(),
        before.was_probed() ==> !(step is Probe),
        before.is_done() && !before.is_cut() ==> step is Finished,
        after.fetched() == before.fetched(),
{
}

/// Of a page, every message within the filter is kept, behind all that was
/// fetched before, in the order of the page; nothing else is. Fetching goes on
/// exactly if the page was full and all of it within the filter, and goes on
/// from its last message.
#[verifier::rlimit(40)]
#[verifier::spinoff_prover]
pub proof fn pages_are_taken_in(
    before: ExportRun,
    batch: Seq<ExportMessage>,
    limit: nat,
    after: ExportRun,
    i: int,
)
    requires
        has_taken(before, batch, limit, after),
        0 <= i < batch.len(),
    ensures
        within(before.filter_of(), batch[i]) ==> after.fetched().contains(batch[i]),
        before.fetched().len() <= after.fetched().len() <= before.fetched().len() + batch.len(),
        forall|k: int|
            0 <= k < before.fetched().len() ==> #[trigger] after.fetched()[k] == before.fetched()[k],
        forall|k: int|
            before.fetched().len() <= k < after.fetched().len() ==> batch.contains(
                #[trigger] after.fetched()[k],
            ) && within(before.filter_of(), after.fetched()[k]),
        after.oldest() == Some(batch.last().id),
        !within(before.filter_of(), batch[i]) ==> after.is_done(),
        batch.len() < limit ==> after.is_done(),
        !before.is_done() && batch.len() >= limit && (forall|k: int|
            0 <= k < batch.len() ==> within(before.filter_of(), #[trigger] batch[k])) ==> !after.is_done()
            && after.fetched() == before.fetched() + batch,
{
    let pick = |m: ExportMessage| within(before.filter_of(), m);
    let kept = batch.filter(pick);
    let n = before.fetched().len() as int;
    batch.lemma_filter_len(pick);
    if within(before.filter_of(), batch[i]) {
        batch.lemma_filter_contains(pick, i);
        let k = choose|k: int| 0 <= k < kept.len() && kept[k] == batch[i];
        assert(after.fetched()[n + k] == batch[i]);
    } else {
        lemma_something_dropped(batch, pick, i);
    }
    assert forall|k: int| n <= k < after.fetched().len() implies batch.contains(
        #[trigger] after.fetched()[k],
    ) && within(before.filter_of(), after.fetched()[k]) by {
        assert(after.fetched()[k] == kept[k - n]);
        batch.lemma_filter_pred(pick, k - n);
        assert(kept.contains(kept[k - n]));
        batch.lemma_filter_contains_rev(pick, kept[k - n]);
    }
    if forall|k: int| 0 <= k < batch.len() ==> within(before.filter_of(), #[trigger] batch[k]) {
        lemma_all_kept(batch, pick);
    }
}

proof fn lemma_something_dropped(
    batch: Seq<ExportMessage>,
    pick: spec_fn(ExportMessage) -> bool,
    i: int,
)
    requires
        0 <= i < batch.len(),
        !pick(batch[i]),
    ensures
        batch.filter(pick).len() < batch.len(),
    decreases batch.len(),
{
    reveal(Seq::filter);
    batch.drop_last().lemma_filter_len(pick);
    if i < batch.len() - 1 {
        lemma_something_dropped(batch.drop_last(), pick, i);
    }
}

proof fn lemma_all_kept(batch: Seq<ExportMessage>, pick: spec_fn(ExportMessage) -> bool)
    requires
        forall|k: int| 0 <= k < batch.len() ==> pick(#[trigger] batch[k]),
    ensures
        batch.filter(pick) == batch,
    decreases batch.len(),
{
    reveal(Seq::filter);
    if batch.len() > 0 {
        assert forall|k: int| 0 <= k < batch.len() - 1 implies pick(#[trigger] batch.drop_last()[k]) by {
            assert(batch.drop_last()[k] == batch[k]);
        }
        lemma_all_kept(batch.drop_last(), pick);
        assert(pick(batch[batch.len() - 1]));
        assert(batch.drop_last().push(batch.last()) =~= batch);
    }
}

/// An export that was full is found to have left something out exactly if there
/// is one more message that it would have had; where that could not be found
/// out, it says that it has.
pub proof fn probes_find_what_was_left_out(before: ExportRun, ids: Seq<u64>, after: ExportRun, i: int)
    requires
        before.is_cut(),
    ensures
        has_probed(before, None, after) ==> after.is_cut(),
        has_probed(before, Some(ids), after) && ids.len() == 0 ==> !after.is_cut(),
        has_probed(before, Some(ids), after) && !(before.filter_of() is After) && ids.len() > 0
            ==> after.is_cut(),
        has_probed(before, Some(ids), after) && 0 <= i < ids.len() && (before.filter_of() matches
            ExportFilter::After(id) && ids[i] > id) ==> after.is_cut(),
        has_probed(before, Some(ids), after) && (before.filter_of() matches ExportFilter::After(id)
            && forall|k: int| 0 <= k < ids.len() ==> #[trigger] ids[k] <= id) ==> !after.is_cut(),
        has_probed(before, Some(ids), after) ==> after.fetched() == before.fetched()
            && after.was_probed(),
{
}

// ---------------------------------------------------------------------------
// Texts
// ---------------------------------------------------------------------------

proof fn lemma_attachment_lines(list: Seq<ExportAttachment>, i: int)
    requires
        0 <= i < list.len(),
    ensures
        occurs(attachment_lines(list), attachment_line(list[i])),
    decreases list.len(),
{
    let e = Seq::<char>::empty();
    let front = attachment_lines(list.drop_last());
    if i == list.len() - 1 {
        lemma_parts_stand(front, attachment_line(list[i]), e);
        assert(front + attachment_line(list[i]) + e =~= attachment_lines(list));
    } else {
        lemma_attachment_lines(list.drop_last(), i);
        lemma_occurs_within(e, front, attachment_line(list.last()), attachment_line(list[i]));
        assert(e + front + attachment_line(list.last()) =~= attachment_lines(list));
    }
}

#[verifier::rlimit(40)]
#[verifier::spinoff_prover]
proof fn lemma_attachment_line(a: ExportAttachment)
    ensures
        occurs(attachment_line(a), a.filename@),
        occurs(attachment_line(a), a.url@),
{
    let t = match a.content_type {
        Some(t) => t@,
        None => "unknown"@,
    };
    let line = attachment_line(a);
    let mid = " ("@ + decimal(a.size as nat) + " bytes, "@ + t + "): "@;
    lemma_parts_stand("[attachment] "@, a.filename@, mid + a.url@ + "\n"@);
    assert("[attachment] "@ + a.filename@ + (mid + a.url@ + "\n"@) =~= line);
    lemma_parts_stand("[attachment] "@ + a.filename@ + mid, a.url@, "\n"@);
    assert(("[attachment] "@ + a.filename@ + mid) + a.url@ + "\n"@ =~= line);
}

/// An exported message holds what was said, who said it and when.
#[verifier::rlimit(40)]
#[verifier::spinoff_prover]
pub proof fn exported_messages_are_whole(m: ExportMessage)
    ensures
        occurs(message_text(m), m.author_name@),
        occurs(message_text(m), m.content@),
        occurs(message_text(m), m.timestamp@),
        occurs(message_text(m), "("@ + decimal(m.author_id as nat) + ")"@),
{
    let bot = if m.author_is_bot {
        " [bot]"@
    } else {
        Seq::<char>::empty()
    };
    let body = if m.content@.len() == 0 {
        "(no text)\n"@
    } else {
        m.content@ + "\n"@
    };
    let id = decimal(m.author_id as nat);
    let last = attachment_lines(m.attachments@) + "\n"@;
    let t = "["@ + m.timestamp@ + "] "@ + m.author_name@ + bot + " ("@ + id + ")\n"@ + body + last;
    assert(message_text(m) =~= t);
    lemma_message_parts(m.timestamp@, m.author_name@, bot, id, body, last);
    lemma_paren("["@ + m.timestamp@ + "] "@ + m.author_name@ + bot, id, body + last);
    assert(("["@ + m.timestamp@ + "] "@ + m.author_name@ + bot) + " ("@ + id + ")\n"@ + (body + last)
        =~= t);
    let e = Seq::<char>::empty();
    if m.content@.len() == 0 {
        lemma_parts_stand(e, m.content@, t);
        assert(e + m.content@ + t =~= t);
    } else {
        lemma_parts_stand(e, m.content@, "\n"@);
        assert(e + m.content@ + "\n"@ =~= body);
        lemma_occurs_in_part(t, body, m.content@);
    }
}

#[verifier::rlimit(40)]
#[verifier::spinoff_prover]
proof fn lemma_message_parts(
    time: Seq<char>,
    name: Seq<char>,
    bot: Seq<char>,
    id: Seq<char>,
    body: Seq<char>,
    last: Seq<char>,
)
    ensures
        ({
            let t = "["@ + time + "] "@ + name + bot + " ("@ + id + ")\n"@ + body + last;
            &&& occurs(t, time)
            &&& occurs(t, name)
            &&& occurs(t, body)
        }),
{
    let t = "["@ + time + "] "@ + name + bot + " ("@ + id + ")\n"@ + body + last;
    let one = "["@.len() as int;
    assert(t.subrange(one, one + time.len()) =~= time);
    assert(stands_at(t, time, one));
    let two = ("["@ + time + "] "@).len() as int;
    assert(t.subrange(two, two + name.len()) =~= name);
    assert(stands_at(t, name, two));
    let three = ("["@ + time + "] "@ + name + bot + " ("@ + id + ")\n"@).len() as int;
    assert(t.subrange(three, three + body.len()) =~= body);
    assert(stands_at(t, body, three));
}

proof fn lemma_paren(a: Seq<char>, id: Seq<char>, z: Seq<char>)
    ensures
        occurs(a + " ("@ + id + ")\n"@ + z, "("@ + id + ")"@),
{
    reveal_strlit(" (");
    reveal_strlit("(");
    reveal_strlit(")");
    reveal_strlit(")\n");
    let t = a + " ("@ + id + ")\n"@ + z;
    let said = "("@ + id + ")"@;
    let n = a.len() as int + 1;
    assert(t.subrange(n, n + said.len()) =~= said);
    assert(stands_at(t, said, n));
}

/// Every attachment of an exported message is listed by its name and where it
/// can be had.
#[verifier::rlimit(40)]
#[verifier::spinoff_prover]
pub proof fn exported_attachments_are_listed(m: ExportMessage, i: int)
    requires
        0 <= i < m.attachments@.len(),
    ensures
        occurs(message_text(m), m.attachments@[i].filename@),
        occurs(message_text(m), m.attachments@[i].url@),
{
    let lines = attachment_lines(m.attachments@);
    let a = m.attachments@[i];
    lemma_attachment_lines(m.attachments@, i);
    lemma_attachment_line(a);
    lemma_occurs_in_part(lines, attachment_line(a), a.filename@);
    lemma_occurs_in_part(lines, attachment_line(a), a.url@);
    let t = message_text(m);
    let front = t.take(t.len() - lines.len() - "\n"@.len());
    assert(t =~= front + lines + "\n"@);
    lemma_parts_stand(front, lines, "\n"@);
    lemma_occurs_in_part(t, lines, a.filename@);
    lemma_occurs_in_part(t, lines, a.url@);
}

// ---------------------------------------------------------------------------
// Size
// ---------------------------------------------------------------------------

/// As many messages are exported as fit, from the first on: those together with
/// what stands in front of them are within the size, and one more would not be.
#[verifier::rlimit(40)]
#[verifier::spinoff_prover]
pub proof fn as_much_is_exported_as_fits(front: Seq<char>, entries: Seq<Seq<char>>, max_bytes: nat)
    ensures
        fitting(byte_len(front), entries, max_bytes) <= entries.len(),
        byte_len(front) <= max_bytes ==> byte_len(
            front + run_together(entries.take(fitting(byte_len(front), entries, max_bytes) as int)),
        ) <= max_bytes,
        fitting(byte_len(front), entries, max_bytes) < entries.len() ==> byte_len(
            front + run_together(
                entries.take(fitting(byte_len(front), entries, max_bytes) as int + 1),
            ),
        ) > max_bytes,
    decreases entries.len(),
{
    if entries.len() == 0 {
        assert(entries.take(0) =~= Seq::<Seq<char>>::empty());
        assert(front + run_together(entries.take(0)) =~= front);
    } else {
        let first = entries[0];
        let rest = entries.drop_first();
        let next = front + first;
        lemma_byte_len_add(front, first);
        let n = fitting(byte_len(front), entries, max_bytes) as int;
        if byte_len(front) + byte_len(first) > max_bytes {
            assert(entries.take(0) =~= Seq::<Seq<char>>::empty());
            assert(front + run_together(entries.take(0)) =~= front);
            lemma_run_first(entries, 1);
            assert(rest.take(0) =~= Seq::<Seq<char>>::empty());
            assert(front + run_together(entries.take(1)) =~= next);
        } else {
            as_much_is_exported_as_fits(next, rest, max_bytes);
            lemma_run_first(entries, n);
            assert(front + run_together(entries.take(n)) =~= next + run_together(rest.take(n - 1)));
            if n < entries.len() {
                lemma_run_first(entries, n + 1);
                assert(front + run_together(entries.take(n + 1)) =~= next + run_together(
                    rest.take(n),
                ));
            }
        }
    }
}

proof fn lemma_run_first(entries: Seq<Seq<char>>, n: int)
    requires
        0 < n <= entries.len(),
    ensures
        run_together(entries.take(n)) == entries[0] + run_together(entries.drop_first().take(n - 1)),
    decreases n,
{
    let rest = entries.drop_first();
    if n == 1 {
        assert(entries.take(1).drop_last() =~= Seq::<Seq<char>>::empty());
        assert(rest.take(0) =~= Seq::<Seq<char>>::empty());
        assert(run_together(entries.take(1)) =~= entries[0] + run_together(rest.take(0)));
    } else {
        lemma_run_first(entries, n - 1);
        assert(entries.take(n).drop_last() =~= entries.take(n - 1));
        assert(rest.take(n - 1).drop_last() =~= rest.take(n - 2));
        assert(run_together(entries.take(n)) =~= entries[0] + run_together(rest.take(n - 1)));
    }
}

/// An export begins with its header and has the messages behind it, as many as
/// it says and in their order. Whether something was left out is told.
#[verifier::rlimit(40)]
#[verifier::spinoff_prover]
pub proof fn exports_begin_with_the_header(header: Seq<char>, entries: Seq<Seq<char>>, max_bytes: nat)
    ensures
        ({
            let (text, written, cut) = assembled(header, entries, max_bytes);
            &&& written <= entries.len()
            &&& cut <==> written < entries.len()
            &&& begins(text, header + run_together(entries.take(written as int)))
            &&& !cut ==> text == header + run_together(entries)
        }),
{
    as_much_is_exported_as_fits(header, entries, max_bytes);
    let (text, written, cut) = assembled(header, entries, max_bytes);
    let body = header + run_together(entries.take(written as int));
    assert(text.subrange(0, body.len() as int) =~= body);
    if !cut {
        assert(entries.take(written as int) =~= entries);
    }
}

/// The header of an export names the channel and tells how many messages there
/// are.
#[verifier::rlimit(40)]
#[verifier::spinoff_prover]
pub proof fn export_headers_tell_the_count(channel_id: nat, name: Seq<char>, count: nat)
    ensures
        occurs(export_header(channel_id, name, count), name + " ("@ + decimal(channel_id) + ")"@),
        occurs(export_header(channel_id, name, count), "Messages: "@ + decimal(count) + "\n"@),
{
    let t = export_header(channel_id, name, count);
    reveal_strlit("\n\n");
    reveal_strlit("\n");
    reveal_strlit("Messages: ");
    reveal_strlit(")\nMessages: ");
    reveal_strlit(")");
    let said = name + " ("@ + decimal(channel_id) + ")"@;
    let first = "Discord thread export\nChannel: "@;
    let n = first.len() as int;
    assert(t.subrange(n, n + said.len()) =~= said);
    assert(stands_at(t, said, n));
    let count_line = "Messages: "@ + decimal(count) + "\n"@;
    let m = n + said.len() + 1;
    assert(t.subrange(m, m + count_line.len()) =~= count_line);
    assert(stands_at(t, count_line, m));
}

// ---------------------------------------------------------------------------
// File names
// ---------------------------------------------------------------------------

/// The name of a file is made character by character: letters, digits, dashes
/// and underscores stay, white space, dots and slashes become dashes, and
/// anything else is left out.
#[verifier::rlimit(40)]
#[verifier::spinoff_prover]
pub proof fn file_names_are_made_by_character(a: Seq<char>, b: Seq<char>, c: char)
    ensures
        file_chars(a + b) == file_chars(a) + file_chars(b),
        is_letter(c) || is_digit(c) || c == '-' || c == '_' ==> file_chars(seq![c]) == seq![c],
        is_white_space(c) || c == '.' || c == '/' ==> file_chars(seq![c]) == seq!['-'],
        !(is_letter(c) || is_digit(c) || c == '-' || c == '_' || is_white_space(c) || c == '.' || c
            == '/') ==> file_chars(seq![c]).len() == 0,
    decreases b.len(),
{
    reveal_with_fuel(file_chars, 2);
    assert(seq![c].drop_last() =~= Seq::<char>::empty());
    assert(file_chars(Seq::<char>::empty()) =~= Seq::<char>::empty());
    if file_char(c) is Some {
        assert(file_chars(seq![c]) =~= seq![file_char(c)->0]);
    }
    if b.len() == 0 {
        assert(a + b =~= a);
        assert(file_chars(a) + file_chars(b) =~= file_chars(a));
    } else {
        file_names_are_made_by_character(a, b.drop_last(), c);
        assert((a + b).drop_last() =~= a + b.drop_last());
        assert((a + b).last() == b.last());
        assert(file_chars(a + b) =~= file_chars(a) + file_chars(b));
    }
}

/// A name that can be a file's is kept, up to sixty-four characters, where it
/// has no dash at its ends; the other name is used only where nothing is left.
pub proof fn good_file_names_are_kept(s: Seq<char>, fallback: Seq<char>)
    requires
        s.len() > 0,
        forall|i: int| 0 <= i < s.len() ==> is_file_char(#[trigger] s[i]),
        s[0] != '-',
        s.last() != '-',
    ensures
        s.len() <= 64 ==> file_name(s, fallback) == s,
        s.len() > 64 ==> file_name(s, fallback) == s.take(64),
{
    lemma_file_chars_kept(s);
}

proof fn lemma_file_chars_kept(s: Seq<char>)
    requires
        forall|i: int| 0 <= i < s.len() ==> is_file_char(#[trigger] s[i]),
    ensures
        file_chars(s) == s,
    decreases s.len(),
{
    if s.len() > 0 {
        assert forall|i: int| 0 <= i < s.drop_last().len() implies is_file_char(
            #[trigger] s.drop_last()[i],
        ) by {
            assert(s.drop_last()[i] == s[i]);
        }
        lemma_file_chars_kept(s.drop_last());
        assert(is_file_char(s[s.len() - 1]));
        assert(s.drop_last().push(s.last()) =~= s);
    }
}

/// The file of an export is named by the channel's name and its id.
pub proof fn export_files_are_named_by_channel(name: Seq<char>, channel_id: nat)
    ensures
        begins(export_name(name, channel_id), "discord-thread-"@),
        ends(export_name(name, channel_id), "-"@ + decimal(channel_id) + ".txt"@),
        occurs(export_name(name, channel_id), name),
{
    let t = export_name(name, channel_id);
    let last = "-"@ + decimal(channel_id) + ".txt"@;
    lemma_parts_stand("discord-thread-"@, name, last);
    assert("discord-thread-"@ + name + last =~= t);
}

// ---------------------------------------------------------------------------
// History
// ---------------------------------------------------------------------------

/// The ways to choose history have words and titles of their own, and a word
/// names the way it belongs to.
#[verifier::rlimit(40)]
#[verifier::spinoff_prover]
pub proof fn history_choices_are_told_apart(a: HistorySelectionMode, b: HistorySelectionMode, w: Seq<char>)
    ensures
        HistorySelectionMode::named(a.word()) == Some(a),
        a.word() == b.word() ==> a == b,
        a.title() == b.title() ==> a == b,
        HistorySelectionMode::named(w) matches Some(m) ==> m.word() == w,
{
    reveal_strlit("b10");
    reveal_strlit("b20");
    reveal_strlit("tonow");
    reveal_strlit("r100");
    assert("b10"@[1] == '1' && "b20"@[1] == '2');
    assert("b10"@.len() == 3 && "b20"@.len() == 3 && "tonow"@.len() == 5 && "r100"@.len() == 4);
    reveal_strlit("前 10 条");
    reveal_strlit("前 20 条");
    reveal_strlit("从这条到现在");
    reveal_strlit("最近 100 条");
    assert("前 10 条"@[2] == '1' && "前 20 条"@[2] == '2');
    assert("前 10 条"@[0] == '前' && "前 20 条"@[0] == '前' && "从这条到现在"@[0] == '从'
        && "最近 100 条"@[0] == '最');
}

/// What is chosen of the history is asked for as its title says: so many messages
/// before the selected one, with it, or from it on, or the latest.
#[verifier::rlimit(40)]
#[verifier::spinoff_prover]
pub proof fn history_is_asked_for_as_titled(m: HistorySelectionMode)
    ensures
        m.asked().limit >= 1,
        m.asked().limit <= 100,
        m.asked().with_target <==> !(m.asked().side is Latest),
        m.asked().side is Latest <==> m == HistorySelectionMode::Recent100,
        m.asked().side is After <==> m == HistorySelectionMode::ToNow,
        m == HistorySelectionMode::Before10 || m == HistorySelectionMode::Before20
            || m == HistorySelectionMode::Recent100 ==> occurs(
            m.title(),
            decimal(m.asked().limit as nat),
        ),
        m.asked().with_target ==> m.asked().limit < 100,
{
    reveal_strlit("前 10 条");
    reveal_strlit("前 20 条");
    reveal_strlit("最近 100 条");
    reveal_with_fuel(decimal, 3);
    assert(decimal(10) =~= seq!['1', '0']);
    assert(decimal(20) =~= seq!['2', '0']);
    assert(decimal(100) =~= seq!['1', '0', '0']);
    assert("前 10 条"@.subrange(2, 4) =~= decimal(10));
    assert(stands_at("前 10 条"@, decimal(10), 2));
    assert("前 20 条"@.subrange(2, 4) =~= decimal(20));
    assert(stands_at("前 20 条"@, decimal(20), 2));
    assert("最近 100 条"@.subrange(3, 6) =~= decimal(100));
    assert(stands_at("最近 100 条"@, decimal(100), 3));
}

/// People are told how many messages were exported; and where messages were left
/// out, because there were too many or they were too large, how many were
/// fetched.
#[verifier::rlimit(40)]
#[verifier::spinoff_prover]
pub proof fn exports_tell_their_numbers(written: nat, fetched: nat, hit_cap: bool, cut: bool)
    ensures
        begins(export_told(written, fetched, hit_cap, cut), "Exported "@ + decimal(written)),
        hit_cap || cut ==> occurs(export_told(written, fetched, hit_cap, cut), decimal(fetched)),
        !hit_cap && !cut ==> export_told(written, fetched, hit_cap, cut) == "Exported "@ + decimal(
            written,
        ) + " messages."@,
{
    let a = "Exported "@ + decimal(written);
    let t = export_told(written, fetched, hit_cap, cut);
    let e = Seq::<char>::empty();
    let one = " Only the most recent "@;
    let two = " messages were fetched — older messages were not included."@;
    let three = " Transcript truncated to fit Discord's attachment size limit ("@;
    let last = " fetched messages included)."@;
    let f = decimal(fetched);
    let start = a + " messages."@;
    assert(t.subrange(0, a.len() as int) =~= a);
    if hit_cap {
        let n = (start + one).len() as int;
        assert(t.subrange(n, n + f.len()) =~= f);
        assert(stands_at(t, f, n));
    } else if cut {
        let n = (start + three + decimal(written) + " of "@).len() as int;
        assert(t.subrange(n, n + f.len()) =~= f);
        assert(stands_at(t, f, n));
    } else {
        assert(t =~= start);
    }
}

/// What is read as the choice of a history has the prefix, the word of that choice
/// and the number of the message; anything else is not read.
pub proof fn history_ids_are_read_strictly(prefix: Seq<char>, id: Seq<char>)
    ensures
        read_history_id(prefix, id) matches Some((mode, message)) ==> {
            &&& begins(id, prefix)
            &&& begins(id.skip(prefix.len() as int), mode.word() + ":"@)
        },
        !begins(id, prefix) ==> read_history_id(prefix, id) is None,
{
    if read_history_id(prefix, id) is Some {
        let rest = id.skip(prefix.len() as int);
        let (word, message) = once(rest, ':')->0;
        let (mode, n) = read_history_id(prefix, id)->0;
        crate::text::first_separator_parts(rest, ':');
        history_choices_are_told_apart(mode, mode, word);
        reveal_strlit(":");
        assert(":"@ =~= seq![':']);
        assert(rest == word + seq![':'] + message);
        let head = mode.word() + ":"@;
        assert(head =~= word + seq![':']);
        assert(rest.subrange(0, head.len() as int) =~= head);
    }
}

/// What was entered in a field of a form is the value of the first field of that
/// id that has one; there is none where no field of that id has one.
pub proof fn entries_are_found_by_id(fields: Seq<FormField>, id: Seq<char>, i: int)
    ensures
        0 <= i < fields.len() && fields[i].custom_id@ == id && fields[i].value is Some && (forall|
            k: int,
        |
            0 <= k < i ==> (#[trigger] fields[k]).custom_id@ != id || fields[k].value is None)
            ==> entered(fields, id) == Some(fields[i].value->0@),
        (forall|k: int|
            0 <= k < fields.len() ==> (#[trigger] fields[k]).custom_id@ != id || fields[k].value is None)
            ==> entered(fields, id) is None,
    decreases fields.len(),
{
    if fields.len() > 0 {
        let rest = fields.drop_first();
        entries_are_found_by_id(rest, id, i - 1);
        if i > 0 && i < fields.len() && (forall|k: int|
            0 <= k < i ==> (#[trigger] fields[k]).custom_id@ != id || fields[k].value is None) {
            assert(fields[0].custom_id@ != id || fields[0].value is None);
            assert forall|k: int| 0 <= k < i - 1 implies (#[trigger] rest[k]).custom_id@ != id
                || rest[k].value is None by {
                assert(rest[k] == fields[k + 1]);
            }
            assert(rest[i - 1] == fields[i]);
        }
        if forall|k: int|
            0 <= k < fields.len() ==> (#[trigger] fields[k]).custom_id@ != id || fields[k].value is None {
            assert(fields[0].custom_id@ != id || fields[0].value is None);
            assert forall|k: int| 0 <= k < rest.len() implies (#[trigger] rest[k]).custom_id@ != id
                || rest[k].value is None by {
                assert(rest[k] == fields[k + 1]);
            }
        }
    }
}

/// A block of history ends with its mark. It holds the texts of all messages,
/// in their order, where these fit.
#[verifier::rlimit(40)]
#[verifier::spinoff_prover]
pub proof fn history_blocks_hold_the_messages(
    channel_id: nat,
    messages: Seq<ExportMessage>,
    mode: HistorySelectionMode,
)
    ensures
        ends(history_block(channel_id, messages, mode), "</discord_history>"@),
        begins(history_block(channel_id, messages, mode), "<discord_history>\n"@),
        byte_len(
            history_header(channel_id, mode, messages.len()) + run_together(
                messages.map_values(|m: ExportMessage| message_text(m)),
            ),
        ) <= crate::export::CONTEXT_HISTORY_PROMPT_BYTES ==> occurs(
            history_block(channel_id, messages, mode),
            run_together(messages.map_values(|m: ExportMessage| message_text(m))),
        ),
{
    let head = history_header(channel_id, mode, messages.len());
    let entries = messages.map_values(|m: ExportMessage| message_text(m));
    let max = crate::export::CONTEXT_HISTORY_PROMPT_BYTES as nat;
    let t = history_block(channel_id, messages, mode);
    let (body, written, cut) = assembled(head, entries, max);
    exports_begin_with_the_header(head, entries, max);
    as_much_is_exported_as_fits(head, entries, max);
    let last = "</discord_history>"@;
    let e = Seq::<char>::empty();
    assert("\n[History truncated to fit prompt budget]\n</discord_history>"@
        =~= "\n[History truncated to fit prompt budget]\n"@ + last) by {
        reveal_strlit("\n[History truncated to fit prompt budget]\n</discord_history>");
        reveal_strlit("\n[History truncated to fit prompt budget]\n");
        reveal_strlit("</discord_history>");
    }
    let front = t.take(t.len() - last.len());
    assert(t =~= front + last);
    lemma_parts_stand(front, e, last);
    assert(front + e + last =~= t);
    lemma_history_head(channel_id, mode, messages.len());
    let first = "<discord_history>\n"@;
    let kept = head + run_together(entries.take(written as int));
    assert(t.subrange(0, first.len() as int) =~= body.subrange(0, first.len() as int));
    assert(body.subrange(0, first.len() as int) =~= kept.subrange(0, first.len() as int)) by {
        assert(body.subrange(0, kept.len() as int) =~= kept);
        assert(forall|i: int|
            0 <= i < first.len() ==> body[i] == body.subrange(0, kept.len() as int)[i]);
    }
    assert(kept.subrange(0, first.len() as int) =~= head.subrange(0, first.len() as int));
    if byte_len(head + run_together(entries)) <= max {
        if cut {
            lemma_run_longer(head, entries, written as int + 1, entries.len() as int);
            assert(entries.take(entries.len() as int) =~= entries);
        }
        lemma_parts_stand(head, run_together(entries), last);
    }
}

proof fn lemma_history_head(channel_id: nat, mode: HistorySelectionMode, count: nat)
    ensures
        begins(history_header(channel_id, mode, count), "<discord_history>\n"@),
{
    reveal_strlit("<discord_history>\nSource channel: ");
    reveal_strlit("<discord_history>\n");
    let t = history_header(channel_id, mode, count);
    let first = "<discord_history>\n"@;
    assert(t.subrange(0, first.len() as int) =~= first);
}

proof fn lemma_run_longer(head: Seq<char>, entries: Seq<Seq<char>>, a: int, b: int)
    requires
        0 <= a <= b <= entries.len(),
    ensures
        byte_len(head + run_together(entries.take(a))) <= byte_len(
            head + run_together(entries.take(b)),
        ),
    decreases b,
{
    if a < b {
        lemma_run_longer(head, entries, a, b - 1);
        assert(entries.take(b).drop_last() =~= entries.take(b - 1));
        let shorter = head + run_together(entries.take(b - 1));
        lemma_byte_len_add(shorter, entries[b - 1]);
        assert(head + run_together(entries.take(b)) =~= shorter + entries[b - 1]);
    }
}

/// A prompt about history holds what the person asks, what the selected message
/// says and which messages were chosen; where nothing was asked, or nothing is
/// said, it says so.
#[verifier::rlimit(40)]
#[verifier::spinoff_prover]
pub proof fn history_prompts_hold_the_request(
    content: Seq<char>,
    summary: Seq<char>,
    mode: HistorySelectionMode,
    user_prompt: Seq<char>,
)
    ensures
        !blank(user_prompt) ==> occurs(
            history_prompt(content, summary, mode, user_prompt),
            "User instruction:\n"@ + trimmed(user_prompt),
        ),
        !blank(content) ==> occurs(
            history_prompt(content, summary, mode, user_prompt),
            "Selected message text:\n"@ + trimmed(content),
        ),
        blank(user_prompt) ==> occurs(
            history_prompt(content, summary, mode, user_prompt),
            "No extra instruction provided."@,
        ),
        occurs(history_prompt(content, summary, mode, user_prompt), mode.title()),
{
    let t = history_prompt(content, summary, mode, user_prompt);
    let a =
        "A user selected a Discord message and asked you to read surrounding history.\nSelection mode: "@;
    let b =
        ".\nTreat the <discord_history> block as authoritative background context.\nUser instruction:\n"@;
    let asked = or_default(user_prompt, "No extra instruction provided."@);
    let c = "\n\nSelected message text:\n"@;
    let said = or_default(content, "(no text on selected message)"@);
    let n = (a + mode.title()).len() as int;
    lemma_parts_stand(a, mode.title(), t.skip(n));
    assert(a + mode.title() + t.skip(n) =~= t);
    let m = (a + mode.title() + b).len() as int;
    lemma_parts_stand(a + mode.title() + b, asked, t.skip(m + asked.len()));
    assert((a + mode.title() + b) + asked + t.skip(m + asked.len()) =~= t);
    assert(ends(b, "User instruction:\n"@)) by {
        reveal_strlit(
            ".\nTreat the <discord_history> block as authoritative background context.\nUser instruction:\n",
        );
        reveal_strlit("User instruction:\n");
        assert(b.subrange(b.len() - "User instruction:\n"@.len(), b.len() as int)
            =~= "User instruction:\n"@);
    }
    assert(ends(c, "Selected message text:\n"@)) by {
        reveal_strlit("\n\nSelected message text:\n");
        reveal_strlit("Selected message text:\n");
        assert(c.subrange(c.len() - "Selected message text:\n"@.len(), c.len() as int)
            =~= "Selected message text:\n"@);
    }
    lemma_labelled(a + mode.title(), b, "User instruction:\n"@, asked, t.skip(m + asked.len()));
    let k = (a + mode.title() + b + asked + c).len() as int;
    lemma_labelled(a + mode.title() + b + asked, c, "Selected message text:\n"@, said, t.skip(k + said.len()));
    assert((a + mode.title() + b + asked) + c + said + t.skip(k + said.len()) =~= t);
}

#[verifier::rlimit(40)]
#[verifier::spinoff_prover]
proof fn lemma_labelled(
    a: Seq<char>,
    b: Seq<char>,
    label: Seq<char>,
    value: Seq<char>,
    z: Seq<char>,
)
    requires
        ends(b, label),
    ensures
        occurs(a + b + value + z, label + value),
{
    let t = a + b + value + z;
    let n = a.len() + b.len() - label.len();
    assert(b.subrange(b.len() - label.len(), b.len() as int) == label);
    assert(t.subrange(n, n + label.len() + value.len()) =~= label + value) by {
        assert(forall|i: int|
            0 <= i < label.len() ==> #[trigger] label[i] == b[b.len() - label.len() + i]);
    }
    assert(stands_at(t, label + value, n));
}

/// History is refused only where the place is not allowed, it could not be read,
/// or there is none.
pub proof fn history_is_refused_for_a_reason(
    place: Option<Place>,
    history: Result<Vec<ExportMessage>, String>,
)
    ensures
        history_refusal(place, history) is None <==> place is Some && history is Ok
            && history->Ok_0@.len() > 0,
{
}

} // verus!
