//! How tools, texts, directives and progress are shown.

use vstd::prelude::*;
use crate::adapter::{
    after_line, block_text, directive_of, display, ended, flat_title, head_line, header, in_state,
    is_arrival, is_id_char, is_text, progress_line, session_key, short_title, tool_block,
    tool_lines, ChannelRef, ContentBlock, ProgressPhase, ToolState, ToolView,
};
use crate::config::ToolDisplay;
use crate::text::{
    begins, characters_are_replaced_apart, decimal, ends, first_of, found, free_of, is_digit,
    is_letter, is_white_space, joined, lemma_first_of, lemma_joined_holds, lemma_occurs_in_part,
    lemma_occurs_within, lemma_found, lemma_nothing_to_replace, lemma_parts_stand, lemma_trim_ends,
    occurs, parts_are_found_again, replaced, stands_at, trimmed, trimmed_text_is_kept, white,
    without_back,
};

verus! {

// ---------------------------------------------------------------------------
// Tools and text
// ---------------------------------------------------------------------------

proof fn lemma_lines_add(a: Seq<ToolView>, b: Seq<ToolView>)
    ensures
        tool_lines(a + b) == tool_lines(a) + tool_lines(b),
    decreases b.len(),
{
    if b.len() == 0 {
        assert(a + b =~= a);
        assert(tool_lines(b).len() == 0);
        assert(tool_lines(a) + tool_lines(b) =~= tool_lines(a));
    } else {
        lemma_lines_add(a, b.drop_last());
        assert((a + b).drop_last() =~= a + b.drop_last());
        assert((a + b).last() == b.last());
        assert(tool_lines(a + b) =~= tool_lines(a) + tool_lines(b));
    }
}

/// What stands for one tool: a sign for its state, and its title in backquotes.
proof fn lemma_line_of_one(t: ToolView)
    ensures
        t.state == ToolState::Running ==> tool_lines(seq![t]) == "🔧"@ + " `"@ + t.title + "`"@
            + "..."@ + "\n"@,
        t.state == ToolState::Completed ==> tool_lines(seq![t]) == "✅"@ + " `"@ + t.title + "`"@
            + "\n"@,
        t.state == ToolState::Failed ==> tool_lines(seq![t]) == "❌"@ + " `"@ + t.title + "`"@
            + "\n"@,
{
    let one = seq![t];
    let none = one.drop_last();
    assert(none.len() == 0);
    assert(tool_lines(none) =~= Seq::<char>::empty());
    assert(one.last() == t);
    assert(tool_lines(one) == tool_lines(none) + t.shown() + "\n"@);
    assert(tool_lines(one) =~= t.shown() + "\n"@);
}

proof fn lemma_line_occurs(tools: Seq<ToolView>, i: int)
    requires
        0 <= i < tools.len(),
    ensures
        occurs(tool_lines(tools), tool_lines(seq![tools[i]])),
{
    let one = seq![tools[i]];
    let a = tools.take(i);
    let b = tools.skip(i + 1);
    assert(tools =~= a + one + b);
    lemma_lines_add(a + one, b);
    lemma_lines_add(a, one);
    lemma_parts_stand(tool_lines(a), tool_lines(one), tool_lines(b));
}

/// The tools of a finished turn, shown in full, stand line by line in their
/// order: the lines of one list and then of another are the lines of both, and
/// the line of one tool has its title in backquotes, behind a check mark where
/// it is completed, a cross where it failed, and a wrench where it still runs.
pub proof fn finished_tools_are_listed(a: Seq<ToolView>, b: Seq<ToolView>, t: ToolView)
    ensures
        tool_block(a + b, false, ToolDisplay::Full) == tool_block(a, false, ToolDisplay::Full)
            + tool_block(b, false, ToolDisplay::Full),
        t.state == ToolState::Completed ==> tool_block(seq![t], false, ToolDisplay::Full) == "✅"@
            + " `"@ + t.title + "`"@ + "\n"@,
        t.state == ToolState::Failed ==> tool_block(seq![t], false, ToolDisplay::Full) == "❌"@
            + " `"@ + t.title + "`"@ + "\n"@,
        t.state == ToolState::Running ==> tool_block(seq![t], false, ToolDisplay::Full) == "🔧"@
            + " `"@ + t.title + "`"@ + "..."@ + "\n"@,
{
    lemma_lines_add(a, b);
    lemma_line_of_one(t);
}

/// Every tool of a finished turn, shown in full, is seen with its title and the
/// sign of its state, however many tools there are.
#[verifier::rlimit(40)]
#[verifier::spinoff_prover]
pub proof fn every_tool_is_seen(tools: Seq<ToolView>, text: Seq<char>, i: int)
    requires
        0 <= i < tools.len(),
    ensures
        ({
            let shown = display(tools, text, false, ToolDisplay::Full);
            match tools[i].state {
                ToolState::Running => occurs(shown, "🔧"@ + " `"@ + tools[i].title + "`"@ + "..."@ + "\n"@),
                ToolState::Completed => occurs(shown, "✅"@ + " `"@ + tools[i].title + "`"@ + "\n"@),
                ToolState::Failed => occurs(shown, "❌"@ + " `"@ + tools[i].title + "`"@ + "\n"@),
            }
        }),
{
    let t = tools[i];
    let block = tool_lines(tools);
    let line = tool_lines(seq![t]);
    lemma_line_occurs(tools, i);
    lemma_line_of_one(t);
    reveal_strlit("\n");
    let at = choose|k: int| stands_at(block, line, k);
    assert(line.len() > 0);
    assert(block.len() > 0);
    let e = Seq::<char>::empty();
    lemma_occurs_within(e, block, "\n"@ + without_back(text, white()), line);
    assert(e + block + ("\n"@ + without_back(text, white())) =~= display(
        tools,
        text,
        false,
        ToolDisplay::Full,
    ));
}

/// The tools come first and the text behind them, with a line between the two;
/// there is nothing else.
pub proof fn tools_come_before_the_text(
    tools: Seq<ToolView>,
    text: Seq<char>,
    streaming: bool,
    mode: ToolDisplay,
)
    ensures
        ({
            let shown = display(tools, text, streaming, mode);
            let block = tool_block(tools, streaming, mode);
            let alone = display(Seq::empty(), text, streaming, mode);
            &&& block.len() > 0 ==> shown == block + "\n"@ + alone
            &&& block.len() == 0 ==> shown == alone
        }),
{
    let none = Seq::<ToolView>::empty();
    lemma_no_tools(none, streaming, mode);
    let w = without_back(text, white());
    assert(display(none, text, streaming, mode) =~= w);
    let block = tool_block(tools, streaming, mode);
    if block.len() > 0 {
        assert(display(tools, text, streaming, mode) =~= block + "\n"@ + w);
    } else {
        assert(display(tools, text, streaming, mode) =~= w);
    }
}

/// The text of the agent stands whole at the end of what is shown, but for
/// white space at its own end, whatever tools there are and however they are
/// shown. It is all that is shown where tools are hidden, or where there are
/// none.
#[verifier::rlimit(40)]
#[verifier::spinoff_prover]
pub proof fn text_is_shown_whole(
    tools: Seq<ToolView>,
    text: Seq<char>,
    streaming: bool,
    mode: ToolDisplay,
)
    ensures
        exists|n: int|
            {
                &&& 0 <= n <= text.len()
                &&& ends(display(tools, text, streaming, mode), #[trigger] text.take(n))
                &&& n > 0 ==> !is_white_space(text[n - 1])
                &&& forall|i: int| n <= i < text.len() ==> is_white_space(#[trigger] text[i])
                &&& (mode == ToolDisplay::Hidden || tools.len() == 0) ==> display(
                    tools,
                    text,
                    streaming,
                    mode,
                ) == text.take(n)
            },
{
    let w = without_back(text, white());
    lemma_trim_ends(text, white());
    lemma_back_is_white(text);
    let n = w.len() as int;
    assert(w == text.take(n));
    let shown = display(tools, text, streaming, mode);
    let block = tool_block(tools, streaming, mode);
    let front = if block.len() > 0 {
        block + "\n"@
    } else {
        Seq::empty()
    };
    assert(shown == front + w);
    assert(shown.subrange(shown.len() - w.len(), shown.len() as int) =~= w);
    assert(ends(shown, text.take(n)));
    if n > 0 {
        assert(w.last() == text[n - 1]);
    }
    if mode == ToolDisplay::Hidden || tools.len() == 0 {
        if tools.len() == 0 {
            lemma_no_tools(tools, streaming, mode);
        }
        assert(shown =~= text.take(n));
    }
}

proof fn lemma_back_is_white(s: Seq<char>)
    ensures
        forall|i: int|
            without_back(s, white()).len() <= i < s.len() ==> is_white_space(#[trigger] s[i]),
    decreases s.len(),
{
    if s.len() > 0 && is_white_space(s.last()) {
        lemma_back_is_white(s.drop_last());
        assert forall|i: int| without_back(s, white()).len() <= i < s.len() implies is_white_space(
            #[trigger] s[i],
        ) by {
            if i < s.len() - 1 {
                assert(s.drop_last()[i] == s[i]);
            }
        }
    }
}

proof fn lemma_no_tools(tools: Seq<ToolView>, streaming: bool, mode: ToolDisplay)
    requires
        tools.len() == 0,
    ensures
        tool_block(tools, streaming, mode).len() == 0,
{
    reveal(Seq::filter);
    assert(in_state(tools, ToolState::Completed).len() == 0);
    assert(in_state(tools, ToolState::Failed).len() == 0);
    assert(in_state(tools, ToolState::Running).len() == 0);
    assert(ended(tools).len() == 0);
}

proof fn lemma_filtered(tools: Seq<ToolView>, p: spec_fn(ToolView) -> bool, i: int)
    requires
        0 <= i < tools.len(),
        p(tools[i]),
    ensures
        tools.filter(p).contains(tools[i]),
{
    tools.lemma_filter_contains(p, i);
}

/// While a turn goes on, a tool that runs is seen with its title as long as no
/// more than three run.
#[verifier::rlimit(40)]
#[verifier::spinoff_prover]
pub proof fn few_running_tools_are_seen(tools: Seq<ToolView>, text: Seq<char>, i: int)
    requires
        0 <= i < tools.len(),
        tools[i].state == ToolState::Running,
        in_state(tools, ToolState::Running).len() <= 3,
    ensures
        occurs(
            display(tools, text, true, ToolDisplay::Full),
            "🔧"@ + " `"@ + tools[i].title + "`"@ + "..."@ + "\n"@,
        ),
{
    let t = tools[i];
    let running = in_state(tools, ToolState::Running);
    let line = tool_lines(seq![t]);
    lemma_filtered(tools, |e: ToolView| e.state == ToolState::Running, i);
    let k = choose|k: int| 0 <= k < running.len() && running[k] == t;
    lemma_line_occurs(running, k);
    lemma_line_of_one(t);
    reveal_strlit("\n");
    let lines = tool_lines(running);
    let block = tool_block(tools, true, ToolDisplay::Full);
    let first = block.take(block.len() - lines.len());
    let at = choose|k: int| stands_at(lines, line, k);
    assert(block =~= first + lines);
    assert(block.len() > 0);
    lemma_occurs_within(first, lines, "\n"@ + without_back(text, white()), line);
    assert(first + lines + ("\n"@ + without_back(text, white())) =~= display(
        tools,
        text,
        true,
        ToolDisplay::Full,
    ));
}

/// While a turn goes on, a tool that has ended is seen with its title and the
/// sign of its state as long as no more than three have ended.
#[verifier::rlimit(40)]
#[verifier::spinoff_prover]
pub proof fn few_ended_tools_are_seen(tools: Seq<ToolView>, text: Seq<char>, i: int)
    requires
        0 <= i < tools.len(),
        tools[i].state != ToolState::Running,
        ended(tools).len() <= 3,
    ensures
        occurs(
            display(tools, text, true, ToolDisplay::Full),
            (if tools[i].state == ToolState::Completed {
                "✅"@
            } else {
                "❌"@
            }) + " `"@ + tools[i].title + "`"@ + "\n"@,
        ),
{
    let t = tools[i];
    let over = ended(tools);
    let line = tool_lines(seq![t]);
    lemma_filtered(tools, |e: ToolView| e.state != ToolState::Running, i);
    let k = choose|k: int| 0 <= k < over.len() && over[k] == t;
    lemma_line_occurs(over, k);
    lemma_line_of_one(t);
    reveal_strlit("\n");
    let lines = tool_lines(over);
    let block = tool_block(tools, true, ToolDisplay::Full);
    let rest = block.skip(lines.len() as int);
    let at = choose|k: int| stands_at(lines, line, k);
    assert(block =~= lines + rest);
    assert(block.len() > 0);
    let e = Seq::<char>::empty();
    lemma_occurs_within(e, lines, rest + "\n"@ + without_back(text, white()), line);
    assert(e + lines + (rest + "\n"@ + without_back(text, white())) =~= display(
        tools,
        text,
        true,
        ToolDisplay::Full,
    ));
}

/// While a turn goes on, the tools that have ended come before those that run, as
/// long as there are no more than three of either.
pub proof fn ended_tools_come_first(tools: Seq<ToolView>)
    requires
        ended(tools).len() <= 3,
        in_state(tools, ToolState::Running).len() <= 3,
    ensures
        tool_block(tools, true, ToolDisplay::Full) == tool_block(ended(tools), false, ToolDisplay::Full)
            + tool_block(in_state(tools, ToolState::Running), false, ToolDisplay::Full),
{
}

/// While a turn goes on and more than three tools run, the three that started
/// last are seen, behind the number of those that are not.
#[verifier::rlimit(40)]
#[verifier::spinoff_prover]
pub proof fn many_running_tools_are_counted(tools: Seq<ToolView>, text: Seq<char>, k: int)
    requires
        in_state(tools, ToolState::Running).len() > 3,
        in_state(tools, ToolState::Running).len() - 3 <= k < in_state(tools, ToolState::Running).len(),
    ensures
        occurs(
            display(tools, text, true, ToolDisplay::Full),
            "`"@ + in_state(tools, ToolState::Running)[k].title + "`"@,
        ),
        occurs(
            display(tools, text, true, ToolDisplay::Full),
            decimal((in_state(tools, ToolState::Running).len() - 3) as nat) + " more running"@,
        ),
{
    let running = in_state(tools, ToolState::Running);
    let late = running.skip(running.len() - 3);
    let t = running[k];
    assert(late[k - (running.len() - 3)] == t);
    tools.lemma_filter_pred(|e: ToolView| e.state == ToolState::Running, k);
    lemma_line_occurs(late, k - (running.len() - 3));
    lemma_line_of_one(t);
    let n = decimal((running.len() - 3) as nat);
    let lines = tool_lines(late);
    let line = tool_lines(seq![t]);
    let block = tool_block(tools, true, ToolDisplay::Full);
    let tail = "\n"@ + without_back(text, white());
    let shown = display(tools, text, true, ToolDisplay::Full);
    let count = "🔧 "@ + n + " more running\n"@;
    let first = block.take(block.len() - lines.len() - count.len());
    assert(block =~= first + count + lines);
    reveal_strlit("🔧 ");
    assert(count.len() > 0);
    assert(shown =~= (first + count) + lines + tail);
    let name = "`"@ + t.title + "`"@;
    reveal_strlit(" `");
    reveal_strlit("`");
    assert(" `"@ =~= " "@ + "`"@) by {
        reveal_strlit(" ");
    }
    lemma_parts_stand("🔧"@ + " "@, name, "..."@ + "\n"@);
    assert("🔧"@ + " "@ + name + ("..."@ + "\n"@) =~= line);
    lemma_occurs_in_part(lines, line, name);
    lemma_occurs_within(first + count, lines, tail, name);
    assert(" more running\n"@ =~= " more running"@ + "\n"@) by {
        reveal_strlit(" more running\n");
        reveal_strlit(" more running");
        reveal_strlit("\n");
    }
    let said = n + " more running"@;
    lemma_parts_stand(first + "🔧 "@, said, "\n"@ + lines + tail);
    assert((first + "🔧 "@) + said + ("\n"@ + lines + tail) =~= shown);
}

/// While a turn goes on and more than three tools have ended, they are counted:
/// those that are completed and those that failed, each where there are any.
#[verifier::rlimit(40)]
#[verifier::spinoff_prover]
pub proof fn many_ended_tools_are_counted(tools: Seq<ToolView>, text: Seq<char>)
    requires
        ended(tools).len() > 3,
    ensures
        ({
            let shown = display(tools, text, true, ToolDisplay::Full);
            let completed = in_state(tools, ToolState::Completed).len();
            let failed = in_state(tools, ToolState::Failed).len();
            &&& completed > 0 ==> occurs(shown, "✅ "@ + decimal(completed))
            &&& failed > 0 ==> occurs(shown, "❌ "@ + decimal(failed))
        }),
{
    let shown = display(tools, text, true, ToolDisplay::Full);
    let a = crate::adapter::counted("✅ "@, in_state(tools, ToolState::Completed).len());
    let b = crate::adapter::counted("❌ "@, in_state(tools, ToolState::Failed).len());
    let parts = a + b;
    let list = joined(parts, " · "@);
    let e = Seq::<char>::empty();
    reveal_strlit(" tool(s) completed\n");
    let block = tool_block(tools, true, ToolDisplay::Full);
    let tail = shown.skip(list.len() as int);
    assert(block.len() > 0);
    assert(shown =~= e + list + tail);
    assert forall|i: int| 0 <= i < parts.len() implies occurs(shown, #[trigger] parts[i]) by {
        lemma_joined_holds(parts, " · "@, i);
        lemma_occurs_within(e, list, tail, parts[i]);
    }
    if a.len() > 0 {
        assert(parts[0] == a[0]);
    }
    if b.len() > 0 {
        assert(parts[a.len() as int] == b[0]);
    }
}

/// The three numbers of a compact display are those of the completed, the
/// failed and the running tools, each given where it is not zero.
#[verifier::rlimit(40)]
#[verifier::spinoff_prover]
pub proof fn compact_display_counts(tools: Seq<ToolView>, text: Seq<char>, streaming: bool)
    ensures
        ({
            let shown = display(tools, text, streaming, ToolDisplay::Compact);
            let completed = in_state(tools, ToolState::Completed).len();
            let failed = in_state(tools, ToolState::Failed).len();
            let running = in_state(tools, ToolState::Running).len();
            &&& completed > 0 ==> occurs(shown, "✅ "@ + decimal(completed))
            &&& failed > 0 ==> occurs(shown, "❌ "@ + decimal(failed))
            &&& running > 0 ==> occurs(shown, "🔧 "@ + decimal(running))
        }),
{
    let shown = display(tools, text, streaming, ToolDisplay::Compact);
    let a = crate::adapter::counted("✅ "@, in_state(tools, ToolState::Completed).len());
    let b = crate::adapter::counted("❌ "@, in_state(tools, ToolState::Failed).len());
    let c = crate::adapter::counted("🔧 "@, in_state(tools, ToolState::Running).len());
    let parts = a + b + c;
    if parts.len() > 0 {
        let e = Seq::<char>::empty();
        let block = joined(parts, " · "@) + " tool(s)\n"@;
        reveal_strlit(" tool(s)\n");
        assert(block.len() > 0);
        let tail = " tool(s)\n"@ + "\n"@ + without_back(text, white());
        assert(shown =~= e + joined(parts, " · "@) + tail);
        assert forall|i: int| 0 <= i < parts.len() implies occurs(shown, #[trigger] parts[i]) by {
            lemma_joined_holds(parts, " · "@, i);
            lemma_occurs_within(e, joined(parts, " · "@), tail, parts[i]);
        }
        if a.len() > 0 {
            assert(parts[0] == a[0]);
        }
        if b.len() > 0 {
            assert(parts[a.len() as int] == b[0]);
        }
        if c.len() > 0 {
            assert(parts[(a.len() + b.len()) as int] == c[0]);
        }
    }
}

/// A title is put on one line character by character: a line feed becomes a
/// semicolon between spaces, a backquote an apostrophe, a carriage return
/// nothing, and any other character stays.
#[verifier::rlimit(40)]
#[verifier::spinoff_prover]
pub proof fn titles_are_put_on_one_line(a: Seq<char>, b: Seq<char>, c: char)
    ensures
        flat_title(a + b) == flat_title(a) + flat_title(b),
        flat_title(seq![c]) == (if c == '\n' {
            " ; "@
        } else if c == '\r' {
            Seq::empty()
        } else if c == '`' {
            "'"@
        } else {
            seq![c]
        }),
{
    reveal_strlit("\r");
    reveal_strlit("\n");
    reveal_strlit("`");
    reveal_strlit("'");
    reveal_strlit("");
    reveal_strlit(" ; ");
    assert("\r"@ =~= seq!['\r']);
    assert("\n"@ =~= seq!['\n']);
    assert("`"@ =~= seq!['`']);
    let (a1, b1) = (replaced(a, "\r"@, ""@), replaced(b, "\r"@, ""@));
    characters_are_replaced_apart(a, b, '\r', ""@);
    let (a2, b2) = (replaced(a1, "\n"@, " ; "@), replaced(b1, "\n"@, " ; "@));
    characters_are_replaced_apart(a1, b1, '\n', " ; "@);
    characters_are_replaced_apart(a2, b2, '`', "'"@);
    let one = seq![c];
    let e = Seq::<char>::empty();
    if c == '\r' {
        assert(replaced(one, "\r"@, ""@) =~= e);
        assert(replaced(e, "\n"@, " ; "@) =~= e);
        assert(replaced(e, "`"@, "'"@) =~= e);
    } else {
        lemma_other_character(c, '\r', ""@);
        if c == '\n' {
            characters_are_replaced_apart(e, e, '\n', " ; "@);
            assert(!occurs(" ; "@, "`"@)) by {
                assert forall|i: int| !stands_at(" ; "@, "`"@, i) by {
                    if stands_at(" ; "@, "`"@, i) {
                        assert(" ; "@.subrange(i, i + 1)[0] == '`');
                    }
                }
            }
            lemma_nothing_to_replace(" ; "@, "`"@, "'"@);
        } else {
            lemma_other_character(c, '\n', " ; "@);
            if c == '`' {
                characters_are_replaced_apart(e, e, '`', "'"@);
            } else {
                lemma_other_character(c, '`', "'"@);
            }
        }
    }
}

proof fn lemma_other_character(c: char, from: char, to: Seq<char>)
    requires
        c != from,
    ensures
        replaced(seq![c], seq![from], to) == seq![c],
{
    assert forall|i: int| !stands_at(seq![c], seq![from], i) by {
        if stands_at(seq![c], seq![from], i) {
            assert(seq![c].subrange(i, i + 1)[0] == c);
        }
    }
    lemma_nothing_to_replace(seq![c], seq![from], to);
}

/// A title in a progress line has at most sixty characters. A longer one is cut
/// to its beginning, with three dots behind; one that fits is kept.
pub proof fn progress_titles_are_short(title: Seq<char>)
    ensures
        short_title(title).len() <= 60,
        title.len() <= 60 ==> short_title(title) == title,
        title.len() > 60 ==> short_title(title).len() == 60 && begins(title, short_title(title).take(57))
            && ends(short_title(title), "..."@),
{
    reveal_strlit("...");
    if title.len() > 60 {
        let s = short_title(title);
        assert(s.take(57) =~= title.take(57));
        assert(title.subrange(0, 57) =~= title.take(57));
        assert(s.subrange(57, 60) =~= "..."@);
    }
}

/// A line of progress ends with the seconds gone by. Once nothing was heard for
/// a while it no longer says what the agent is at, and a longer silence is told
/// by a warning sign.
#[verifier::rlimit(40)]
#[verifier::spinoff_prover]
pub proof fn progress_tells_the_time(
    a: ProgressPhase,
    b: ProgressPhase,
    elapsed: nat,
    idle: nat,
)
    ensures
        ends(progress_line(a, elapsed, idle), decimal(elapsed) + "s"@),
        idle >= 15 ==> progress_line(a, elapsed, idle) == progress_line(b, elapsed, idle),
        idle >= 45 <==> begins(progress_line(a, elapsed, idle), "⚠️ "@),
        idle < 15 && a is Tool ==> occurs(
            progress_line(a, elapsed, idle),
            "`"@ + short_title(a->Tool_0@) + "`"@,
        ),
{
    let e = Seq::<char>::empty();
    let line = progress_line(a, elapsed, idle);
    let last = decimal(elapsed) + "s"@;
    let front = line.take(line.len() - last.len());
    assert(line =~= front + last);
    lemma_parts_stand(front, e, last);
    assert(front + e + last =~= line);
    reveal_strlit("⚠️ Still working... ");
    reveal_strlit("⚠️ ");
    reveal_strlit("⏳ Waiting for agent output... ");
    reveal_strlit("⏳ Thinking... ");
    reveal_strlit("🔧 Running `");
    if idle >= 45 {
        assert(line.subrange(0, "⚠️ "@.len() as int) =~= "⚠️ "@);
    } else {
        if begins(line, "⚠️ "@) {
            assert(line.subrange(0, "⚠️ "@.len() as int)[0] == line[0]);
        }
    }
    if idle < 15 && a is Tool {
        let t = short_title(a->Tool_0@);
        reveal_strlit("🔧 Running ");
        reveal_strlit("`");
        reveal_strlit("... ");
        reveal_strlit("`... ");
        assert("🔧 Running `"@ =~= "🔧 Running "@ + "`"@);
        assert("`... "@ =~= "`"@ + "... "@);
        lemma_parts_stand("🔧 Running "@, "`"@ + t + "`"@, "... "@ + last);
        assert("🔧 Running "@ + ("`"@ + t + "`"@) + ("... "@ + last) =~= line);
    }
}

// ---------------------------------------------------------------------------
// Channels
// ---------------------------------------------------------------------------

/// A thread has a session of its own: two threads of a platform share one only
/// if they have the same id, in whatever channels they are. Outside threads the
/// channel decides.
pub proof fn threads_have_sessions_of_their_own(platform: Seq<char>, a: ChannelRef, b: ChannelRef)
    ensures
        a.thread_id is Some && b.thread_id is Some ==> (session_key(platform, a) == session_key(
            platform,
            b,
        ) <==> a.thread_id->0@ == b.thread_id->0@),
        a.thread_id is None && b.thread_id is None ==> (session_key(platform, a) == session_key(
            platform,
            b,
        ) <==> a.channel_id@ == b.channel_id@),
        a.thread_id is Some && b.thread_id is None ==> (session_key(platform, a) == session_key(
            platform,
            b,
        ) <==> a.thread_id->0@ == b.channel_id@),
        begins(session_key(platform, a), platform),
{
    let n = platform.len() + ":"@.len();
    let (x, y) = (session_key(platform, a), session_key(platform, b));
    assert(x.skip(n as int) =~= a.route());
    assert(y.skip(n as int) =~= b.route());
    assert(x.subrange(0, platform.len() as int) =~= platform);
}

// ---------------------------------------------------------------------------
// Directives
// ---------------------------------------------------------------------------

proof fn lemma_lines_apart(line: Seq<char>, rest: Seq<char>)
    requires
        free_of(line, '\n'),
        line.len() > 0,
        line.last() != '\r',
    ensures
        head_line(line + "\n"@ + rest) == line,
        after_line(line + "\n"@ + rest) == rest,
        (line + "\n"@ + rest).len() > rest.len(),
{
    reveal_strlit("\n");
    let s = line + "\n"@ + rest;
    lemma_first_of(s, '\n');
    let n = line.len() as int;
    assert(s[n] == '\n');
    if first_of(s, '\n') < n {
        assert(s[first_of(s, '\n')] == line[first_of(s, '\n')]);
    }
    assert(s.take(n) =~= line);
    assert(s.skip(n + 1) =~= rest);
}

proof fn lemma_closed_at(inner: Seq<char>)
    requires
        free_of(inner, ']'),
    ensures
        found(inner + "]]"@, "]]"@) == Some(inner.len() as int),
{
    reveal_strlit("]]");
    let after = inner + "]]"@;
    let m = inner.len() as int;
    assert(after.subrange(m, m + 2) =~= "]]"@);
    assert(stands_at(after, "]]"@, m));
    lemma_found(after, "]]"@);
    let f = found(after, "]]"@)->0;
    if f < m {
        assert(after.subrange(f, f + 2)[0] == inner[f]);
    }
}

#[verifier::rlimit(40)]
#[verifier::spinoff_prover]
proof fn lemma_directive(key: Seq<char>, value: Seq<char>)
    requires
        free_of(key, ':'),
        free_of(key, ']'),
        free_of(value, ']'),
    ensures
        directive_of("[["@ + (key + seq![':'] + value) + "]]"@) == Some(
            (trimmed(key), trimmed(value), Seq::<char>::empty()),
        ),
{
    reveal_strlit("[[");
    reveal_strlit("]]");
    let inner = key + seq![':'] + value;
    let line = "[["@ + inner + "]]"@;
    assert(line[0] == '[');
    assert(line.last() == ']');
    assert(!is_white_space('['));
    assert(!is_white_space(']'));
    trimmed_text_is_kept(line);
    assert(line.subrange(0, 2) =~= "[["@);
    let after = line.skip(2);
    let m = inner.len() as int;
    assert(after =~= inner + "]]"@);
    assert(free_of(inner, ']')) by {
        assert forall|i: int| 0 <= i < m implies #[trigger] inner[i] != ']' by {
            if i < key.len() {
                assert(inner[i] == key[i]);
            } else if i > key.len() {
                assert(inner[i] == value[i - key.len() - 1]);
            }
        }
    }
    lemma_closed_at(inner);
    assert(after.take(m) =~= inner);
    parts_are_found_again(key, value, ':');
    assert(after.skip(m + 2) =~= Seq::<char>::empty());
    assert(trimmed(after.skip(m + 2)) =~= Seq::<char>::empty());
}

/// A directive in front of the output is taken out of it, with its line, and
/// the rest is read as if it had not been there. The one that names a message
/// to reply to gives that message, as long as its value can be an id; any other
/// changes nothing.
#[verifier::rlimit(40)]
#[verifier::spinoff_prover]
pub proof fn directives_are_taken_out(
    key: Seq<char>,
    value: Seq<char>,
    rest: Seq<char>,
    before: Option<Seq<char>>,
)
    requires
        free_of(key, ':'),
        free_of(key, ']'),
        free_of(key, '\n'),
        free_of(value, ']'),
        free_of(value, '\n'),
    ensures
        ({
            let s = "[["@ + key + ":"@ + value + "]]"@ + "\n"@ + rest;
            let id = trimmed(value);
            let names_message = trimmed(key) == "reply_to"@ && 1 <= id.len() <= 64 && forall|i: int|
                0 <= i < id.len() ==> is_letter(#[trigger] id[i]) || is_digit(id[i]) || id[i] == '.'
                    || id[i] == '-' || id[i] == '_';
            header(s, before) == header(
                rest,
                if names_message {
                    Some(id)
                } else {
                    before
                },
            )
        }),
{
    let s = "[["@ + key + ":"@ + value + "]]"@ + "\n"@ + rest;
    let inner = key + seq![':'] + value;
    let line = "[["@ + inner + "]]"@;
    reveal_strlit(":");
    assert("[["@ + key + ":"@ + value + "]]"@ =~= line);
    assert(free_of(line, '\n') && line.last() == ']') by {
        reveal_strlit("[[");
        reveal_strlit("]]");
        assert forall|i: int| 0 <= i < line.len() implies #[trigger] line[i] != '\n' by {
            if 2 <= i < 2 + key.len() {
                assert(line[i] == key[i - 2]);
            } else if 3 + key.len() <= i < 3 + key.len() + value.len() {
                assert(line[i] == value[i - 3 - key.len()]);
            }
        }
    }
    lemma_lines_apart(line, rest);
    lemma_directive(key, value);
    assert(forall|c: char|
        #[trigger] is_id_char(c) <==> is_letter(c) || is_digit(c) || c == '.' || c == '-' || c
            == '_');
}

/// What stands behind a directive on its line is the first line of the output:
/// it is not lost, and nothing after it is read as a directive.
#[verifier::rlimit(40)]
#[verifier::spinoff_prover]
pub proof fn text_behind_a_directive_is_kept(
    key: Seq<char>,
    value: Seq<char>,
    tail: Seq<char>,
    rest: Seq<char>,
    before: Option<Seq<char>>,
)
    requires
        free_of(key, ':'),
        free_of(key, ']'),
        free_of(key, '\n'),
        free_of(value, ']'),
        free_of(value, '\n'),
        free_of(tail, '\n'),
        tail.len() > 0,
        !is_white_space(tail[0]),
        !is_white_space(tail.last()),
        rest.len() > 0,
    ensures
        header("[["@ + key + ":"@ + value + "]]"@ + tail + "\n"@ + rest, before).1 == tail + "\n"@ + rest,
        trimmed(key) != "reply_to"@ ==> header(
            "[["@ + key + ":"@ + value + "]]"@ + tail + "\n"@ + rest,
            before,
        ).0 == before,
{
    let inner = key + seq![':'] + value;
    let line = "[["@ + inner + "]]"@ + tail;
    let s = "[["@ + key + ":"@ + value + "]]"@ + tail + "\n"@ + rest;
    reveal_strlit(":");
    assert("[["@ + key + ":"@ + value + "]]"@ + tail =~= line);
    assert(free_of(line, '\n') && line.last() == tail.last()) by {
        reveal_strlit("[[");
        reveal_strlit("]]");
        let k = 3 + key.len() + value.len();
        assert forall|i: int| 0 <= i < line.len() implies #[trigger] line[i] != '\n' by {
            if 2 <= i < 2 + key.len() {
                assert(line[i] == key[i - 2]);
            } else if 3 + key.len() <= i < k {
                assert(line[i] == value[i - 3 - key.len()]);
            } else if k + 2 <= i {
                assert(line[i] == tail[i - k - 2]);
            }
        }
    }
    assert(line.last() != '\r') by {
        assert(is_white_space('\r'));
    }
    lemma_lines_apart(line, rest);
    lemma_directive_with(key, value, tail);
}

#[verifier::rlimit(40)]
#[verifier::spinoff_prover]
proof fn lemma_directive_with(key: Seq<char>, value: Seq<char>, tail: Seq<char>)
    requires
        free_of(key, ':'),
        free_of(key, ']'),
        free_of(value, ']'),
        tail.len() > 0,
        !is_white_space(tail[0]),
        !is_white_space(tail.last()),
    ensures
        directive_of("[["@ + (key + seq![':'] + value) + "]]"@ + tail) == Some(
            (trimmed(key), trimmed(value), tail),
        ),
{
    reveal_strlit("[[");
    reveal_strlit("]]");
    let inner = key + seq![':'] + value;
    let line = "[["@ + inner + "]]"@ + tail;
    assert(line[0] == '[');
    assert(!is_white_space('['));
    trimmed_text_is_kept(line);
    assert(line.subrange(0, 2) =~= "[["@);
    let after = line.skip(2);
    let m = inner.len() as int;
    assert(after =~= inner + "]]"@ + tail);
    assert(free_of(inner, ']')) by {
        assert forall|i: int| 0 <= i < m implies #[trigger] inner[i] != ']' by {
            if i < key.len() {
                assert(inner[i] == key[i]);
            } else if i > key.len() {
                assert(inner[i] == value[i - key.len() - 1]);
            }
        }
    }
    assert(after.subrange(m, m + 2) =~= "]]"@);
    assert(stands_at(after, "]]"@, m));
    lemma_found(after, "]]"@);
    let f = found(after, "]]"@)->0;
    assert(f == m) by {
        if f < m {
            assert(after.subrange(f, f + 2)[0] == inner[f]);
        }
    }
    assert(after.take(m) =~= inner);
    parts_are_found_again(key, value, ':');
    assert(after.skip(m + 2) =~= tail);
    trimmed_text_is_kept(tail);
}

/// The text that is left of an output does not depend on a message to reply to
/// that was named before; and a message named before stays named unless the
/// output names another.
pub proof fn later_replies_replace_earlier(s: Seq<char>, a: Option<Seq<char>>)
    ensures
        header(s, a).1 == header(s, None).1,
        header(s, a).0 == (match header(s, None).0 {
            Some(id) => Some(id),
            None => a,
        }),
    decreases s.len(),
{
    if s.len() > 0 && directive_of(head_line(s)) is Some {
        let (key, value, tail) = directive_of(head_line(s))->0;
        let rest = after_line(s);
        if tail.len() == 0 && rest.len() < s.len() {
            later_replies_replace_earlier(rest, a);
            later_replies_replace_earlier(rest, Some(value));
        }
    }
}

// ---------------------------------------------------------------------------
// Prompts
// ---------------------------------------------------------------------------

proof fn lemma_two_kinds(extra: Seq<ContentBlock>)
    ensures
        extra.filter(|b: ContentBlock| is_text(b)).len() + extra.filter(
            |b: ContentBlock| !is_text(b),
        ).len() == extra.len(),
    decreases extra.len(),
{
    reveal(Seq::filter);
    if extra.len() > 0 {
        lemma_two_kinds(extra.drop_last());
    }
}

/// Nothing of a message is lost on its way to the agent: every attachment is a
/// block of the prompt, and so are who sent it, in front, and what was asked,
/// where something was. There is no other block. Texts come before what is not
/// text.
#[verifier::rlimit(40)]
#[verifier::spinoff_prover]
pub proof fn arrivals_are_complete(
    sender_json: Seq<char>,
    prompt: Seq<char>,
    extra: Seq<ContentBlock>,
    blocks: Seq<ContentBlock>,
)
    requires
        is_arrival(sender_json, prompt, extra, blocks),
    ensures
        forall|i: int| 0 <= i < extra.len() ==> blocks.contains(#[trigger] extra[i]),
        blocks.len() == extra.len() + (if prompt.len() > 0 {
            2int
        } else {
            1
        }),
        is_text(blocks[0]) && occurs(block_text(blocks[0]), sender_json),
        prompt.len() > 0 ==> exists|k: int|
            1 <= k < blocks.len() && is_text(#[trigger] blocks[k]) && block_text(blocks[k]) == prompt,
        forall|i: int, j: int|
            0 <= i < j < blocks.len() && !is_text(#[trigger] blocks[i]) ==> !is_text(
                #[trigger] blocks[j],
            ),
{
    broadcast use vstd::seq_lib::group_filter_ensures;

    let is = |b: ContentBlock| is_text(b);
    let not = |b: ContentBlock| !is_text(b);
    let texts = extra.filter(is);
    let others = extra.filter(not);
    let n = texts.len() as int;
    let start = blocks.len() - others.len();
    lemma_two_kinds(extra);
    assert forall|i: int| 0 <= i < extra.len() implies blocks.contains(#[trigger] extra[i]) by {
        if is_text(extra[i]) {
            extra.lemma_filter_contains(is, i);
            let k = choose|k: int| 0 <= k < texts.len() && texts[k] == extra[i];
            assert(blocks.subrange(1, 1 + n)[k] == blocks[1 + k]);
        } else {
            extra.lemma_filter_contains(not, i);
            let k = choose|k: int| 0 <= k < others.len() && others[k] == extra[i];
            assert(blocks.skip(start)[k] == blocks[start + k]);
        }
    }
    lemma_parts_stand("<sender_context>\n"@, sender_json, "\n</sender_context>"@);
    if prompt.len() > 0 {
        assert(is_text(blocks[1 + n]) && block_text(blocks[1 + n]) == prompt);
    }
    assert forall|i: int, j: int|
        0 <= i < j < blocks.len() && !is_text(#[trigger] blocks[i]) implies !is_text(
        #[trigger] blocks[j],
    ) by {
        if i < 1 + n && i > 0 {
            assert(blocks.subrange(1, 1 + n)[i - 1] == blocks[i]);
            assert(is(texts[i - 1]));
        }
        assert(i >= start);
        assert(blocks.skip(start)[j - start] == blocks[j]);
        assert(not(others[j - start]));
    }
}

} // verus!
