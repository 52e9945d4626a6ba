//! How answers to the setup's questions are read, and what it shows.

use vstd::prelude::*;
use crate::patterns::spliced;
use crate::text::{
    decimal, decimal_reads_back, free_of, joined, lemma_occurs_within, lemma_parts_stand,
    lower_case, occurs, splitting_undoes_joining, trimmed, trimmed_text_is_kept,
};
use crate::wizard::{
    all_picked, answer, box_line, box_lines, box_width, boxed, checked, columns, is_text_channel,
    listed, next_steps_text, picked, widest, yes_or_no, ServerChannel,
};

verus! {

/// An answer is what was said, trimmed; the default is taken only where nothing
/// was said.
pub proof fn answers_come_before_defaults(input: Seq<char>, default: Seq<char>, other: Seq<char>)
    ensures
        trimmed(input).len() > 0 ==> answer(input, default) == trimmed(input) && answer(input, default)
            == answer(input, other),
        trimmed(input).len() == 0 ==> answer(input, default) == default,
{
}

/// A question is answered by yes or no, in whole or by the first letter and in
/// any case; nothing takes the default, and anything else is no answer.
#[verifier::rlimit(40)]
#[verifier::spinoff_prover]
pub proof fn yes_and_no_are_told_apart(input: Seq<char>, default: bool)
    ensures
        ({
            let said = lower_case(trimmed(input));
            &&& yes_or_no(input, default) == Some(true) <==> said == "y"@ || said == "yes"@ || (
            said.len() == 0 && default)
            &&& yes_or_no(input, default) == Some(false) <==> said == "n"@ || said == "no"@ || (
            said.len() == 0 && !default)
        }),
{
    reveal_strlit("y");
    reveal_strlit("yes");
    reveal_strlit("n");
    reveal_strlit("no");
    assert("y"@[0] == 'y' && "yes"@[0] == 'y' && "n"@[0] == 'n' && "no"@[0] == 'n');
    assert("y"@.len() == 1 && "yes"@.len() == 3 && "n"@.len() == 1 && "no"@.len() == 2);
}

/// A choice is picked by its number, counted from one; no number outside the
/// list picks one.
pub proof fn choices_are_picked_by_number(n: nat, count: nat)
    requires
        n <= usize::MAX,
    ensures
        1 <= n <= count ==> picked(decimal(n), count) == Some((n - 1) as nat),
        n == 0 || n > count ==> picked(decimal(n), count) is None,
{
    lemma_decimal_kept(n);
    decimal_reads_back(n, usize::MAX as nat);
}

proof fn lemma_decimal_kept(n: nat)
    ensures
        trimmed(decimal(n)) == decimal(n),
        free_of(decimal(n), ','),
{
    crate::text::lemma_decimal_digits(n);
    let s = decimal(n);
    assert(crate::text::is_digit(s[0]));
    assert(crate::text::is_digit(s[s.len() - 1]));
    assert forall|i: int| 0 <= i < s.len() implies #[trigger] s[i] != ',' by {
        assert(crate::text::is_digit(s[i]));
    }
    trimmed_text_is_kept(s);
}

/// A list of numbers picks each of its choices, in the order given. What is not
/// in the list of choices is left out. Saying nothing picks them all.
#[verifier::rlimit(40)]
#[verifier::spinoff_prover]
pub proof fn lists_pick_every_choice(a: Seq<Seq<char>>, b: Seq<Seq<char>>, n: nat, count: nat)
    requires
        n <= usize::MAX,
    ensures
        all_picked(a + b, count) == all_picked(a, count) + all_picked(b, count),
        1 <= n <= count ==> all_picked(seq![decimal(n)], count) == seq![(n - 1) as nat],
        n == 0 || n > count ==> all_picked(seq![decimal(n)], count).len() == 0,
        checked(Seq::empty(), count).len() == count,
        forall|i: int| 0 <= i < count ==> #[trigger] checked(Seq::empty(), count)[i] == i,
    decreases b.len(),
{
    reveal_with_fuel(all_picked, 2);
    choices_are_picked_by_number(n, count);
    let one = seq![decimal(n)];
    assert(one.drop_last() =~= Seq::<Seq<char>>::empty());
    assert(all_picked(one.drop_last(), count) =~= Seq::<nat>::empty());
    if 1 <= n <= count {
        assert(all_picked(one, count) =~= seq![(n - 1) as nat]);
    }
    assert(trimmed(Seq::<char>::empty()).len() == 0);
    if b.len() == 0 {
        assert(a + b =~= a);
        assert(all_picked(a, count) + all_picked(b, count) =~= all_picked(a, count));
    } else {
        lists_pick_every_choice(a, b.drop_last(), n, count);
        assert((a + b).drop_last() =~= a + b.drop_last());
        assert((a + b).last() == b.last());
        assert(all_picked(a + b, count) =~= all_picked(a, count) + all_picked(b, count));
    }
}

/// Whatever is picked is in the list.
pub proof fn picks_are_in_the_list(parts: Seq<Seq<char>>, count: nat)
    ensures
        forall|i: int|
            0 <= i < all_picked(parts, count).len() ==> #[trigger] all_picked(parts, count)[i] < count,
    decreases parts.len(),
{
    if parts.len() > 0 {
        let front = parts.drop_last();
        picks_are_in_the_list(front, count);
        let all = all_picked(parts, count);
        assert forall|i: int| 0 <= i < all.len() implies #[trigger] all[i] < count by {
            if i < all_picked(front, count).len() {
                assert(all[i] == all_picked(front, count)[i]);
            }
        }
    }
}

/// What is said in a checklist is read between the commas.
pub proof fn checklists_are_read_between_commas(parts: Seq<Seq<char>>, count: nat)
    requires
        parts.len() > 0,
        forall|i: int| 0 <= i < parts.len() ==> free_of(#[trigger] parts[i], ','),
        ({
            let s = joined(parts, seq![',']);
            s.len() > 0 && !crate::text::is_white_space(s[0]) && !crate::text::is_white_space(s.last())
        }),
    ensures
        checked(joined(parts, seq![',']), count) == all_picked(parts, count),
{
    splitting_undoes_joining(parts, ',');
    trimmed_text_is_kept(joined(parts, seq![',']));
}

/// A list of ids has each of the parts that say something, trimmed, in the order
/// given.
pub proof fn ids_are_listed_in_order(a: Seq<Seq<char>>, b: Seq<Seq<char>>, part: Seq<char>)
    ensures
        listed(a + b) == listed(a) + listed(b),
        trimmed(part).len() > 0 ==> listed(seq![part]) == seq![trimmed(part)],
        trimmed(part).len() == 0 ==> listed(seq![part]).len() == 0,
    decreases b.len(),
{
    reveal_with_fuel(listed, 2);
    let one = seq![part];
    assert(one.drop_last() =~= Seq::<Seq<char>>::empty());
    assert(listed(one.drop_last()) =~= Seq::<Seq<char>>::empty());
    if trimmed(part).len() > 0 {
        assert(listed(one) =~= seq![trimmed(part)]);
    }
    if b.len() == 0 {
        assert(a + b =~= a);
        assert(listed(a) + listed(b) =~= listed(a));
    } else {
        ids_are_listed_in_order(a, b.drop_last(), part);
        assert((a + b).drop_last() =~= a + b.drop_last());
        assert((a + b).last() == b.last());
        assert(listed(a + b) =~= listed(a) + listed(b));
    }
}

/// Of a server's channels, those for text are offered, all of them and in their
/// order.
pub proof fn text_channels_are_offered(channels: Seq<ServerChannel>, i: int)
    ensures
        0 <= i < channels.len() && channels[i].kind == 0 ==> channels.filter(is_text_channel()).contains(
            channels[i],
        ),
        0 <= i < channels.filter(is_text_channel()).len() ==> channels.filter(is_text_channel())[i].kind
            == 0 && channels.contains(channels.filter(is_text_channel())[i]),
{
    let p = is_text_channel();
    if 0 <= i < channels.len() && channels[i].kind == 0 {
        channels.lemma_filter_contains(p, i);
    }
    if 0 <= i < channels.filter(p).len() {
        channels.lemma_filter_pred(p, i);
        assert(channels.filter(p).contains(channels.filter(p)[i]));
        channels.lemma_filter_contains_rev(p, channels.filter(p)[i]);
    }
}

/// What is to be done next tells how to run the bot with the file that was
/// written, on this machine, and which agent it is for, elsewhere.
pub proof fn next_steps_name_file_or_agent(agent: Seq<char>, path: Seq<char>)
    ensures
        occurs(next_steps_text(agent, path, true), "cargo run -- run "@ + path + "\n"@),
        occurs(next_steps_text(agent, path, false), "agents."@ + agent + ".discord"@),
        next_steps_text(agent, path, false) == next_steps_text(agent, Seq::empty(), false),
{
    lemma_local_steps(agent, path);
    lemma_cluster_steps(agent, path);
}

#[verifier::rlimit(60)]
#[verifier::spinoff_prover]
proof fn lemma_local_steps(agent: Seq<char>, path: Seq<char>)
    ensures
        occurs(next_steps_text(agent, path, true), "cargo run -- run "@ + path + "\n"@),
{
    let t = next_steps_text(agent, path, true);
    let front = "\n"@ + crate::wizard::coloured(crate::wizard::BOLD@, "--- Next Steps ---"@) + "\n"@
        + (crate::wizard::install_steps(agent) + "\n"@ + crate::wizard::coloured(
        crate::wizard::GREEN@,
        "  3. Run the bot:"@,
    ));
    reveal_strlit("       cargo run -- run ");
    reveal_strlit("       ");
    reveal_strlit("cargo run -- run ");
    assert("       cargo run -- run "@ =~= "       "@ + "cargo run -- run "@);
    let said = "cargo run -- run "@ + path + "\n"@;
    lemma_parts_stand(front + "       "@, said, "\n"@);
    assert((front + "       "@) + said + "\n"@ =~= t);
}

#[verifier::rlimit(60)]
#[verifier::spinoff_prover]
proof fn lemma_cluster_steps(agent: Seq<char>, path: Seq<char>)
    ensures
        occurs(next_steps_text(agent, path, false), "agents."@ + agent + ".discord"@),
{
    let t = next_steps_text(agent, path, false);
    let front = "\n"@ + crate::wizard::coloured(crate::wizard::BOLD@, "--- Next Steps ---"@) + "\n"@
        + (crate::wizard::coloured(
        crate::wizard::CYAN@,
        "  Docker image already bundles the agent CLI and ACP adapter."@,
    ) + "\n"@ + crate::wizard::coloured(
        crate::wizard::CYAN@,
        "  1. Deploy with Helm (or your preferred method):"@,
    ));
    let helm = "       helm install openab openab/openab \\\n         --set agents."@;
    let token = ".discord.botToken=\"$BOT_TOKEN\"\n\n"@;
    let n = (front + helm + agent + token).len() as int;
    assert(front + helm + agent + token + t.skip(n) =~= t);
    reveal_strlit("       helm install openab openab/openab \\\n         --set agents.");
    reveal_strlit("agents.");
    reveal_strlit(".discord.botToken=\"$BOT_TOKEN\"\n\n");
    reveal_strlit(".discord");
    let said = "agents."@ + agent + ".discord"@;
    let at = front.len() + helm.len() - 7;
    assert(t.subrange(at, at + said.len()) =~= said) by {
        assert forall|i: int| 0 <= i < said.len() implies #[trigger] t[at + i] == said[i] by {
            if i < 7 {
                assert(t[at + i] == helm[helm.len() - 7 + i]);
            } else if i < 7 + agent.len() {
                assert(t[at + i] == agent[i - 7]);
            } else {
                assert(t[at + i] == token[i - 7 - agent.len()]);
            }
        }
    }
    assert(crate::text::stands_at(t, said, at));
}

// ---------------------------------------------------------------------------
// Boxes
// ---------------------------------------------------------------------------

/// A box is as wide as its widest line, but at least sixty columns and at most
/// seventy-six.
pub proof fn boxes_are_as_wide_as_their_lines(lines: Seq<Seq<char>>)
    ensures
        60 <= box_width(lines) <= 76,
        forall|i: int|
            0 <= i < lines.len() && columns(#[trigger] lines[i]) <= 76 ==> columns(lines[i]) <= box_width(
                lines,
            ),
        box_width(lines) > 60 ==> exists|i: int|
            0 <= i < lines.len() && columns(#[trigger] lines[i]) >= box_width(lines),
{
    lemma_widest(lines);
}

proof fn lemma_widest(lines: Seq<Seq<char>>)
    ensures
        forall|i: int| 0 <= i < lines.len() ==> columns(#[trigger] lines[i]) <= widest(lines),
        widest(lines) > 0 ==> exists|i: int|
            0 <= i < lines.len() && columns(#[trigger] lines[i]) == widest(lines),
    decreases lines.len(),
{
    if lines.len() > 0 {
        let front = lines.drop_last();
        lemma_widest(front);
        assert forall|i: int| 0 <= i < lines.len() implies columns(#[trigger] lines[i]) <= widest(lines) by {
            if i < lines.len() - 1 {
                assert(columns(front[i]) <= widest(front));
            }
        }
        if widest(lines) > 0 {
            if columns(lines.last()) > widest(front) {
                assert(columns(lines[lines.len() - 1]) == widest(lines));
            } else {
                let i = choose|i: int|
                    0 <= i < front.len() && columns(#[trigger] front[i]) == widest(front);
                assert(columns(lines[i]) == widest(lines));
            }
        }
    }
}

/// Every line that is to be shown stands in the box.
#[verifier::rlimit(40)]
#[verifier::spinoff_prover]
pub proof fn boxes_show_every_line(lines: Seq<Seq<char>>, i: int)
    requires
        0 <= i < lines.len(),
    ensures
        occurs(boxed(lines), lines[i]),
{
    let width = box_width(lines);
    lemma_box_lines(lines, width, i);
    let inner = box_lines(lines, width);
    let t = boxed(lines);
    let front = "\n"@ + crate::wizard::CYAN@ + "╔"@ + crate::wizard::repeated('═', width + 2) + "╗"@
        + crate::wizard::RESET@ + "\n"@;
    let back = t.skip((front.len() + inner.len()) as int);
    lemma_occurs_within(front, inner, back, lines[i]);
    assert(front + inner + back =~= t);
}

#[verifier::rlimit(40)]
#[verifier::spinoff_prover]
proof fn lemma_box_lines(lines: Seq<Seq<char>>, width: nat, i: int)
    requires
        0 <= i < lines.len(),
    ensures
        occurs(box_lines(lines, width), lines[i]),
    decreases lines.len(),
{
    let e = Seq::<char>::empty();
    let front = box_lines(lines.drop_last(), width);
    let last = box_line(lines.last(), width);
    if i == lines.len() - 1 {
        let head = crate::wizard::CYAN@ + "║"@ + crate::wizard::RESET@ + " "@;
        let tail = last.skip((head.len() + lines[i].len()) as int);
        lemma_parts_stand(front + head, lines[i], tail);
        assert((front + head) + lines[i] + tail =~= box_lines(lines, width));
    } else {
        lemma_box_lines(lines.drop_last(), width, i);
        lemma_occurs_within(e, front, last, lines[i]);
        assert(e + front + last =~= box_lines(lines, width));
    }
}

// ---------------------------------------------------------------------------
// Splicing
// ---------------------------------------------------------------------------

/// What is spliced holds each text and each insert, one after the other.
pub proof fn splicing_alternates(texts: Seq<Seq<char>>, inserts: Seq<Seq<char>>, t: Seq<char>, v: Seq<char>)
    requires
        texts.len() > 0,
        inserts.len() == texts.len() - 1,
    ensures
        spliced(texts.push(t), inserts.push(v)) == spliced(texts, inserts) + v + t,
        spliced(seq![t], Seq::empty()) == t,
{
    assert(texts.push(t).drop_last() =~= texts);
    lemma_spliced_prefix(texts, inserts, inserts.push(v));
}

proof fn lemma_spliced_prefix(texts: Seq<Seq<char>>, a: Seq<Seq<char>>, b: Seq<Seq<char>>)
    requires
        a.len() >= texts.len() - 1,
        b.len() >= texts.len() - 1,
        forall|i: int| 0 <= i < texts.len() - 1 ==> a[i] == #[trigger] b[i],
    ensures
        spliced(texts, a) == spliced(texts, b),
    decreases texts.len(),
{
    if texts.len() > 1 {
        lemma_spliced_prefix(texts.drop_last(), a, b);
        assert(a[texts.len() - 2] == b[texts.len() - 2]);
    }
}

} // verus!
