//! Texts that are cut to fit: replies into messages, and prompts into titles.

use vstd::prelude::*;
use crate::text::{first_of, to_chars, trim, trimmed, views};

verus! {

// ---------------------------------------------------------------------------
// Messages
// ---------------------------------------------------------------------------

/// Behind the last line end in the first `k` characters; zero where there is none.
pub open spec fn line_end(s: Seq<char>, k: int) -> int
    decreases k,
{
    if k <= 0 {
        0
    } else if s[k - 1] == '\n' {
        k
    } else {
        line_end(s, k - 1)
    }
}

/// How much of a text goes into the first message: all, or up to the last line end
/// that fits, or as much as fits.
pub open spec fn first_part(s: Seq<char>, limit: nat) -> int {
    if s.len() <= limit {
        s.len() as int
    } else if line_end(s, limit as int) > 0 {
        line_end(s, limit as int)
    } else {
        limit as int
    }
}

/// A text in parts that fit into messages.
pub open spec fn parts(s: Seq<char>, limit: nat) -> Seq<Seq<char>>
    decreases s.len(),
{
    if s.len() == 0 || limit == 0 || !(0 < first_part(s, limit) <= s.len()) {
        Seq::empty()
    } else {
        seq![s.take(first_part(s, limit))] + parts(s.skip(first_part(s, limit)), limit)
    }
}

proof fn lemma_line_end(s: Seq<char>, k: int)
    requires
        0 <= k <= s.len(),
    ensures
        0 <= line_end(s, k) <= k,
    decreases k,
{
    if k > 0 && s[k - 1] != '\n' {
        lemma_line_end(s, k - 1);
    }
}

proof fn lemma_first_part(s: Seq<char>, limit: nat)
    requires
        s.len() > 0,
        limit > 0,
    ensures
        0 < first_part(s, limit) <= s.len(),
        first_part(s, limit) <= limit,
{
    if s.len() > limit {
        lemma_line_end(s, limit as int);
    }
}

/// All parts, one behind the other.
pub open spec fn strung(list: Seq<Seq<char>>) -> Seq<char>
    decreases list.len(),
{
    if list.len() == 0 {
        Seq::empty()
    } else {
        list[0] + strung(list.skip(1))
    }
}

/// Cutting a reply loses nothing: its parts make it up, in their order, and each is
/// a message that is neither empty nor too long.
pub proof fn cutting_loses_nothing(s: Seq<char>, limit: nat)
    requires
        limit > 0,
    ensures
        strung(parts(s, limit)) == s,
        forall|i: int|
            0 <= i < parts(s, limit).len() ==> 0 < (#[trigger] parts(s, limit)[i]).len() <= limit,
    decreases s.len(),
{
    if s.len() > 0 {
        lemma_first_part(s, limit);
        let n = first_part(s, limit);
        let rest = parts(s.skip(n), limit);
        let all = parts(s, limit);
        cutting_loses_nothing(s.skip(n), limit);
        assert(all.skip(1) =~= rest);
        assert(s.take(n) + s.skip(n) =~= s);
        assert forall|i: int| 0 <= i < all.len() implies 0 < (#[trigger] all[i]).len() <= limit by {
            if i > 0 {
                assert(all[i] == rest[i - 1]);
            }
        }
    }
}

/// Cuts a reply into parts that fit into messages, at line ends where that is
/// possible.
pub fn split_message(text: &str, limit: usize) -> (r: Vec<String>)
    requires
        limit > 0,
    ensures
        views(r@) == parts(text@, limit as nat),
{
    let v = to_chars(text);
    let n = v.len();
    let mut out: Vec<String> = Vec::new();
    let mut at: usize = 0;
    assert(v@.skip(0) =~= v@);
    while at < n
        invariant
            n == v@.len(),
            v@ == text@,
            at <= n,
            limit > 0,
            views(out@) + parts(v@.skip(at as int), limit as nat) == parts(v@, limit as nat),
        decreases n - at,
    {
        let ghost rest = v@.skip(at as int);
        let mut end: usize = n;
        if n - at > limit {
            end = at + limit;
            while end > at && v[end - 1] != '\n'
                invariant
                    n == v@.len(),
                    at <= end <= at + limit <= n,
                    rest == v@.skip(at as int),
                    line_end(rest, limit as int) == line_end(rest, end - at),
                decreases end,
            {
                assert(rest[end - at - 1] == v@[end - 1]);
                end -= 1;
            }
            if end > at {
                assert(rest[end - at - 1] == v@[end - 1]);
            } else {
                end = at + limit;
            }
        }
        proof {
            lemma_first_part(rest, limit as nat);
        }
        assert(end - at == first_part(rest, limit as nat));
        let part = text.substring_char(at, end).to_owned();
        proof {
            assert(part@ =~= rest.take(end - at));
            assert(rest.skip(end - at) =~= v@.skip(end as int));
            crate::text::lemma_views_push(out@, part);
            assert(views(out@) + (seq![part@] + parts(v@.skip(end as int), limit as nat))
                =~= views(out@).push(part@) + parts(v@.skip(end as int), limit as nat));
        }
        out.push(part);
        at = end;
    }
    assert(v@.skip(n as int) =~= Seq::empty());
    assert(views(out@) + Seq::empty() =~= views(out@));
    out
}

// ---------------------------------------------------------------------------
// Titles
// ---------------------------------------------------------------------------

/// The name of a thread about a text: the first line of it that says something, in
/// forty characters at most.
pub open spec fn short_name(s: Seq<char>) -> Seq<char> {
    let said = trimmed(s);
    let line = said.take(first_of(said, '\n'));
    if said.len() == 0 {
        "conversation"@
    } else if line.len() > 40 {
        line.take(40)
    } else {
        line
    }
}

/// The name of a thread about a text.
pub fn shorten_thread_name(text: &str) -> (r: String)
    ensures
        r@ == short_name(text@),
{
    let said = trim(text);
    if said.unicode_len() == 0 {
        return "conversation".to_owned();
    }
    let v = to_chars(said);
    let mut n: usize = 0;
    proof {
        crate::text::lemma_first_of(said@, '\n');
    }
    while n < v.len() && n < 40 && v[n] != '\n'
        invariant
            v@ == said@,
            n <= v@.len(),
            n <= 40,
            n <= first_of(said@, '\n') <= said@.len(),
            forall|i: int| 0 <= i < first_of(said@, '\n') ==> said@[i] != '\n',
            first_of(said@, '\n') < said@.len() ==> said@[first_of(said@, '\n')] == '\n',
        decreases v@.len() - n,
    {
        n += 1;
    }
    let cut = said.substring_char(0, n);
    assert(cut@ =~= short_name(text@));
    cut.to_owned()
}

} // verus!
