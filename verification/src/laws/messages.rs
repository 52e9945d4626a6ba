//! How long texts are parted, and how threads are named.

use vstd::prelude::*;
use crate::format::{first_part, line_end, parts, short_name};
use crate::text::{
    begins, blank, free_of, lemma_first_of, lemma_trim_ends, mapped, occurs, only, stands_at, trimmed,
    trimmed_of, without_front,
};

verus! {

proof fn lemma_line_end(s: Seq<char>, k: int)
    requires
        0 <= k <= s.len(),
    ensures
        0 <= line_end(s, k) <= k,
        line_end(s, k) > 0 ==> s[line_end(s, k) - 1] == '\n',
        forall|i: int| line_end(s, k) <= i < k ==> #[trigger] s[i] != '\n',
    decreases k,
{
    if k > 0 && s[k - 1] != '\n' {
        lemma_line_end(s, k - 1);
    }
}

/// A text that fits is one part. A longer one is parted at the end of the last
/// line that fits; only where no line ends within the limit is it parted in the
/// middle of one, at the limit.
pub proof fn texts_are_parted_at_lines(s: Seq<char>, limit: nat)
    requires
        limit > 0,
        s.len() > 0,
    ensures
        parts(s, limit).len() > 0,
        begins(s, parts(s, limit)[0]),
        s.len() <= limit ==> parts(s, limit) == seq![s],
        s.len() > limit ==> {
            let first = parts(s, limit)[0];
            &&& 0 < first.len() <= limit
            &&& first.last() == '\n' || (first.len() == limit && free_of(first, '\n'))
            &&& forall|i: int| first.len() <= i < limit ==> #[trigger] s[i] != '\n'
            &&& parts(s, limit) == seq![first] + parts(s.skip(first.len() as int), limit)
        },
{
    if s.len() > limit {
        lemma_line_end(s, limit as int);
    }
    let n = first_part(s, limit);
    let first = parts(s, limit)[0];
    assert(first == s.take(n));
    assert(s.subrange(0, n) =~= first);
    if s.len() <= limit {
        assert(s.take(n) =~= s);
        assert(s.skip(n) =~= Seq::<char>::empty());
        assert(parts(s.skip(n), limit) =~= Seq::<Seq<char>>::empty());
        assert(parts(s, limit) =~= seq![s]);
    } else if line_end(s, limit as int) == 0 {
        assert forall|i: int| 0 <= i < first.len() implies #[trigger] first[i] != '\n' by {
            assert(first[i] == s[i]);
        }
    }
}

/// A thread is named by the beginning of what was said, without white space in
/// front, at most forty characters of its first line, and all of that line
/// where it fits; where nothing was said it still has a name.
pub proof fn threads_are_named_by_what_was_said(s: Seq<char>)
    ensures
        short_name(s).len() > 0,
        short_name(s).len() <= 40,
        !blank(s) ==> begins(trimmed(s), short_name(s)),
        !blank(s) ==> free_of(short_name(s), '\n'),
        !blank(s) && short_name(s).len() < 40 ==> short_name(s).len() == trimmed(s).len() || trimmed(
            s,
        )[short_name(s).len() as int] == '\n',
{
    reveal_strlit("conversation");
    let said = trimmed(s);
    lemma_first_of(said, '\n');
    let n = short_name(s);
    let (a, b) = crate::text::trimming_takes_white_space(s);
    if said.len() > 0 {
        assert(!crate::text::is_white_space(said[0]));
        assert(said[0] != '\n');
        assert(said.subrange(0, n.len() as int) =~= n);
        assert forall|i: int| 0 <= i < n.len() implies #[trigger] n[i] != '\n' by {
            assert(n[i] == said[i]);
        }
    }
}

/// A character that is put in place of another takes all its places, and leaves
/// every other character where it is.
pub proof fn characters_take_their_places(s: Seq<char>, from: char, to: char)
    ensures
        mapped(s, from, to).len() == s.len(),
        from != to ==> free_of(mapped(s, from, to), from),
        forall|i: int| 0 <= i < s.len() && s[i] != from ==> #[trigger] mapped(s, from, to)[i] == s[i],
        forall|i: int| 0 <= i < s.len() && s[i] == from ==> #[trigger] mapped(s, from, to)[i] == to,
{
}

/// Trimming a character off takes it away at both ends only: what is left is a
/// stretch of the text that neither begins nor ends with it.
pub proof fn characters_are_trimmed_at_the_ends(s: Seq<char>, c: char)
    ensures
        trimmed_of(s, c).len() <= s.len(),
        trimmed_of(s, c).len() > 0 ==> trimmed_of(s, c)[0] != c && trimmed_of(s, c).last() != c,
        occurs(s, trimmed_of(s, c)),
        s.len() > 0 && s[0] != c && s.last() != c ==> trimmed_of(s, c) == s,
{
    let f = without_front(s, only(c));
    let t = trimmed_of(s, c);
    lemma_trim_ends(s, only(c));
    lemma_trim_ends(f, only(c));
    if t.len() > 0 {
        assert(t[0] == f[0]);
    }
    let a = s.len() - f.len();
    assert(s.subrange(a, a + t.len()) =~= t);
    assert(stands_at(s, t, a));
}

} // verus!
