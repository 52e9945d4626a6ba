//! Strings as sequences of characters: the splitting, trimming, searching and
//! number forms that the rest of the library is stated in.

use vstd::prelude::*;

verus! {

/// `String::push` puts the character behind the others.
pub assume_specification[ String::push ](s: &mut String, ch: char)
    ensures
        final(s)@ == old(s)@.push(ch),
;

/// The characters with the Unicode property White_Space.
pub open spec fn is_white_space(c: char) -> bool {
    ||| 0x09 <= c as u32 <= 0x0d
    ||| c as u32 == 0x20
    ||| c as u32 == 0x85
    ||| c as u32 == 0xa0
    ||| c as u32 == 0x1680
    ||| 0x2000 <= c as u32 <= 0x200a
    ||| c as u32 == 0x2028
    ||| c as u32 == 0x2029
    ||| c as u32 == 0x202f
    ||| c as u32 == 0x205f
    ||| c as u32 == 0x3000
}

/// `char::is_whitespace` tells whether a character has the property White_Space.
pub assume_specification[ char::is_whitespace ](c: char) -> (b: bool)
    ensures
        b == is_white_space(c),
;

/// The views of a sequence of strings.
pub open spec fn views(v: Seq<String>) -> Seq<Seq<char>> {
    v.map_values(|s: String| s@)
}

/// The characters of a string, one by one.
pub fn to_chars(s: &str) -> (r: Vec<char>)
    ensures
        r@ == s@,
{
    let mut out: Vec<char> = Vec::new();
    for c in it: s.chars()
        invariant
            out@ == s@.take(it.index()),
            it.seq() == s@,
    {
        out.push(c);
    }
    out
}

/// The characters `0` to `9`.
pub open spec fn is_digit(c: char) -> bool {
    '0' <= c <= '9'
}

/// The characters `a` to `z` and `A` to `Z`.
pub open spec fn is_letter(c: char) -> bool {
    'a' <= c <= 'z' || 'A' <= c <= 'Z'
}

pub fn ascii_digit(c: char) -> (b: bool)
    ensures
        b == is_digit(c),
{
    '0' <= c && c <= '9'
}

pub fn ascii_letter(c: char) -> (b: bool)
    ensures
        b == is_letter(c),
{
    ('a' <= c && c <= 'z') || ('A' <= c && c <= 'Z')
}

/// The predicate that holds of one character alone.
pub open spec fn only(sep: char) -> spec_fn(char) -> bool {
    |c: char| c == sep
}

/// The predicate that holds of white space.
pub open spec fn white() -> spec_fn(char) -> bool {
    |c: char| is_white_space(c)
}

// ---------------------------------------------------------------------------
// Bytes
// ---------------------------------------------------------------------------

/// How many bytes a text takes in UTF-8.
pub open spec fn byte_len(s: Seq<char>) -> nat {
    vstd::utf8::encode_utf8(s).len()
}

/// Texts one behind the other take the bytes of both.
pub proof fn lemma_byte_len_add(a: Seq<char>, b: Seq<char>)
    ensures
        byte_len(a + b) == byte_len(a) + byte_len(b),
        vstd::utf8::encode_utf8(a + b) == vstd::utf8::encode_utf8(a) + vstd::utf8::encode_utf8(b),
    decreases a.len(),
{
    if a.len() == 0 {
        assert(a + b =~= b);
        assert(vstd::utf8::encode_utf8(a) + vstd::utf8::encode_utf8(b) =~= vstd::utf8::encode_utf8(b));
    } else {
        lemma_byte_len_add(a.drop_first(), b);
        assert((a + b).drop_first() =~= a.drop_first() + b);
        assert((a + b)[0] == a[0]);
        assert(vstd::utf8::encode_utf8(a + b) =~= vstd::utf8::encode_utf8(a)
            + vstd::utf8::encode_utf8(b));
    }
}

/// How many bytes a text takes.
pub fn bytes_of(s: &str) -> (n: usize)
    ensures
        n == byte_len(s@),
{
    s.as_bytes().len()
}

// ---------------------------------------------------------------------------
// Equality, prefixes, search
// ---------------------------------------------------------------------------

/// Whether two texts are the same, character by character.
pub fn same(a: &str, b: &str) -> (r: bool)
    ensures
        r == (a@ == b@),
{
    let x = to_chars(a);
    let y = to_chars(b);
    if x.len() != y.len() {
        return false;
    }
    let mut i: usize = 0;
    while i < x.len()
        invariant
            i <= x.len(),
            x.len() == y.len(),
            x@ == a@,
            y@ == b@,
            forall|k: int| 0 <= k < i ==> x@[k] == y@[k],
        decreases x.len() - i,
    {
        if x[i] != y[i] {
            return false;
        }
        i += 1;
    }
    assert(a@ =~= b@);
    true
}

/// Whether a text is one of a list.
pub fn is_one_of(s: &str, list: &Vec<String>) -> (r: bool)
    ensures
        r == views(list@).contains(s@),
{
    let mut i: usize = 0;
    while i < list.len()
        invariant
            i <= list.len(),
            forall|k: int| 0 <= k < i ==> views(list@)[k] != s@,
        decreases list.len() - i,
    {
        if same(s, list[i].as_str()) {
            assert(views(list@)[i as int] == s@);
            return true;
        }
        i += 1;
    }
    false
}

/// Whether `needle` stands in `s` at position `i`.
pub open spec fn stands_at(s: Seq<char>, needle: Seq<char>, i: int) -> bool {
    0 <= i && i + needle.len() <= s.len() && s.subrange(i, i + needle.len()) == needle
}

/// Whether `needle` stands somewhere in `s`.
pub open spec fn occurs(s: Seq<char>, needle: Seq<char>) -> bool {
    exists|i: int| stands_at(s, needle, i)
}

/// Whether `s` begins with `prefix`.
pub open spec fn begins(s: Seq<char>, prefix: Seq<char>) -> bool {
    stands_at(s, prefix, 0)
}

/// Whether `s` ends with `suffix`.
pub open spec fn ends(s: Seq<char>, suffix: Seq<char>) -> bool {
    stands_at(s, suffix, s.len() - suffix.len())
}

/// Whether the characters `needle` stand in `s` at position `i`.
pub fn chars_at(s: &Vec<char>, needle: &Vec<char>, i: usize) -> (r: bool)
    ensures
        r == stands_at(s@, needle@, i as int),
{
    if i > s.len() || s.len() - i < needle.len() {
        return false;
    }
    let mut k: usize = 0;
    while k < needle.len()
        invariant
            k <= needle.len(),
            i + needle.len() <= s.len(),
            forall|j: int| 0 <= j < k ==> s@[i + j] == needle@[j],
        decreases needle.len() - k,
    {
        if s[i + k] != needle[k] {
            assert(s@.subrange(i as int, i + needle@.len())[k as int] == s@[i + k]);
            return false;
        }
        k += 1;
    }
    assert(s@.subrange(i as int, i + needle@.len()) =~= needle@);
    true
}

pub fn starts_with(s: &str, prefix: &str) -> (r: bool)
    ensures
        r == begins(s@, prefix@),
{
    chars_at(&to_chars(s), &to_chars(prefix), 0)
}

pub fn ends_with(s: &str, suffix: &str) -> (r: bool)
    ensures
        r == ends(s@, suffix@),
{
    let a = to_chars(s);
    let b = to_chars(suffix);
    if a.len() < b.len() {
        return false;
    }
    chars_at(&a, &b, a.len() - b.len())
}

/// The least position from `from` on at which `needle` stands in `s`.
pub open spec fn is_first_at(s: Seq<char>, needle: Seq<char>, from: int, i: int) -> bool {
    &&& from <= i
    &&& stands_at(s, needle, i)
    &&& forall|k: int| from <= k < i ==> !stands_at(s, needle, k)
}

/// The first position at which `needle` stands in `s`.
pub open spec fn found(s: Seq<char>, needle: Seq<char>) -> Option<int>
    decreases s.len(),
{
    if stands_at(s, needle, 0) {
        Some(0)
    } else if s.len() == 0 {
        None
    } else {
        match found(s.skip(1), needle) {
            Some(i) => Some(i + 1),
            None => None,
        }
    }
}

/// What is found is the first position, and there is one unless nothing is found.
pub proof fn lemma_found(s: Seq<char>, needle: Seq<char>)
    ensures
        match found(s, needle) {
            Some(i) => is_first_at(s, needle, 0, i),
            None => forall|k: int| !stands_at(s, needle, k),
        },
    decreases s.len(),
{
    if !stands_at(s, needle, 0) && s.len() > 0 {
        lemma_found(s.skip(1), needle);
        assert forall|k: int| 0 < k implies stands_at(s, needle, k) == stands_at(
            s.skip(1),
            needle,
            k - 1,
        ) by {
            if k + needle.len() <= s.len() {
                assert(s.skip(1).subrange(k - 1, k - 1 + needle.len()) =~= s.subrange(
                    k,
                    k + needle.len(),
                ));
            }
        }
        match found(s.skip(1), needle) {
            Some(i) => {
                assert(stands_at(s, needle, i + 1));
                assert forall|k: int| 0 <= k < i + 1 implies !stands_at(s, needle, k) by {
                    if k > 0 {
                        assert(!stands_at(s.skip(1), needle, k - 1));
                    }
                }
            },
            None => {
                assert forall|k: int| !stands_at(s, needle, k) by {
                    if k > 0 {
                        assert(!stands_at(s.skip(1), needle, k - 1));
                    }
                }
            },
        }
    } else if s.len() == 0 && !stands_at(s, needle, 0) {
        assert forall|k: int| !stands_at(s, needle, k) by {
            if stands_at(s, needle, k) {
                assert(k == 0);
            }
        }
    }
}

/// Finds the first place from `from` on at which `needle` stands.
pub fn find_from(s: &Vec<char>, needle: &Vec<char>, from: usize) -> (r: Option<usize>)
    ensures
        match r {
            Some(i) => is_first_at(s@, needle@, from as int, i as int) && i + needle@.len() <= s@.len(),
            None => forall|k: int| from <= k ==> !stands_at(s@, needle@, k),
        },
{
    if s.len() < needle.len() {
        return None;
    }
    let last = s.len() - needle.len();
    let mut i: usize = from;
    while i <= last
        invariant
            from <= i,
            from <= last ==> i <= last + 1,
            last == s@.len() - needle@.len(),
            forall|k: int| from <= k < i ==> !stands_at(s@, needle@, k),
        decreases last + 1 - i,
    {
        if chars_at(s, needle, i) {
            return Some(i);
        }
        if i == last {
            return None;
        }
        i += 1;
    }
    None
}

/// The first place at which `needle` stands.
pub fn find(s: &Vec<char>, needle: &Vec<char>) -> (r: Option<usize>)
    ensures
        match r {
            Some(i) => found(s@, needle@) == Some(i as int) && i + needle@.len() <= s@.len(),
            None => found(s@, needle@) is None,
        },
{
    let r = find_from(s, needle, 0);
    proof {
        lemma_found(s@, needle@);
        if let Some(i) = r {
            match found(s@, needle@) {
                Some(j) => {
                    if j < i {
                        assert(!stands_at(s@, needle@, j));
                    } else if i < j {
                        assert(!stands_at(s@, needle@, i as int));
                    }
                },
                None => {
                    assert(!stands_at(s@, needle@, i as int));
                },
            }
        }
    }
    r
}

/// Whether `needle` stands somewhere in `s`.
pub fn contains(s: &str, needle: &str) -> (r: bool)
    ensures
        r == occurs(s@, needle@),
{
    let a = to_chars(s);
    let b = to_chars(needle);
    match find_from(&a, &b, 0) {
        Some(i) => {
            assert(stands_at(s@, needle@, i as int));
            true
        },
        None => false,
    }
}

/// What follows `prefix`, where the text begins with it.
pub fn strip_prefix(s: &str, prefix: &str) -> (r: Option<String>)
    ensures
        match r {
            Some(rest) => begins(s@, prefix@) && rest@ == s@.skip(prefix@.len() as int),
            None => !begins(s@, prefix@),
        },
{
    if !starts_with(s, prefix) {
        return None;
    }
    let n = s.unicode_len();
    let k = prefix.unicode_len();
    let rest = s.substring_char(k, n).to_owned();
    assert(rest@ =~= s@.skip(k as int));
    Some(rest)
}

// ---------------------------------------------------------------------------
// Trimming
// ---------------------------------------------------------------------------

/// `s` without the longest front whose characters all satisfy `p`.
pub open spec fn without_front(s: Seq<char>, p: spec_fn(char) -> bool) -> Seq<char>
    decreases s.len(),
{
    if s.len() > 0 && p(s[0]) {
        without_front(s.drop_first(), p)
    } else {
        s
    }
}

/// `s` without the longest back whose characters all satisfy `p`.
pub open spec fn without_back(s: Seq<char>, p: spec_fn(char) -> bool) -> Seq<char>
    decreases s.len(),
{
    if s.len() > 0 && p(s.last()) {
        without_back(s.drop_last(), p)
    } else {
        s
    }
}

/// `s` without white space at either end.
pub open spec fn trimmed(s: Seq<char>) -> Seq<char> {
    without_back(without_front(s, white()), white())
}

/// A text with nothing but white space.
pub open spec fn blank(s: Seq<char>) -> bool {
    trimmed(s).len() == 0
}

/// `s` without `c` at either end.
pub open spec fn trimmed_of(s: Seq<char>, c: char) -> Seq<char> {
    without_back(without_front(s, only(c)), only(c))
}

/// What trimming leaves is a stretch of the text, and neither of its ends
/// satisfies the predicate.
pub proof fn lemma_trim_ends(s: Seq<char>, p: spec_fn(char) -> bool)
    ensures
        without_front(s, p).len() <= s.len(),
        without_front(s, p) == s.skip(s.len() - without_front(s, p).len()),
        without_front(s, p).len() > 0 ==> !p(without_front(s, p)[0]),
        without_back(s, p).len() <= s.len(),
        without_back(s, p) == s.take(without_back(s, p).len() as int),
        without_back(s, p).len() > 0 ==> !p(without_back(s, p).last()),
    decreases s.len(),
{
    if s.len() > 0 {
        lemma_trim_ends(s.drop_first(), p);
        lemma_trim_ends(s.drop_last(), p);
        if p(s[0]) {
            let w = without_front(s, p);
            assert(w =~= s.skip(s.len() - w.len()));
        } else {
            assert(s =~= s.skip(0));
        }
        if p(s.last()) {
            let w = without_back(s, p);
            assert(w =~= s.take(w.len() as int));
        } else {
            assert(s =~= s.take(s.len() as int));
        }
    } else {
        assert(s =~= s.skip(0));
        assert(s =~= s.take(0));
    }
}

/// Trimming a trimmed text changes nothing.
pub proof fn trimming_is_idempotent(s: Seq<char>)
    ensures
        trimmed(trimmed(s)) == trimmed(s),
{
    let a = without_front(s, white());
    let t = trimmed(s);
    lemma_trim_ends(s, white());
    lemma_trim_ends(a, white());
    if t.len() > 0 {
        assert(t[0] == a[0]);
    }
}

pub fn trim_start(s: &str) -> (r: &str)
    ensures
        r@ == without_front(s@, white()),
{
    let v = to_chars(s);
    let mut lo: usize = 0;
    assert(s@.skip(0) =~= s@);
    while lo < v.len() && v[lo].is_whitespace()
        invariant
            lo <= v.len(),
            v@ == s@,
            without_front(s@, white()) == without_front(s@.skip(lo as int), white()),
        decreases v.len() - lo,
    {
        assert(s@.skip(lo as int).drop_first() =~= s@.skip(lo + 1));
        lo += 1;
    }
    let r = s.substring_char(lo, v.len());
    assert(r@ =~= s@.skip(lo as int));
    r
}

pub fn trim_end(s: &str) -> (r: &str)
    ensures
        r@ == without_back(s@, white()),
{
    let v = to_chars(s);
    let mut hi: usize = v.len();
    assert(s@.take(hi as int) =~= s@);
    while 0 < hi && v[hi - 1].is_whitespace()
        invariant
            hi <= v.len(),
            v@ == s@,
            without_back(s@, white()) == without_back(s@.take(hi as int), white()),
        decreases hi,
    {
        assert(s@.take(hi as int).drop_last() =~= s@.take(hi - 1));
        assert(s@.take(hi as int).last() == v@[hi - 1]);
        hi -= 1;
    }
    let r = s.substring_char(0, hi);
    assert(r@ =~= s@.take(hi as int));
    proof {
        if hi > 0 {
            assert(s@.take(hi as int).last() == v@[hi - 1]);
        }
    }
    r
}

pub fn trim(s: &str) -> (r: &str)
    ensures
        r@ == trimmed(s@),
{
    trim_end(trim_start(s))
}

/// Whether a text holds nothing but white space.
pub fn is_blank(s: &str) -> (r: bool)
    ensures
        r == blank(s@),
{
    trim(s).unicode_len() == 0
}

/// The text without `c` at its end.
pub fn trim_end_of(s: &str, c: char) -> (r: &str)
    ensures
        r@ == without_back(s@, only(c)),
{
    let v = to_chars(s);
    let mut hi: usize = v.len();
    assert(s@.take(hi as int) =~= s@);
    while 0 < hi && v[hi - 1] == c
        invariant
            hi <= v.len(),
            v@ == s@,
            without_back(s@, only(c)) == without_back(s@.take(hi as int), only(c)),
        decreases hi,
    {
        assert(s@.take(hi as int).drop_last() =~= s@.take(hi - 1));
        assert(s@.take(hi as int).last() == v@[hi - 1]);
        hi -= 1;
    }
    let r = s.substring_char(0, hi);
    assert(r@ =~= s@.take(hi as int));
    proof {
        if hi > 0 {
            assert(s@.take(hi as int).last() == v@[hi - 1]);
        }
    }
    r
}

/// The text without `c` at either end.
pub fn trim_of(s: &str, c: char) -> (r: String)
    ensures
        r@ == trimmed_of(s@, c),
{
    let v = to_chars(s);
    let mut lo: usize = 0;
    assert(s@.skip(0) =~= s@);
    while lo < v.len() && v[lo] == c
        invariant
            lo <= v.len(),
            v@ == s@,
            without_front(s@, only(c)) == without_front(s@.skip(lo as int), only(c)),
        decreases v.len() - lo,
    {
        assert(s@.skip(lo as int).drop_first() =~= s@.skip(lo + 1));
        lo += 1;
    }
    let mut hi: usize = v.len();
    let ghost a = s@.skip(lo as int);
    assert(a.take(hi - lo) =~= a);
    assert(without_front(s@, only(c)) == a);
    while lo < hi && v[hi - 1] == c
        invariant
            lo <= hi <= v.len(),
            v@ == s@,
            a == s@.skip(lo as int),
            without_back(a, only(c)) == without_back(a.take(hi - lo), only(c)),
        decreases hi,
    {
        assert(a.take(hi - lo).drop_last() =~= a.take(hi - 1 - lo));
        assert(a.take(hi - lo).last() == v@[hi - 1]);
        hi -= 1;
    }
    proof {
        if hi > lo {
            assert(a.take(hi - lo).last() == v@[hi - 1]);
        }
    }
    let r = s.substring_char(lo, hi).to_owned();
    assert(r@ =~= a.take(hi - lo));
    r
}

// ---------------------------------------------------------------------------
// Splitting and joining
// ---------------------------------------------------------------------------

/// The stretches of `s` between the characters that satisfy `p`; one more than
/// there are such characters.
pub open spec fn cut(s: Seq<char>, p: spec_fn(char) -> bool) -> Seq<Seq<char>>
    decreases s.len(),
{
    if s.len() == 0 {
        seq![Seq::<char>::empty()]
    } else {
        let before = cut(s.drop_last(), p);
        if p(s.last()) {
            before.push(Seq::<char>::empty())
        } else {
            before.drop_last().push(before.last().push(s.last()))
        }
    }
}

/// The parts of `s` between separators.
pub open spec fn pieces(s: Seq<char>, sep: char) -> Seq<Seq<char>> {
    cut(s, only(sep))
}

/// The predicate that holds of a text with at least one character.
pub open spec fn nonempty() -> spec_fn(Seq<char>) -> bool {
    |w: Seq<char>| w.len() > 0
}

/// The words of `s`: what white space separates.
pub open spec fn words(s: Seq<char>) -> Seq<Seq<char>> {
    cut(s, white()).filter(nonempty())
}

/// Puts a string behind a list; the views follow.
pub proof fn lemma_views_push(v: Seq<String>, s: String)
    ensures
        views(v.push(s)) == views(v).push(s@),
{
    assert(views(v.push(s)) =~= views(v).push(s@));
}

pub fn split(s: &str, sep: char) -> (r: Vec<String>)
    ensures
        views(r@) == pieces(s@, sep),
        r@.len() > 0,
{
    let v = to_chars(s);
    let mut done: Vec<String> = Vec::new();
    let mut cur = String::new();
    let mut i: usize = 0;
    assert(cut(v@.take(0), only(sep)) =~= views(done@).push(cur@));
    while i < v.len()
        invariant
            i <= v.len(),
            v@ == s@,
            cut(v@.take(i as int), only(sep)) == views(done@).push(cur@),
        decreases v.len() - i,
    {
        let ghost before = views(done@).push(cur@);
        assert(v@.take(i + 1).drop_last() =~= v@.take(i as int));
        assert(v@.take(i + 1).last() == v@[i as int]);
        assert(before.drop_last() =~= views(done@));
        if v[i] == sep {
            proof {
                lemma_views_push(done@, cur);
            }
            done.push(cur);
            cur = String::new();
        } else {
            cur.push(v[i]);
        }
        i += 1;
    }
    assert(v@.take(v@.len() as int) =~= v@);
    proof {
        lemma_views_push(done@, cur);
    }
    done.push(cur);
    done
}

/// The words of a text.
pub fn split_whitespace(s: &str) -> (r: Vec<String>)
    ensures
        views(r@) == words(s@),
{
    let v = to_chars(s);
    let mut done: Vec<String> = Vec::new();
    let mut cur = String::new();
    let mut i: usize = 0;
    let ghost mut all: Seq<Seq<char>> = Seq::empty();
    assert(cut(v@.take(0), white()) =~= all.push(cur@));
    proof {
        reveal(Seq::filter);
    }
    assert(all.filter(nonempty()) =~= views(done@));
    while i < v.len()
        invariant
            i <= v.len(),
            v@ == s@,
            cut(v@.take(i as int), white()) == all.push(cur@),
            views(done@) == all.filter(nonempty()),
        decreases v.len() - i,
    {
        assert(v@.take(i + 1).drop_last() =~= v@.take(i as int));
        assert(v@.take(i + 1).last() == v@[i as int]);
        assert(all.push(cur@).drop_last() =~= all);
        if v[i].is_whitespace() {
            proof {
                reveal(Seq::filter);
                lemma_views_push(done@, cur);
                all = all.push(cur@);
                assert(all.drop_last() =~= all.take(all.len() - 1));
            }
            if cur.as_str().unicode_len() > 0 {
                done.push(cur);
            }
            cur = String::new();
        } else {
            cur.push(v[i]);
        }
        i += 1;
    }
    assert(v@.take(v@.len() as int) =~= v@);
    proof {
        reveal(Seq::filter);
        lemma_views_push(done@, cur);
        assert(all.push(cur@).drop_last() =~= all);
    }
    if cur.as_str().unicode_len() > 0 {
        done.push(cur);
    }
    done
}

/// The position of the first `c` in `s`, or the length of `s` without one.
pub open spec fn first_of(s: Seq<char>, c: char) -> int
    decreases s.len(),
{
    if s.len() == 0 || s[0] == c {
        0
    } else {
        1 + first_of(s.drop_first(), c)
    }
}

pub proof fn lemma_first_of(s: Seq<char>, c: char)
    ensures
        0 <= first_of(s, c) <= s.len(),
        forall|i: int| 0 <= i < first_of(s, c) ==> s[i] != c,
        first_of(s, c) < s.len() ==> s[first_of(s, c)] == c,
    decreases s.len(),
{
    if s.len() > 0 && s[0] != c {
        lemma_first_of(s.drop_first(), c);
        assert forall|i: int| 0 <= i < first_of(s, c) implies s[i] != c by {
            if i > 0 {
                assert(s[i] == s.drop_first()[i - 1]);
            }
        }
    }
}

/// What stands before and behind the first `c`.
pub open spec fn once(s: Seq<char>, c: char) -> Option<(Seq<char>, Seq<char>)> {
    let i = first_of(s, c);
    if i < s.len() {
        Some((s.take(i), s.skip(i + 1)))
    } else {
        None
    }
}

pub fn split_once(s: &str, c: char) -> (r: Option<(String, String)>)
    ensures
        match r {
            Some((a, b)) => once(s@, c) == Some((a@, b@)),
            None => once(s@, c) is None,
        },
{
    let v = to_chars(s);
    let mut i: usize = 0;
    proof {
        lemma_first_of(s@, c);
    }
    while i < v.len()
        invariant
            i <= v.len(),
            v@ == s@,
            forall|k: int| 0 <= k < i ==> v@[k] != c,
            0 <= first_of(s@, c) <= s@.len(),
            forall|k: int| 0 <= k < first_of(s@, c) ==> s@[k] != c,
            first_of(s@, c) < s@.len() ==> s@[first_of(s@, c)] == c,
        decreases v.len() - i,
    {
        if v[i] == c {
            assert(first_of(s@, c) == i);
            let a = s.substring_char(0, i).to_owned();
            let b = s.substring_char(i + 1, v.len()).to_owned();
            assert(a@ =~= s@.take(i as int));
            assert(b@ =~= s@.skip(i + 1));
            return Some((a, b));
        }
        i += 1;
    }
    None
}

/// The parts with the separator between them.
pub open spec fn joined(parts: Seq<Seq<char>>, sep: Seq<char>) -> Seq<char>
    decreases parts.len(),
{
    if parts.len() == 0 {
        Seq::empty()
    } else if parts.len() == 1 {
        parts[0]
    } else {
        joined(parts.drop_last(), sep) + sep + parts.last()
    }
}

pub fn join(parts: &Vec<String>, sep: &str) -> (r: String)
    ensures
        r@ == joined(views(parts@), sep@),
{
    let mut out = String::new();
    let mut i: usize = 0;
    while i < parts.len()
        invariant
            i <= parts.len(),
            out@ == joined(views(parts@).take(i as int), sep@),
        decreases parts.len() - i,
    {
        assert(views(parts@).take(i + 1).drop_last() =~= views(parts@).take(i as int));
        assert(views(parts@).take(i + 1).last() == parts@[i as int]@);
        if i > 0 {
            out.append(sep);
        }
        out.append(parts[i].as_str());
        proof {
            if i == 0 {
                assert(out@ =~= parts@[0]@);
                assert(views(parts@).take(1)[0] == parts@[0]@);
            }
        }
        i += 1;
    }
    assert(views(parts@).take(parts@.len() as int) =~= views(parts@));
    out
}

// ---------------------------------------------------------------------------
// Replacing
// ---------------------------------------------------------------------------

/// `s` with each `from`, taken from the left without overlap, replaced by `to`.
pub open spec fn replaced(s: Seq<char>, from: Seq<char>, to: Seq<char>) -> Seq<char>
    decreases s.len(),
{
    if from.len() == 0 || s.len() < from.len() {
        s
    } else if s.take(from.len() as int) == from {
        to + replaced(s.skip(from.len() as int), from, to)
    } else {
        seq![s[0]] + replaced(s.skip(1), from, to)
    }
}

/// A text in which something does not stand is kept by replacing it.
pub proof fn lemma_nothing_to_replace(s: Seq<char>, from: Seq<char>, to: Seq<char>)
    requires
        !occurs(s, from),
    ensures
        replaced(s, from, to) == s,
    decreases s.len(),
{
    if from.len() > 0 && s.len() >= from.len() {
        if s.take(from.len() as int) == from {
            assert(s.subrange(0, from.len() as int) =~= from);
            assert(stands_at(s, from, 0));
        } else {
            assert forall|i: int| !stands_at(s.skip(1), from, i) by {
                if stands_at(s.skip(1), from, i) {
                    assert(s.subrange(i + 1, i + 1 + from.len()) =~= s.skip(1).subrange(
                        i,
                        i + from.len(),
                    ));
                    assert(stands_at(s, from, i + 1));
                }
            }
            lemma_nothing_to_replace(s.skip(1), from, to);
            assert(seq![s[0]] + s.skip(1) =~= s);
        }
    }
}

/// Where the beginning of something does not stand, the whole does not either.
pub proof fn lemma_longer_is_absent(s: Seq<char>, head: Seq<char>, tail: Seq<char>)
    requires
        !occurs(s, head),
    ensures
        !occurs(s, head + tail),
{
    assert forall|i: int| !stands_at(s, head + tail, i) by {
        if stands_at(s, head + tail, i) {
            assert(s.subrange(i, i + head.len()) =~= (head + tail).take(head.len() as int));
            assert((head + tail).take(head.len() as int) =~= head);
            assert(s.subrange(i, i + (head + tail).len()).take(head.len() as int) =~= s.subrange(
                i,
                i + head.len(),
            ));
            assert(stands_at(s, head, i));
        }
    }
}

/// The text with each `from` replaced by `to`.
pub fn replace(s: &str, from: &str, to: &str) -> (r: String)
    requires
        from@.len() > 0,
    ensures
        r@ == replaced(s@, from@, to@),
{
    let v = to_chars(s);
    let f = to_chars(from);
    let mut out = String::new();
    let mut i: usize = 0;
    assert(v@.skip(0) =~= v@);
    assert(out@ + replaced(v@.skip(0), f@, to@) =~= replaced(v@, f@, to@));
    while i < v.len() && v.len() - i >= f.len()
        invariant
            i <= v.len(),
            f@.len() > 0,
            replaced(v@, f@, to@) == out@ + replaced(v@.skip(i as int), f@, to@),
        decreases v.len() - i,
    {
        let ghost rest = v@.skip(i as int);
        assert(rest.take(f@.len() as int) =~= v@.subrange(i as int, i + f@.len()));
        if chars_at(&v, &f, i) {
            assert(rest.skip(f@.len() as int) =~= v@.skip(i + f@.len()));
            assert(out@ + (to@ + replaced(v@.skip(i + f@.len()), f@, to@)) =~= out@ + to@ + replaced(
                v@.skip(i + f@.len()),
                f@,
                to@,
            ));
            out.append(to);
            i += f.len();
        } else {
            assert(rest.skip(1) =~= v@.skip(i + 1));
            assert(out@ + (seq![rest[0]] + replaced(v@.skip(i + 1), f@, to@)) =~= out@.push(v@[i as int])
                + replaced(v@.skip(i + 1), f@, to@));
            out.push(v[i]);
            i += 1;
        }
    }
    let tail = s.substring_char(i, v.len());
    assert(tail@ =~= v@.skip(i as int));
    out.append(tail);
    out
}

/// `s` with each `from` replaced by `to`, one character for one.
pub open spec fn mapped(s: Seq<char>, from: char, to: char) -> Seq<char> {
    s.map_values(|c: char| if c == from { to } else { c })
}

pub fn replace_char(s: &str, from: char, to: char) -> (r: String)
    ensures
        r@ == mapped(s@, from, to),
{
    let v = to_chars(s);
    let mut out = String::new();
    let mut i: usize = 0;
    while i < v.len()
        invariant
            i <= v.len(),
            out@ == mapped(v@, from, to).take(i as int),
        decreases v.len() - i,
    {
        assert(mapped(v@, from, to).take(i + 1) =~= mapped(v@, from, to).take(i as int).push(
            mapped(v@, from, to)[i as int],
        ));
        if v[i] == from {
            out.push(to);
        } else {
            out.push(v[i]);
        }
        i += 1;
    }
    assert(mapped(v@, from, to).take(v@.len() as int) =~= mapped(v@, from, to));
    out
}

// ---------------------------------------------------------------------------
// Numbers
// ---------------------------------------------------------------------------

/// The character of a decimal digit.
pub open spec fn digit_char(d: nat) -> char {
    (48 + d) as char
}

/// The decimal form of a number.
pub open spec fn decimal(n: nat) -> Seq<char>
    decreases n,
{
    if n < 10 {
        seq![digit_char(n)]
    } else {
        decimal(n / 10).push(digit_char(n % 10))
    }
}

fn digit_of(d: u64) -> (c: char)
    requires
        d < 10,
    ensures
        c == digit_char(d as nat),
{
    match d {
        0 => '0',
        1 => '1',
        2 => '2',
        3 => '3',
        4 => '4',
        5 => '5',
        6 => '6',
        7 => '7',
        8 => '8',
        _ => '9',
    }
}

/// Appends the decimal form of a number.
pub fn append_decimal(out: &mut String, n: u64)
    ensures
        final(out)@ == old(out)@ + decimal(n as nat),
    decreases n,
{
    if n >= 10 {
        append_decimal(out, n / 10);
    }
    out.push(digit_of(n % 10));
    assert(final(out)@ =~= old(out)@ + decimal(n as nat));
}

/// The decimal form of a number.
pub fn decimal_string(n: u64) -> (r: String)
    ensures
        r@ == decimal(n as nat),
{
    let mut out = String::new();
    append_decimal(&mut out, n);
    assert(out@ =~= decimal(n as nat));
    out
}

/// The number that a row of digits stands for.
pub open spec fn digits_value(s: Seq<char>) -> nat
    decreases s.len(),
{
    if s.len() == 0 {
        0
    } else {
        10 * digits_value(s.drop_last()) + (s.last() as nat - 48) as nat
    }
}

/// One digit or more, and nothing else.
pub open spec fn all_digits(s: Seq<char>) -> bool {
    s.len() > 0 && forall|i: int| 0 <= i < s.len() ==> is_digit(#[trigger] s[i])
}

/// A number no greater than `max` written in decimal, perhaps with a plus sign.
pub open spec fn unsigned(s: Seq<char>, max: nat) -> Option<nat> {
    let d = if s.len() > 0 && s[0] == '+' {
        s.skip(1)
    } else {
        s
    };
    if all_digits(d) && digits_value(d) <= max {
        Some(digits_value(d))
    } else {
        None
    }
}

proof fn lemma_digits_value_prefix(s: Seq<char>, k: int)
    requires
        0 <= k <= s.len(),
        all_digits(s),
    ensures
        digits_value(s.take(k)) <= digits_value(s),
    decreases s.len(),
{
    if k == s.len() {
        assert(s.take(k) =~= s);
    } else if s.len() == 1 {
        assert(s.take(k).len() == 0);
    } else {
        assert(s.drop_last().take(k) =~= s.take(k));
        assert(all_digits(s.drop_last())) by {
            assert forall|i: int| 0 <= i < s.drop_last().len() implies is_digit(
                #[trigger] s.drop_last()[i],
            ) by {
                assert(is_digit(s[i]));
            }
        }
        lemma_digits_value_prefix(s.drop_last(), k);
        assert(is_digit(s.last()));
    }
}

/// The number a text writes in decimal, where it fits in 64 bits.
pub fn parse_u64(s: &str) -> (r: Option<u64>)
    ensures
        match r {
            Some(n) => unsigned(s@, u64::MAX as nat) == Some(n as nat),
            None => unsigned(s@, u64::MAX as nat) is None,
        },
{
    let v = to_chars(s);
    let start: usize = if v.len() > 0 && v[0] == '+' { 1 } else { 0 };
    let ghost d = if v@.len() > 0 && v@[0] == '+' { v@.skip(1) } else { v@ };
    assert(d =~= v@.skip(start as int));
    if start == v.len() {
        return None;
    }
    let mut n: u64 = 0;
    let mut i: usize = start;
    assert(d.take(0).len() == 0);
    while i < v.len()
        invariant
            start <= i <= v.len(),
            start <= 1,
            v@ == s@,
            d == v@.skip(start as int),
            d == (if v@.len() > 0 && v@[0] == '+' { v@.skip(1) } else { v@ }),
            forall|k: int| 0 <= k < i - start ==> is_digit(#[trigger] d[k]),
            n == digits_value(d.take(i - start)),
        decreases v.len() - i,
    {
        let c = v[i];
        assert(d[i - start] == c);
        if !ascii_digit(c) {
            assert(!is_digit(d[i - start]));
            return None;
        }
        let x: u64 = (c as u32 - 48) as u64;
        assert(d.take(i + 1 - start).drop_last() =~= d.take(i - start));
        assert(d.take(i + 1 - start).last() == c);
        if n > (u64::MAX - x) / 10 {
            proof {
                if all_digits(d) {
                    lemma_digits_value_prefix(d, i + 1 - start);
                }
            }
            return None;
        }
        n = n * 10 + x;
        i += 1;
    }
    assert(d.take(v@.len() - start) =~= d);
    Some(n)
}

/// The number a text writes in decimal, where it fits in 32 bits.
pub fn parse_u32(s: &str) -> (r: Option<u32>)
    ensures
        match r {
            Some(n) => unsigned(s@, u32::MAX as nat) == Some(n as nat),
            None => unsigned(s@, u32::MAX as nat) is None,
        },
{
    match parse_u64(s) {
        Some(n) => if n <= u32::MAX as u64 {
            Some(n as u32)
        } else {
            None
        },
        None => None,
    }
}

/// The number a text writes in decimal, where it fits a size.
pub fn parse_usize(s: &str) -> (r: Option<usize>)
    ensures
        match r {
            Some(n) => unsigned(s@, usize::MAX as nat) == Some(n as nat),
            None => unsigned(s@, usize::MAX as nat) is None,
        },
{
    match parse_u64(s) {
        Some(n) => if n <= usize::MAX as u64 {
            Some(n as usize)
        } else {
            None
        },
        None => None,
    }
}

/// The decimal form is made of digits, and they stand for the number.
pub proof fn lemma_decimal_digits(n: nat)
    ensures
        all_digits(decimal(n)),
        digits_value(decimal(n)) == n,
    decreases n,
{
    let s = decimal(n);
    if n < 10 {
        assert(digits_value(s.drop_last()) == 0);
        assert(s.last() as nat == 48 + n);
    } else {
        lemma_decimal_digits(n / 10);
        assert(s.drop_last() =~= decimal(n / 10));
        assert(s.last() as nat == 48 + n % 10);
        assert forall|i: int| 0 <= i < s.len() implies is_digit(#[trigger] s[i]) by {
            if i < s.len() - 1 {
                assert(s[i] == decimal(n / 10)[i]);
            }
        }
    }
}

/// Reading the decimal form of a number gives the number back.
pub proof fn decimal_reads_back(n: nat, max: nat)
    requires
        n <= max,
    ensures
        unsigned(decimal(n), max) == Some(n),
{
    lemma_decimal_digits(n);
    assert(is_digit(decimal(n)[0]));
}

// ---------------------------------------------------------------------------
// Joining and splitting
// ---------------------------------------------------------------------------

/// Whether a character does not occur in a text.
pub open spec fn free_of(s: Seq<char>, c: char) -> bool {
    forall|i: int| 0 <= i < s.len() ==> #[trigger] s[i] != c
}

proof fn lemma_pieces_of_one(s: Seq<char>, c: char)
    requires
        free_of(s, c),
    ensures
        pieces(s, c) == seq![s],
    decreases s.len(),
{
    if s.len() > 0 {
        lemma_pieces_of_one(s.drop_last(), c);
        assert(pieces(s, c) =~= seq![s.drop_last().push(s.last())]);
        assert(s.drop_last().push(s.last()) =~= s);
    } else {
        assert(s =~= Seq::<char>::empty());
    }
}

proof fn lemma_pieces_behind(a: Seq<char>, b: Seq<char>, c: char)
    requires
        free_of(b, c),
    ensures
        pieces(a.push(c) + b, c) == pieces(a, c).push(b),
    decreases b.len(),
{
    let whole = a.push(c) + b;
    if b.len() == 0 {
        assert(whole =~= a.push(c));
        assert(whole.drop_last() =~= a);
        assert(b =~= Seq::<char>::empty());
    } else {
        lemma_pieces_behind(a, b.drop_last(), c);
        assert(whole.drop_last() =~= a.push(c) + b.drop_last());
        assert(whole.last() == b.last());
        assert(pieces(a, c).push(b.drop_last()).drop_last() =~= pieces(a, c));
        assert(b.drop_last().push(b.last()) =~= b);
    }
}

/// Splitting undoes joining: texts without the separator in them, joined by it,
/// are the pieces of the whole.
pub proof fn splitting_undoes_joining(parts: Seq<Seq<char>>, c: char)
    requires
        parts.len() > 0,
        forall|i: int| 0 <= i < parts.len() ==> free_of(#[trigger] parts[i], c),
    ensures
        pieces(joined(parts, seq![c]), c) == parts,
    decreases parts.len(),
{
    if parts.len() == 1 {
        lemma_pieces_of_one(parts[0], c);
        assert(parts =~= seq![parts[0]]);
    } else {
        let front = parts.drop_last();
        assert forall|i: int| 0 <= i < front.len() implies free_of(#[trigger] front[i], c) by {
            assert(front[i] == parts[i]);
        }
        splitting_undoes_joining(front, c);
        let head = joined(front, seq![c]);
        assert(joined(parts, seq![c]) =~= head.push(c) + parts.last());
        assert(free_of(parts[parts.len() - 1], c));
        lemma_pieces_behind(head, parts.last(), c);
        assert(front.push(parts.last()) =~= parts);
    }
}

/// Joining undoes splitting: the pieces of a text, joined by the separator,
/// are the text again, and the separator stands in none of them.
#[verifier::rlimit(40)]
#[verifier::spinoff_prover]
pub proof fn joining_undoes_splitting(s: Seq<char>, c: char)
    ensures
        pieces(s, c).len() > 0,
        joined(pieces(s, c), seq![c]) == s,
        forall|i: int| 0 <= i < pieces(s, c).len() ==> free_of(#[trigger] pieces(s, c)[i], c),
    decreases s.len(),
{
    if s.len() > 0 {
        let front = s.drop_last();
        joining_undoes_splitting(front, c);
        let before = pieces(front, c);
        let all = pieces(s, c);
        if s.last() == c {
            assert(all == before.push(Seq::<char>::empty()));
            assert(all.drop_last() =~= before);
            assert(joined(all, seq![c]) =~= s);
        } else {
            assert(all == before.drop_last().push(before.last().push(s.last())));
            assert(all.drop_last() =~= before.drop_last());
            if before.len() == 1 {
                assert(joined(all, seq![c]) =~= s);
            } else {
                assert(joined(before, seq![c]) == joined(before.drop_last(), seq![c]) + seq![c]
                    + before.last());
                assert(joined(all, seq![c]) == joined(all.drop_last(), seq![c]) + seq![c]
                    + all.last());
                assert(joined(all, seq![c]) =~= joined(before, seq![c]).push(s.last()));
                assert(front.push(s.last()) =~= s);
            }
            assert forall|i: int| 0 <= i < all.len() implies free_of(#[trigger] all[i], c) by {
                if i < all.len() - 1 {
                    assert(all[i] == before[i]);
                } else {
                    assert(free_of(before[before.len() - 1], c));
                }
            }
        }
    } else {
        assert(joined(pieces(s, c), seq![c]) =~= s);
    }
}

/// Splitting a text once parts it at the first separator: what comes before
/// holds none, and the two sides with the separator between them are the text.
/// Only a text without the separator is not parted.
pub proof fn first_separator_parts(s: Seq<char>, c: char)
    ensures
        match once(s, c) {
            Some((a, b)) => s == a + seq![c] + b && free_of(a, c),
            None => free_of(s, c),
        },
{
    lemma_first_of(s, c);
    if first_of(s, c) < s.len() {
        let i = first_of(s, c);
        assert(s =~= s.take(i) + seq![c] + s.skip(i + 1));
    }
}

/// A text in two parts around a separator that the first part does not hold is
/// split there.
pub proof fn parts_are_found_again(a: Seq<char>, b: Seq<char>, c: char)
    requires
        free_of(a, c),
    ensures
        once(a + seq![c] + b, c) == Some((a, b)),
        once(a, c) is None,
{
    let s = a + seq![c] + b;
    lemma_first_of(s, c);
    lemma_first_of(a, c);
    assert(s[a.len() as int] == c);
    if first_of(s, c) < a.len() {
        assert(s[first_of(s, c)] == a[first_of(s, c)]);
    }
    assert(s.take(a.len() as int) =~= a);
    assert(s.skip((a.len() + 1) as int) =~= b);
}

proof fn lemma_dropped(s: Seq<char>, p: spec_fn(char) -> bool)
    ensures
        forall|i: int| 0 <= i < s.len() - without_front(s, p).len() ==> p(#[trigger] s[i]),
        forall|i: int| without_back(s, p).len() <= i < s.len() ==> p(#[trigger] s[i]),
    decreases s.len(),
{
    lemma_trim_ends(s, p);
    if s.len() > 0 {
        lemma_dropped(s.drop_first(), p);
        lemma_dropped(s.drop_last(), p);
        if p(s[0]) {
            assert forall|i: int| 0 <= i < s.len() - without_front(s, p).len() implies p(
                #[trigger] s[i],
            ) by {
                if i > 0 {
                    assert(s.drop_first()[i - 1] == s[i]);
                }
            }
        }
        if p(s.last()) {
            assert forall|i: int| without_back(s, p).len() <= i < s.len() implies p(
                #[trigger] s[i],
            ) by {
                if i < s.len() - 1 {
                    assert(s.drop_last()[i] == s[i]);
                }
            }
        }
    }
}

/// Trimming takes away white space at the two ends, all of it, and nothing
/// else.
#[verifier::rlimit(40)]
#[verifier::spinoff_prover]
pub proof fn trimming_takes_white_space(s: Seq<char>) -> (r: (int, int))
    ensures
        0 <= r.0 <= r.1 <= s.len(),
        trimmed(s) == s.subrange(r.0, r.1),
        forall|i: int| 0 <= i < r.0 ==> is_white_space(#[trigger] s[i]),
        forall|i: int| r.1 <= i < s.len() ==> is_white_space(#[trigger] s[i]),
        trimmed(s).len() > 0 ==> !is_white_space(trimmed(s)[0]) && !is_white_space(
            trimmed(s).last(),
        ),
{
    let f = without_front(s, white());
    let t = trimmed(s);
    lemma_trim_ends(s, white());
    lemma_dropped(s, white());
    lemma_trim_ends(f, white());
    lemma_dropped(f, white());
    let a = s.len() - f.len();
    let b = a + t.len();
    assert(t =~= s.subrange(a, b));
    assert forall|i: int| 0 <= i < a implies is_white_space(#[trigger] s[i]) by {
        assert(white()(s[i]));
    }
    assert forall|i: int| b <= i < s.len() implies is_white_space(#[trigger] s[i]) by {
        assert(f[i - a] == s[i]);
        assert(white()(f[i - a]));
    }
    if t.len() > 0 {
        assert(t[0] == f[0]);
    }
    (a, b)
}

/// A text that neither begins nor ends with white space is kept by trimming.
pub proof fn trimmed_text_is_kept(s: Seq<char>)
    requires
        s.len() > 0 ==> !is_white_space(s[0]) && !is_white_space(s.last()),
    ensures
        trimmed(s) == s,
{
}

/// Whether a text is one word: not empty, and without white space.
pub open spec fn is_word(s: Seq<char>) -> bool {
    s.len() > 0 && forall|i: int| 0 <= i < s.len() ==> !is_white_space(#[trigger] s[i])
}

proof fn lemma_cut_parts(a: Seq<char>, w: char, b: Seq<char>, p: spec_fn(char) -> bool)
    requires
        p(w),
    ensures
        cut(a.push(w) + b, p) == cut(a, p) + cut(b, p),
        cut(b, p).len() > 0,
    decreases b.len(),
{
    let whole = a.push(w) + b;
    if b.len() == 0 {
        assert(whole =~= a.push(w));
        assert(whole.drop_last() =~= a);
        assert(cut(whole, p) =~= cut(a, p) + cut(b, p));
    } else {
        lemma_cut_parts(a, w, b.drop_last(), p);
        assert(whole.drop_last() =~= a.push(w) + b.drop_last());
        assert(whole.last() == b.last());
        let before = cut(b.drop_last(), p);
        assert((cut(a, p) + before).last() == before.last());
        assert((cut(a, p) + before).drop_last() =~= cut(a, p) + before.drop_last());
        assert(cut(whole, p) =~= cut(a, p) + cut(b, p));
    }
}

proof fn lemma_cut_of_one(s: Seq<char>, p: spec_fn(char) -> bool)
    requires
        forall|i: int| 0 <= i < s.len() ==> !p(#[trigger] s[i]),
    ensures
        cut(s, p) == seq![s],
    decreases s.len(),
{
    if s.len() > 0 {
        assert forall|i: int| 0 <= i < s.drop_last().len() implies !p(#[trigger] s.drop_last()[i]) by {
            assert(s.drop_last()[i] == s[i]);
        }
        lemma_cut_of_one(s.drop_last(), p);
        assert(cut(s, p) =~= seq![s.drop_last().push(s.last())]);
        assert(s.drop_last().push(s.last()) =~= s);
    } else {
        assert(s =~= Seq::<char>::empty());
    }
}

/// Any white space parts words: the words of a text with a white space in it
/// are those before it and then those behind it. A text without white space is
/// one word, and an empty text has none.
#[verifier::rlimit(40)]
#[verifier::spinoff_prover]
pub proof fn white_space_parts_words(a: Seq<char>, w: char, b: Seq<char>)
    requires
        is_white_space(w),
    ensures
        words(a + seq![w] + b) == words(a) + words(b),
        is_word(a) ==> words(a) == seq![a],
        a.len() == 0 ==> words(a).len() == 0,
{
    lemma_cut_parts(a, w, b, white());
    assert(a + seq![w] + b =~= a.push(w) + b);
    Seq::filter_distributes_over_add(cut(a, white()), cut(b, white()), nonempty());
    reveal(Seq::filter);
    if is_word(a) {
        lemma_cut_of_one(a, white());
        assert(seq![a].drop_last() =~= Seq::<Seq<char>>::empty());
        assert(seq![a].filter(nonempty()) =~= seq![a]);
    }
    if a.len() == 0 {
        let e = Seq::<char>::empty();
        assert(seq![e].drop_last() =~= Seq::<Seq<char>>::empty());
        assert(Seq::<Seq<char>>::empty().filter(nonempty()).len() == 0);
        assert(!nonempty()(e));
        assert(seq![e].filter(nonempty()).len() == 0);
        assert(a =~= e);
    }
}

/// The words of a text are free of white space, and none of them is empty.
#[verifier::rlimit(40)]
#[verifier::spinoff_prover]
pub proof fn words_hold_no_white_space(s: Seq<char>)
    ensures
        forall|i: int| 0 <= i < words(s).len() ==> is_word(#[trigger] words(s)[i]),
    decreases s.len(),
{
    if exists|k: int| 0 <= k < s.len() && is_white_space(s[k]) {
        let k = choose|k: int| 0 <= k < s.len() && is_white_space(s[k]);
        let (a, b) = (s.take(k), s.skip(k + 1));
        words_hold_no_white_space(a);
        words_hold_no_white_space(b);
        white_space_parts_words(a, s[k], b);
        assert(a + seq![s[k]] + b =~= s);
        assert forall|i: int| 0 <= i < words(s).len() implies is_word(#[trigger] words(s)[i]) by {
            if i < words(a).len() {
                assert(words(s)[i] == words(a)[i]);
            } else {
                assert(words(s)[i] == words(b)[i - words(a).len()]);
            }
        }
    } else {
        white_space_parts_words(s, ' ', Seq::empty());
    }
}

/// Where a part to replace first stands, the replacement comes behind the text
/// before it, and the rest is gone through in the same way.
#[verifier::rlimit(40)]
#[verifier::spinoff_prover]
pub proof fn first_part_is_replaced(s: Seq<char>, from: Seq<char>, to: Seq<char>, i: int)
    requires
        from.len() > 0,
        is_first_at(s, from, 0, i),
    ensures
        replaced(s, from, to) == s.take(i) + to + replaced(s.skip(i + from.len()), from, to),
    decreases i,
{
    if i == 0 {
        assert(s.take(from.len() as int) =~= s.subrange(0, from.len() as int));
        assert(s.take(0) + to =~= to);
    } else {
        assert(!stands_at(s, from, 0));
        assert(s.take(from.len() as int) =~= s.subrange(0, from.len() as int));
        let rest = s.skip(1);
        assert forall|k: int| 0 <= k < i - 1 implies !stands_at(rest, from, k) by {
            assert(!stands_at(s, from, k + 1));
            assert(rest.subrange(k, k + from.len()) =~= s.subrange(k + 1, k + 1 + from.len()));
        }
        assert(rest.subrange(i - 1, i - 1 + from.len()) =~= s.subrange(i, i + from.len()));
        first_part_is_replaced(rest, from, to, i - 1);
        assert(rest.skip(i - 1 + from.len()) =~= s.skip(i + from.len()));
        let tail = replaced(s.skip(i + from.len()), from, to);
        assert(seq![s[0]] + (rest.take(i - 1) + to + tail) =~= s.take(i) + to + tail);
    }
}

/// Replacing a single character goes character by character: it does to a text
/// in two parts what it does to each of them.
pub proof fn characters_are_replaced_apart(a: Seq<char>, b: Seq<char>, c: char, to: Seq<char>)
    ensures
        replaced(a + b, seq![c], to) == replaced(a, seq![c], to) + replaced(b, seq![c], to),
        replaced(seq![c], seq![c], to) == to,
    decreases a.len(),
{
    let e = Seq::<char>::empty();
    assert(seq![c].take(1) =~= seq![c]);
    assert(seq![c].skip(1) =~= e);
    assert(replaced(e, seq![c], to) =~= e);
    assert(replaced(seq![c], seq![c], to) =~= to);
    if a.len() == 0 {
        assert(a + b =~= b);
        assert(replaced(a, seq![c], to) =~= e);
    } else {
        characters_are_replaced_apart(a.skip(1), b, c, to);
        assert((a + b).skip(1) =~= a.skip(1) + b);
        assert((a + b).take(1) =~= seq![a[0]]);
        assert(a.take(1) =~= seq![a[0]]);
        if a[0] != c {
            assert(seq![a[0]][0] != seq![c][0]);
        }
        assert(replaced(a + b, seq![c], to) =~= replaced(a, seq![c], to) + replaced(
            b,
            seq![c],
            to,
        ));
    }
}

/// What is put between two texts stands in the whole, and the two texts stand
/// at its ends.
pub proof fn lemma_parts_stand(a: Seq<char>, b: Seq<char>, c: Seq<char>)
    ensures
        occurs(a + b + c, b),
        begins(a + b + c, a),
        ends(a + b + c, c),
{
    let s = a + b + c;
    assert(s.subrange(a.len() as int, (a.len() + b.len()) as int) =~= b);
    assert(stands_at(s, b, a.len() as int));
    assert(s.subrange(0, a.len() as int) =~= a);
    assert(s.subrange(s.len() - c.len(), s.len() as int) =~= c);
}

/// What stands in a part of a text stands in the text.
pub proof fn lemma_occurs_within(a: Seq<char>, s: Seq<char>, b: Seq<char>, needle: Seq<char>)
    requires
        occurs(s, needle),
    ensures
        occurs(a + s + b, needle),
{
    let i = choose|i: int| stands_at(s, needle, i);
    let whole = a + s + b;
    assert(whole.subrange(a.len() + i, a.len() + i + needle.len()) =~= s.subrange(
        i,
        i + needle.len(),
    ));
    assert(stands_at(whole, needle, a.len() + i));
}

/// What stands in something that stands in a text stands in the text.
pub proof fn lemma_occurs_in_part(s: Seq<char>, part: Seq<char>, needle: Seq<char>)
    requires
        occurs(s, part),
        occurs(part, needle),
    ensures
        occurs(s, needle),
{
    let i = choose|i: int| stands_at(s, part, i);
    let (a, b) = (s.take(i), s.skip(i + part.len()));
    assert(s.subrange(i, i + part.len()) == part);
    assert(s =~= a + part + b);
    lemma_occurs_within(a, part, b, needle);
}

/// Each of the texts that are joined stands in the whole.
pub proof fn lemma_joined_holds(parts: Seq<Seq<char>>, sep: Seq<char>, i: int)
    requires
        0 <= i < parts.len(),
    ensures
        occurs(joined(parts, sep), parts[i]),
    decreases parts.len(),
{
    let e = Seq::<char>::empty();
    if parts.len() == 1 {
        lemma_parts_stand(e, parts[0], e);
        assert(e + parts[0] + e =~= parts[0]);
    } else {
        let front = joined(parts.drop_last(), sep);
        if i == parts.len() - 1 {
            lemma_parts_stand(front + sep, parts[i], e);
            assert((front + sep) + parts[i] + e =~= joined(parts, sep));
        } else {
            lemma_joined_holds(parts.drop_last(), sep, i);
            lemma_occurs_within(e, front, sep + parts.last(), parts[i]);
            assert(e + front + (sep + parts.last()) =~= joined(parts, sep));
        }
    }
}

// ---------------------------------------------------------------------------
// Forms that the standard library computes
// ---------------------------------------------------------------------------

/// What `str::to_lowercase` makes of a text.
pub uninterp spec fn lower_case(s: Seq<char>) -> Seq<char>;

/// The small letter of an ASCII capital; any other character as it is.
pub open spec fn ascii_lower(c: char) -> char {
    if 'A' <= c <= 'Z' {
        (c as u32 + 32) as char
    } else {
        c
    }
}

/// Whether all characters are ASCII.
pub open spec fn all_ascii(s: Seq<char>) -> bool {
    forall|i: int| 0 <= i < s.len() ==> (#[trigger] s[i] as u32) < 128
}

/// `str::to_lowercase` depends on the text alone. On ASCII text it turns the
/// capitals into small letters and keeps every other character.
pub assume_specification[ str::to_lowercase ](s: &str) -> (r: String)
    ensures
        r@ == lower_case(s@),
        all_ascii(s@) ==> r@ == s@.map_values(|c: char| ascii_lower(c)),
;

/// What formatting a text with `{:?}` gives.
pub uninterp spec fn debug_form(s: Seq<char>) -> Seq<char>;

/// Formats a text as `Debug` does: in double quotes, with escapes. The result
/// depends on the text alone.
#[verifier::external_body]
pub(crate) fn debug_string(s: &str) -> (r: String)
    ensures
        r@ == debug_form(s@),
{
    format!("{:?}", s)
}

} // verus!
