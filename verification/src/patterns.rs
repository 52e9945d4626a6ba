//! Texts that a regular expression cuts up, and texts put together again.

use vstd::prelude::*;
use crate::table::Table;
use crate::text::{join, joined, lemma_views_push, occurs, stands_at, views};

verus! {

/// A reference to an environment variable: `${NAME}`.
pub const ENV_REFERENCE: &'static str = "\\$\\{(\\w+)\\}";

/// The mention of a role.
pub const ROLE_MENTION: &'static str = "<@&\\d+>";

/// The expressions of this library.
pub open spec fn is_pattern(pattern: Seq<char>) -> bool {
    pattern == ENV_REFERENCE@ || pattern == ROLE_MENTION@
}

/// What `Regex::split` leaves of a text: what stands between the matches.
pub uninterp spec fn texts_between(pattern: Seq<char>, text: Seq<char>) -> Seq<Seq<char>>;

/// What the first group of each match holds, as `Regex::captures_iter` gives it.
pub uninterp spec fn first_groups(pattern: Seq<char>, text: Seq<char>) -> Seq<Seq<char>>;

/// Texts with inserts between them: one insert fewer than there are texts.
pub open spec fn spliced(texts: Seq<Seq<char>>, inserts: Seq<Seq<char>>) -> Seq<char>
    decreases texts.len(),
{
    if texts.len() == 0 {
        Seq::empty()
    } else if texts.len() == 1 {
        texts[0]
    } else {
        spliced(texts.drop_last(), inserts) + inserts[texts.len() - 2] + texts.last()
    }
}

/// A name as it is written in a text that refers to it.
pub open spec fn reference(name: Seq<char>) -> Seq<char> {
    "${"@ + name + "}"@
}

/// `Regex::split`: what stands between the matches of an expression in a text,
/// at least one stretch. The expressions of this library are valid, so
/// `Regex::new` takes them. Each mention of a role begins with `<@&`, so a text
/// without that is left in one piece.
#[verifier::external_body]
fn split_by_pattern(pattern: &str, text: &str) -> (r: Vec<String>)
    requires
        is_pattern(pattern@),
    ensures
        views(r@) == texts_between(pattern@, text@),
        r@.len() > 0,
        pattern@ == ROLE_MENTION@ && !occurs(text@, "<@&"@) ==> views(r@) == seq![text@],
{
    let re = regex::Regex::new(pattern).unwrap();
    re.split(text).map(|s| s.to_string()).collect()
}

/// `Regex::captures_iter`: the names that a text refers to, from the left. With
/// what stands between them, and each written as a reference, they make up the
/// text.
#[verifier::external_body]
fn names_referred_to(text: &str) -> (r: Vec<String>)
    ensures
        views(r@) == first_groups(ENV_REFERENCE@, text@),
        r@.len() + 1 == texts_between(ENV_REFERENCE@, text@).len(),
        text@ == spliced(
            texts_between(ENV_REFERENCE@, text@),
            views(r@).map_values(|name: Seq<char>| reference(name)),
        ),
{
    let re = regex::Regex::new(ENV_REFERENCE).unwrap();
    re.captures_iter(text).map(|c| c[1].to_string()).collect()
}

/// Puts inserts between texts.
pub fn splice(texts: &Vec<String>, inserts: &Vec<String>) -> (r: String)
    requires
        texts@.len() == inserts@.len() + 1,
    ensures
        r@ == spliced(views(texts@), views(inserts@)),
{
    let mut out = texts[0].clone();
    let mut i: usize = 1;
    assert(views(texts@).take(1)[0] == out@);
    while i < texts.len()
        invariant
            1 <= i <= texts@.len(),
            texts@.len() == inserts@.len() + 1,
            out@ == spliced(views(texts@).take(i as int), views(inserts@)),
        decreases texts@.len() - i,
    {
        assert(views(texts@).take(i + 1).drop_last() =~= views(texts@).take(i as int));
        assert(views(texts@).take(i + 1).last() == texts@[i as int]@);
        assert(views(inserts@)[i - 1] == inserts@[i - 1]@);
        out.append(inserts[i - 1].as_str());
        out.append(texts[i].as_str());
        i += 1;
    }
    assert(views(texts@).take(texts@.len() as int) =~= views(texts@));
    out
}

/// The value of a variable; nothing where it is not set.
pub open spec fn value_or_nothing(vars: Map<Seq<char>, String>, name: Seq<char>) -> Seq<char> {
    if vars.contains_key(name) {
        vars[name]@
    } else {
        Seq::empty()
    }
}

/// The value of each of the names.
pub fn look_up(names: &Vec<String>, vars: &Table<String>) -> (r: Vec<String>)
    ensures
        views(r@) == views(names@).map_values(|n: Seq<char>| value_or_nothing(vars@, n)),
{
    let mut out: Vec<String> = Vec::new();
    let mut i: usize = 0;
    let ghost all = views(names@).map_values(|n: Seq<char>| value_or_nothing(vars@, n));
    assert(views(out@) =~= all.take(0));
    while i < names.len()
        invariant
            i <= names@.len(),
            all == views(names@).map_values(|n: Seq<char>| value_or_nothing(vars@, n)),
            views(out@) == all.take(i as int),
        decreases names@.len() - i,
    {
        let value = match vars.get(names[i].as_str()) {
            Some(v) => v.clone(),
            None => String::new(),
        };
        proof {
            assert(all[i as int] == value@);
            lemma_views_push(out@, value);
            assert(all.take(i + 1) =~= all.take(i as int).push(all[i as int]));
        }
        out.push(value);
        i += 1;
    }
    assert(all.take(all.len() as int) =~= all);
    out
}

/// A text with each `${NAME}` replaced by the value of the variable; by nothing
/// where it is not set.
pub open spec fn with_variables(raw: Seq<char>, vars: Map<Seq<char>, String>) -> Seq<char> {
    spliced(
        texts_between(ENV_REFERENCE@, raw),
        first_groups(ENV_REFERENCE@, raw).map_values(|n: Seq<char>| value_or_nothing(vars, n)),
    )
}

/// A text that refers to something holds the beginning of a reference.
proof fn lemma_reference_occurs(texts: Seq<Seq<char>>, refs: Seq<Seq<char>>, name: Seq<char>)
    requires
        texts.len() == refs.len() + 1,
        refs.len() > 0,
        refs.last() == reference(name),
    ensures
        occurs(spliced(texts, refs), "${"@),
{
    let whole = spliced(texts, refs);
    let before = spliced(texts.drop_last(), refs);
    let at = before.len() as int;
    assert(whole == before + refs.last() + texts.last());
    assert(whole.subrange(at, at + "${"@.len()) =~= "${"@);
    assert(stands_at(whole, "${"@, at));
}

/// Puts the values of variables in. A text that refers to no variable stays as it
/// is.
pub fn expand_env_vars(raw: &str, vars: &Table<String>) -> (r: String)
    ensures
        r@ == with_variables(raw@, vars@),
        !occurs(raw@, "${"@) ==> r@ == raw@,
{
    let texts = split_by_pattern(ENV_REFERENCE, raw);
    let names = names_referred_to(raw);
    let values = look_up(&names, vars);
    assert(values@.len() == views(values@).len());
    assert(names@.len() == views(names@).len());
    assert(texts@.len() == views(texts@).len());
    proof {
        if names@.len() > 0 {
            lemma_reference_occurs(
                views(texts@),
                views(names@).map_values(|name: Seq<char>| reference(name)),
                views(names@).last(),
            );
        }
    }
    splice(&texts, &values)
}

/// A text with each mention of a role replaced by `placeholder`.
pub fn replace_role_mentions(text: &str, placeholder: &str) -> (r: String)
    ensures
        r@ == joined(texts_between(ROLE_MENTION@, text@), placeholder@),
        !occurs(text@, "<@&"@) ==> r@ == text@,
{
    let texts = split_by_pattern(ROLE_MENTION, text);
    join(&texts, placeholder)
}

} // verus!
