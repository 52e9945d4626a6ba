//! Cron expressions: POSIX day-of-week fields, schedules, and the rules that
//! decide which jobs are kept and which of them fire.

use chrono::{TimeZone, Timelike};
use chrono_tz::Tz;
use cron::Schedule;
use std::collections::HashSet;
use std::str::FromStr;
use vstd::prelude::*;
use crate::config::{filled, text_view, CronJobConfig};
use crate::text::{
    ascii_digit, ascii_letter, append_decimal, debug_form, debug_string, decimal, is_digit,
    is_letter, join, joined, lemma_views_push, once, only, parse_u32, pieces, same, split,
    split_once, split_whitespace, to_chars, unsigned, views, words,
};

verus! {

// ---------------------------------------------------------------------------
// The day-of-week field
// ---------------------------------------------------------------------------

/// Some character of `s` is a letter.
pub open spec fn has_letter(s: Seq<char>) -> bool {
    exists|i: int| 0 <= i < s.len() && is_letter(#[trigger] s[i])
}

/// Some character of `s` is a digit.
pub open spec fn has_digit(s: Seq<char>) -> bool {
    exists|i: int| 0 <= i < s.len() && is_digit(#[trigger] s[i])
}

/// The range and the step of a component: `a/s`, `a-b/s`, `*/s`, or no step.
pub open spec fn dow_step(part: Seq<char>) -> Result<(Seq<char>, nat), Seq<char>> {
    match once(part, '/') {
        None => Ok((part, 1)),
        Some((range, step)) => match unsigned(step, u32::MAX as nat) {
            None => Err("invalid step value in "@ + debug_form(part)),
            Some(n) => if n == 0 {
                Err("step value cannot be zero in "@ + debug_form(part))
            } else {
                Ok((range, n))
            },
        },
    }
}

/// The first and the last value of a range, in POSIX numbers, where 0 and 7
/// are both Sunday. A single day with a step runs through Saturday.
pub open spec fn dow_span(range: Seq<char>, step: nat, part: Seq<char>) -> Result<
    (nat, nat),
    Seq<char>,
> {
    if range == "*"@ {
        Ok((0, 6))
    } else {
        match once(range, '-') {
            Some((first, last)) => match unsigned(first, u32::MAX as nat) {
                None => Err("invalid range start in "@ + debug_form(part)),
                Some(a) => match unsigned(last, u32::MAX as nat) {
                    None => Err("invalid range end in "@ + debug_form(part)),
                    Some(b) => if a > 7 || b > 7 {
                        Err("day-of-week value out of range (0-7) in "@ + debug_form(part))
                    } else if a > b {
                        Err("invalid range "@ + debug_form(part) + ": start > end"@)
                    } else {
                        Ok((a, b))
                    },
                },
            },
            None => match unsigned(range, u32::MAX as nat) {
                None => Err("invalid number in "@ + debug_form(part)),
                Some(n) => if n > 7 {
                    Err("day-of-week value out of range (0-7): "@ + decimal(n))
                } else if step > 1 {
                    Ok((
                        if n == 7 {
                            0
                        } else {
                            n
                        },
                        6,
                    ))
                } else {
                    Ok((n, n))
                },
            },
        }
    }
}

/// Whether the value `v` is in the range and on the step.
pub open spec fn on_step(first: nat, last: nat, step: nat, v: nat) -> bool {
    first <= v <= last && (v - first) % (step as int) == 0
}

/// The days that a range with a step stands for: entry `d` is day `d`, with
/// Sunday as day 0, whether it was written 0 or 7.
pub open spec fn spanned_days(first: nat, last: nat, step: nat) -> Seq<bool> {
    Seq::new(
        7,
        |d: int| on_step(first, last, step, d as nat) || (d == 0 && on_step(first, last, step, 7)),
    )
}

/// No day at all.
pub open spec fn no_days() -> Seq<bool> {
    Seq::new(7, |d: int| false)
}

/// The days in one or the other.
pub open spec fn either(a: Seq<bool>, b: Seq<bool>) -> Seq<bool> {
    Seq::new(7, |d: int| a[d] || b[d])
}

/// The days of one comma-separated component.
pub open spec fn dow_component(part: Seq<char>, field: Seq<char>) -> Result<Seq<bool>, Seq<char>> {
    if part.len() == 0 {
        Err("empty component in day-of-week field: "@ + debug_form(field))
    } else {
        match dow_step(part) {
            Err(e) => Err(e),
            Ok((range, step)) => match dow_span(range, step, part) {
                Err(e) => Err(e),
                Ok((first, last)) => Ok(spanned_days(first, last, step)),
            },
        }
    }
}

/// The days of a list of components; the first component in error decides.
pub open spec fn dow_days(parts: Seq<Seq<char>>, field: Seq<char>) -> Result<Seq<bool>, Seq<char>>
    decreases parts.len(),
{
    if parts.len() == 0 {
        Ok(no_days())
    } else {
        match dow_days(parts.drop_last(), field) {
            Err(e) => Err(e),
            Ok(days) => match dow_component(parts.last(), field) {
                Err(e) => Err(e),
                Ok(more) => Ok(either(days, more)),
            },
        }
    }
}

/// The days before day `k` as ordinals that start with 1 for Sunday.
pub open spec fn ordinals(days: Seq<bool>, k: int) -> Seq<u32>
    decreases k,
{
    if k <= 0 {
        Seq::empty()
    } else if days[k - 1] {
        ordinals(days, k - 1).push(k as u32)
    } else {
        ordinals(days, k - 1)
    }
}

/// Every day of the week.
pub open spec fn is_whole_week(days: Seq<bool>) -> bool {
    forall|d: int| 0 <= d < 7 ==> days[d]
}

/// The maximal runs of successive numbers in a list, as first and last.
pub open spec fn runs(s: Seq<u32>) -> Seq<(u32, u32)>
    decreases s.len(),
{
    if s.len() == 0 {
        Seq::empty()
    } else {
        let before = runs(s.drop_last());
        if before.len() > 0 && s.last() == before.last().1 + 1 {
            before.drop_last().push((before.last().0, s.last()))
        } else {
            before.push((s.last(), s.last()))
        }
    }
}

/// A run as `first-last`, or as one number.
pub open spec fn run_text(run: (u32, u32)) -> Seq<char> {
    if run.0 == run.1 {
        decimal(run.0 as nat)
    } else {
        decimal(run.0 as nat) + "-"@ + decimal(run.1 as nat)
    }
}

/// A list of numbers with its runs written as ranges.
pub open spec fn compacted(s: Seq<u32>) -> Seq<char> {
    joined(runs(s).map_values(|r: (u32, u32)| run_text(r)), ","@)
}

/// A POSIX day-of-week field in the numbering of the schedule parser, which
/// counts from 1 for Sunday.
pub open spec fn dow_translated(field: Seq<char>) -> Result<Seq<char>, Seq<char>> {
    if has_letter(field) && has_digit(field) {
        Err(
            "mixed numeric and name notation is not supported in day-of-week field: "@ + debug_form(
                field,
            ),
        )
    } else if has_letter(field) {
        Ok(field)
    } else if field.len() == 0 {
        Err("empty day-of-week field"@)
    } else {
        match dow_days(pieces(field, ','), field) {
            Err(e) => Err(e),
            Ok(days) => if is_whole_week(days) {
                Ok("*"@)
            } else {
                Ok(compacted(ordinals(days, 7)))
            },
        }
    }
}

/// A result of strings as a result of their characters.
pub open spec fn result_view(r: Result<String, String>) -> Result<Seq<char>, Seq<char>> {
    match r {
        Ok(s) => Ok(s@),
        Err(s) => Err(s@),
    }
}

/// `prefix` with the debug form of `what` behind it.
fn message(prefix: &str, what: &str) -> (r: String)
    ensures
        r@ == prefix@ + debug_form(what@),
{
    let mut out = prefix.to_owned();
    out.append(debug_string(what).as_str());
    out
}

/// Renders a run as `first-last`, or as one number.
pub fn render_run(start: u32, end: u32) -> (r: String)
    ensures
        r@ == run_text((start, end)),
{
    let mut out = String::new();
    append_decimal(&mut out, start as u64);
    assert(out@ =~= decimal(start as nat));
    if start != end {
        out.append("-");
        append_decimal(&mut out, end as u64);
    }
    out
}

/// Writes a list of numbers with runs of successive numbers as ranges.
pub fn compact_ordinal_set(sorted: &[u32]) -> (r: String)
    requires
        forall|i: int| 0 <= i < sorted@.len() - 1 ==> sorted@[i] < u32::MAX,
    ensures
        r@ == compacted(sorted@),
{
    let ghost render = |r: (u32, u32)| run_text(r);
    if sorted.len() == 0 {
        assert(runs(sorted@).map_values(render) =~= Seq::empty());
        return String::new();
    }
    let mut out: Vec<String> = Vec::new();
    let mut start = sorted[0];
    let mut end = sorted[0];
    let mut i: usize = 1;
    let ghost mut done: Seq<(u32, u32)> = Seq::empty();
    proof {
        assert(sorted@.take(1).drop_last() =~= Seq::empty());
        assert(runs(sorted@.take(1).drop_last()) =~= Seq::empty());
        assert(runs(sorted@.take(1)) =~= done.push((start, end)));
        assert(views(out@) =~= done.map_values(render));
    }
    while i < sorted.len()
        invariant
            1 <= i <= sorted@.len(),
            forall|k: int| 0 <= k < sorted@.len() - 1 ==> sorted@[k] < u32::MAX,
            end == sorted@[i - 1],
            runs(sorted@.take(i as int)) == done.push((start, end)),
            views(out@) == done.map_values(render),
            render == (|r: (u32, u32)| run_text(r)),
        decreases sorted@.len() - i,
    {
        let v = sorted[i];
        assert(sorted@.take(i + 1).drop_last() =~= sorted@.take(i as int));
        assert(sorted@.take(i + 1).last() == v);
        assert(done.push((start, end)).drop_last() =~= done);
        if v == end + 1 {
            end = v;
        } else {
            let piece = render_run(start, end);
            proof {
                lemma_views_push(out@, piece);
                assert(done.push((start, end)).map_values(render) =~= done.map_values(render).push(
                    piece@,
                ));
                done = done.push((start, end));
            }
            out.push(piece);
            start = v;
            end = v;
        }
        i += 1;
    }
    assert(sorted@.take(sorted@.len() as int) =~= sorted@);
    let piece = render_run(start, end);
    proof {
        lemma_views_push(out@, piece);
        assert(done.push((start, end)).map_values(render) =~= done.map_values(render).push(piece@));
    }
    out.push(piece);
    join(&out, ",")
}

/// The range and the step of a component.
fn component_step(part: &str) -> (r: Result<(String, u32), String>)
    ensures
        match r {
            Ok((range, step)) => dow_step(part@) == Ok::<(Seq<char>, nat), Seq<char>>(
                (range@, step as nat),
            ) && step > 0,
            Err(e) => dow_step(part@) == Err::<(Seq<char>, nat), Seq<char>>(e@),
        },
{
    match split_once(part, '/') {
        None => Ok((part.to_owned(), 1)),
        Some((range, step)) => match parse_u32(step.as_str()) {
            None => Err(message("invalid step value in ", part)),
            Some(n) => if n == 0 {
                Err(message("step value cannot be zero in ", part))
            } else {
                Ok((range, n))
            },
        },
    }
}

/// The first and the last value of a range.
fn component_span(range: &str, step: u32, part: &str) -> (r: Result<(u32, u32), String>)
    ensures
        match r {
            Ok((a, b)) => dow_span(range@, step as nat, part@) == Ok::<(nat, nat), Seq<char>>(
                (a as nat, b as nat),
            ) && a <= b <= 7,
            Err(e) => dow_span(range@, step as nat, part@) == Err::<(nat, nat), Seq<char>>(e@),
        },
{
    if same(range, "*") {
        return Ok((0, 6));
    }
    match split_once(range, '-') {
        Some((first, last)) => {
            let a = match parse_u32(first.as_str()) {
                None => return Err(message("invalid range start in ", part)),
                Some(a) => a,
            };
            let b = match parse_u32(last.as_str()) {
                None => return Err(message("invalid range end in ", part)),
                Some(b) => b,
            };
            if a > 7 || b > 7 {
                return Err(message("day-of-week value out of range (0-7) in ", part));
            }
            if a > b {
                let mut e = message("invalid range ", part);
                e.append(": start > end");
                return Err(e);
            }
            Ok((a, b))
        },
        None => {
            let n = match parse_u32(range) {
                None => return Err(message("invalid number in ", part)),
                Some(n) => n,
            };
            if n > 7 {
                let mut e = "day-of-week value out of range (0-7): ".to_owned();
                append_decimal(&mut e, n as u64);
                return Err(e);
            }
            if step > 1 {
                Ok((if n == 7 { 0 } else { n }, 6))
            } else {
                Ok((n, n))
            }
        },
    }
}

/// Marks the days of a range with a step.
fn mark_days(days: &mut Vec<bool>, first: u32, last: u32, step: u32)
    requires
        old(days)@.len() == 7,
        first <= last <= 7,
        step > 0,
    ensures
        final(days)@ == either(old(days)@, spanned_days(first as nat, last as nat, step as nat)),
{
    let ghost before = days@;
    let ghost (f, l, s) = (first as nat, last as nat, step as nat);
    let mut v: u32 = first;
    while v <= last
        invariant
            first <= v <= last + 1,
            last <= 7,
            step > 0,
            days@.len() == 7,
            before.len() == 7,
            f == first,
            l == last,
            s == step,
            forall|d: int|
                0 <= d < 7 ==> #[trigger] days@[d] == (before[d] || (d < v && on_step(
                    f,
                    l,
                    s,
                    d as nat,
                )) || (d == 0 && v == 8 && on_step(f, l, s, 7))),
        decreases last + 1 - v,
    {
        let ghost prev = days@;
        let hit = (v - first) % step == 0;
        assert(hit == on_step(f, l, s, v as nat));
        if hit {
            if v == 7 {
                days.set(0, true);
            } else {
                days.set(v as usize, true);
            }
        }
        assert forall|d: int| 0 <= d < 7 implies #[trigger] days@[d] == (before[d] || (d < v + 1
            && on_step(f, l, s, d as nat)) || (d == 0 && v + 1 == 8 && on_step(f, l, s, 7))) by {
            assert(prev[d] == (before[d] || (d < v && on_step(f, l, s, d as nat)) || (d == 0 && v
                == 8 && on_step(f, l, s, 7))));
        }
        v += 1;
    }
    assert(days@ =~= either(before, spanned_days(f, l, s)));
}

/// Translates a POSIX day-of-week field to the numbering of the schedule
/// parser. Names pass through; numbers are expanded to days and written anew.
pub fn translate_posix_dow_field(field: &str) -> (r: Result<String, String>)
    ensures
        result_view(r) == dow_translated(field@),
{
    let chars = to_chars(field);
    let mut letter = false;
    let mut digit = false;
    let mut i: usize = 0;
    while i < chars.len()
        invariant
            i <= chars.len(),
            chars@ == field@,
            letter == (exists|k: int| 0 <= k < i && is_letter(#[trigger] field@[k])),
            digit == (exists|k: int| 0 <= k < i && is_digit(#[trigger] field@[k])),
        decreases chars.len() - i,
    {
        if ascii_letter(chars[i]) {
            letter = true;
        }
        if ascii_digit(chars[i]) {
            digit = true;
        }
        i += 1;
    }
    if letter && digit {
        return Err(
            message(
                "mixed numeric and name notation is not supported in day-of-week field: ",
                field,
            ),
        );
    }
    if letter {
        return Ok(field.to_owned());
    }
    if chars.len() == 0 {
        return Err("empty day-of-week field".to_owned());
    }
    assert(!has_letter(field@));
    let parts = split(field, ',');
    let mut days: Vec<bool> = vec![false, false, false, false, false, false, false];
    let mut k: usize = 0;
    assert(days@ =~= no_days());
    while k < parts.len()
        invariant
            k <= parts.len(),
            views(parts@) == pieces(field@, ','),
            !has_letter(field@),
            field@.len() > 0,
            days@.len() == 7,
            dow_days(views(parts@).take(k as int), field@) == Ok::<Seq<bool>, Seq<char>>(days@),
        decreases parts.len() - k,
    {
        let part = parts[k].as_str();
        assert(views(parts@).take(k + 1).drop_last() =~= views(parts@).take(k as int));
        assert(views(parts@).take(k + 1).last() == part@);
        if part.unicode_len() == 0 {
            let e = message("empty component in day-of-week field: ", field);
            proof {
                lemma_dow_error_stays(views(parts@), field@, k + 1, e@);
            }
            return Err(e);
        }
        let (range, step) = match component_step(part) {
            Ok(x) => x,
            Err(e) => {
                proof {
                    lemma_dow_error_stays(views(parts@), field@, k + 1, e@);
                }
                return Err(e);
            },
        };
        let (first, last) = match component_span(range.as_str(), step, part) {
            Ok(x) => x,
            Err(e) => {
                proof {
                    lemma_dow_error_stays(views(parts@), field@, k + 1, e@);
                }
                return Err(e);
            },
        };
        mark_days(&mut days, first, last, step);
        k += 1;
    }
    assert(views(parts@).take(parts@.len() as int) =~= views(parts@));
    let mut list: Vec<u32> = Vec::new();
    let mut d: usize = 0;
    while d < 7
        invariant
            d <= 7,
            days@.len() == 7,
            list@ == ordinals(days@, d as int),
            list@.len() <= d,
            list@.len() == d <==> (forall|x: int| 0 <= x < d ==> days@[x]),
            forall|x: int| 0 <= x < list@.len() ==> list@[x] <= 7,
        decreases 7 - d,
    {
        if days[d] {
            list.push(d as u32 + 1);
        }
        d += 1;
    }
    if list.len() == 7 {
        return Ok("*".to_owned());
    }
    Ok(compact_ordinal_set(list.as_slice()))
}

/// Once a component is in error, so is every list that it begins.
proof fn lemma_dow_error_stays(parts: Seq<Seq<char>>, field: Seq<char>, k: int, e: Seq<char>)
    requires
        0 <= k <= parts.len(),
        dow_days(parts.take(k), field) == Err::<Seq<bool>, Seq<char>>(e),
    ensures
        dow_days(parts, field) == Err::<Seq<bool>, Seq<char>>(e),
    decreases parts.len() - k,
{
    if k == parts.len() {
        assert(parts.take(k) =~= parts);
    } else {
        assert(parts.take(k + 1).drop_last() =~= parts.take(k));
        lemma_dow_error_stays(parts, field, k + 1, e);
    }
}


// ---------------------------------------------------------------------------
// What the translation keeps
// ---------------------------------------------------------------------------

/// Whether one entry of a list of days, a number or a range, takes in a day.
pub open spec fn entry_selects(entry: Seq<char>, day: nat) -> bool {
    match once(entry, '-') {
        Some((first, last)) => match (
            unsigned(first, u32::MAX as nat),
            unsigned(last, u32::MAX as nat),
        ) {
            (Some(a), Some(b)) => a <= day <= b,
            _ => false,
        },
        None => unsigned(entry, u32::MAX as nat) == Some(day),
    }
}

/// Whether a list of days, which counts from 1 for Sunday, takes in a day.
pub open spec fn list_selects(list: Seq<char>, day: nat) -> bool {
    list == "*"@ || exists|i: int|
        0 <= i < pieces(list, ',').len() && entry_selects(#[trigger] pieces(list, ',')[i], day)
}

/// Whether a number is in one of the runs.
pub open spec fn covered(rs: Seq<(u32, u32)>, v: u32) -> bool {
    exists|i: int| 0 <= i < rs.len() && (#[trigger] rs[i]).0 <= v <= rs[i].1
}

proof fn lemma_ordinals(days: Seq<bool>, k: int)
    requires
        0 <= k <= 7,
    ensures
        forall|v: u32| ordinals(days, k).contains(v) <==> 1 <= v <= k && days[v - 1],
        forall|i: int, j: int|
            0 <= i < j < ordinals(days, k).len() ==> ordinals(days, k)[i] < ordinals(days, k)[j],
    decreases k,
{
    if k > 0 {
        lemma_ordinals(days, k - 1);
        let before = ordinals(days, k - 1);
        let now = ordinals(days, k);
        assert forall|v: u32| now.contains(v) <==> 1 <= v <= k && days[v - 1] by {
            if days[k - 1] {
                assert(now[before.len() as int] == k as u32);
                if now.contains(v) && v != k {
                    let i = choose|i: int| 0 <= i < now.len() && now[i] == v;
                    assert(before[i] == v);
                    assert(before.contains(v));
                }
                if before.contains(v) {
                    let i = choose|i: int| 0 <= i < before.len() && before[i] == v;
                    assert(now[i] == v);
                }
            }
        }
        assert forall|i: int, j: int| 0 <= i < j < now.len() implies now[i] < now[j] by {
            if j == before.len() {
                assert(before.contains(before[i]));
            }
        }
    }
}

proof fn lemma_runs(s: Seq<u32>)
    requires
        forall|i: int, j: int| 0 <= i < j < s.len() ==> s[i] < s[j],
    ensures
        forall|v: u32| #[trigger] s.contains(v) <==> covered(runs(s), v),
        s.len() > 0 ==> runs(s).len() > 0 && runs(s).last().1 == s.last(),
        s.len() == 0 ==> runs(s).len() == 0,
        forall|i: int| 0 <= i < runs(s).len() ==> (#[trigger] runs(s)[i]).0 <= runs(s)[i].1,
    decreases s.len(),
{
    if s.len() > 0 {
        let front = s.drop_last();
        let last = s.last();
        assert forall|i: int, j: int| 0 <= i < j < front.len() implies front[i] < front[j] by {
            assert(s[i] < s[j]);
        }
        lemma_runs(front);
        let before = runs(front);
        let now = runs(s);
        if front.len() > 0 {
            assert(s[front.len() - 1] < s[front.len() as int]);
        }
        assert forall|v: u32| #[trigger] s.contains(v) <==> covered(now, v) by {
            assert(s[front.len() as int] == last);
            assert(s.contains(v) <==> front.contains(v) || v == last) by {
                if s.contains(v) && v != last {
                    let i = choose|i: int| 0 <= i < s.len() && s[i] == v;
                    assert(front[i] == v);
                }
                if front.contains(v) {
                    let i = choose|i: int| 0 <= i < front.len() && front[i] == v;
                    assert(s[i] == v);
                }
            }
            let n = now.len() - 1;
            if covered(before, v) {
                let i = choose|i: int|
                    0 <= i < before.len() && (#[trigger] before[i]).0 <= v <= before[i].1;
                assert(now[i].0 == before[i].0 && now[i].1 >= before[i].1);
            }
            if v == last {
                assert(now[n].0 <= v <= now[n].1);
            }
            if covered(now, v) && v != last {
                let i = choose|i: int| 0 <= i < now.len() && (#[trigger] now[i]).0 <= v <= now[i].1;
                if i < before.len() {
                    assert(before[i].0 <= v <= before[i].1);
                }
            }
        }
    }
}

proof fn lemma_run_text(run: (u32, u32), day: nat)
    requires
        run.0 <= run.1,
        day <= u32::MAX,
    ensures
        entry_selects(run_text(run), day) <==> run.0 <= day <= run.1,
        crate::text::free_of(run_text(run), ','),
        run_text(run).len() > 0,
        is_digit(run_text(run)[0]),
{
    let a = decimal(run.0 as nat);
    let b = decimal(run.1 as nat);
    let text = run_text(run);
    crate::text::lemma_decimal_digits(run.0 as nat);
    crate::text::lemma_decimal_digits(run.1 as nat);
    crate::text::decimal_reads_back(run.0 as nat, u32::MAX as nat);
    crate::text::decimal_reads_back(run.1 as nat, u32::MAX as nat);
    reveal_strlit("-");
    crate::text::lemma_first_of(text, '-');
    assert(is_digit(a[0]));
    if run.0 == run.1 {
        assert forall|i: int| 0 <= i < text.len() implies text[i] != '-' && text[i] != ',' by {
            assert(is_digit(a[i]));
        }
        assert(once(text, '-') is None);
    } else {
        let k = a.len() as int;
        assert(text[k] == '-');
        assert forall|i: int| 0 <= i < k implies text[i] != '-' && text[i] != ',' by {
            assert(text[i] == a[i]);
            assert(is_digit(a[i]));
        }
        assert forall|i: int| k < i < text.len() implies text[i] != ',' by {
            assert(text[i] == b[i - k - 1]);
            assert(is_digit(b[i - k - 1]));
        }
        assert(crate::text::first_of(text, '-') == k);
        assert(text.take(k) =~= a);
        assert(text.skip(k + 1) =~= b);
    }
}

proof fn lemma_compacted(s: Seq<u32>, day: u32)
    requires
        forall|i: int, j: int| 0 <= i < j < s.len() ==> s[i] < s[j],
    ensures
        list_selects(compacted(s), day as nat) <==> s.contains(day),
{
    lemma_runs(s);
    let rs = runs(s);
    let parts = rs.map_values(|r: (u32, u32)| run_text(r));
    let text = compacted(s);
    reveal_strlit(",");
    reveal_strlit("*");
    assert(","@ =~= seq![',']);
    if s.len() == 0 {
        assert(text =~= Seq::<char>::empty());
        assert(pieces(text, ',') =~= seq![Seq::<char>::empty()]);
        assert(crate::text::first_of(text, '-') == 0);
        assert(!covered(rs, day));
        assert(!list_selects(text, day as nat)) by {
            if exists|i: int|
                0 <= i < pieces(text, ',').len() && entry_selects(
                    #[trigger] pieces(text, ',')[i],
                    day as nat,
                ) {
                assert(once(Seq::<char>::empty(), '-') is None);
                assert(unsigned(Seq::<char>::empty(), u32::MAX as nat) is None);
            }
        }
    } else {
        assert forall|i: int| 0 <= i < parts.len() implies crate::text::free_of(
            #[trigger] parts[i],
            ',',
        ) by {
            lemma_run_text(rs[i], 0);
        }
        crate::text::splitting_undoes_joining(parts, ',');
        assert(pieces(text, ',') == parts);
        lemma_joined_start(parts, ","@);
        lemma_run_text(rs[0], 0);
        assert(text[0] == parts[0][0]);
        assert(text != "*"@);
        if s.contains(day) {
            assert(covered(rs, day));
            let i = choose|i: int| 0 <= i < rs.len() && (#[trigger] rs[i]).0 <= day <= rs[i].1;
            lemma_run_text(rs[i], day as nat);
            assert(entry_selects(pieces(text, ',')[i], day as nat));
        }
        if list_selects(text, day as nat) {
            let i = choose|i: int|
                0 <= i < pieces(text, ',').len() && entry_selects(
                    #[trigger] pieces(text, ',')[i],
                    day as nat,
                );
            lemma_run_text(rs[i], day as nat);
            assert(parts[i] == run_text(rs[i]));
            assert(covered(rs, day));
        }
    }
}

proof fn lemma_joined_start(parts: Seq<Seq<char>>, sep: Seq<char>)
    requires
        parts.len() > 0,
        parts[0].len() > 0,
    ensures
        joined(parts, sep).len() > 0,
        joined(parts, sep)[0] == parts[0][0],
    decreases parts.len(),
{
    if parts.len() > 1 {
        lemma_joined_start(parts.drop_last(), sep);
    }
}

/// The translation keeps the days: the list that comes out, which counts from 1
/// for Sunday, takes in exactly the days that the field stands for, whose day 0 is
/// Sunday.
pub proof fn weekdays_are_kept(field: Seq<char>, days: Seq<bool>, day: u32)
    requires
        !has_letter(field),
        field.len() > 0,
        dow_days(pieces(field, ','), field) == Ok::<Seq<bool>, Seq<char>>(days),
        1 <= day <= 7,
    ensures
        dow_translated(field) is Ok,
        list_selects(dow_translated(field)->Ok_0, day as nat) <==> days[day - 1],
{
    if !is_whole_week(days) {
        lemma_ordinals(days, 7);
        lemma_compacted(ordinals(days, 7), day);
    } else {
        assert(days[day - 1]);
    }
}

/// Sunday is Sunday, whether it is written 0 or 7, with a step or without.
pub proof fn sunday_has_two_numbers(step: nat)
    requires
        step > 0,
    ensures
        spanned_days(0, 0, step) == spanned_days(7, 7, step),
        spanned_days(0, 0, step)[0],
        forall|d: int| 1 <= d < 7 ==> !#[trigger] spanned_days(7, 7, step)[d],
{
    assert(0int % (step as int) == 0) by (nonlinear_arith)
        requires
            step > 0,
    ;
    assert(spanned_days(0, 0, step) =~= spanned_days(7, 7, step));
}

// ---------------------------------------------------------------------------
// Expressions and schedules
// ---------------------------------------------------------------------------

/// A schedule of the `cron` crate.
#[verifier::external_type_specification]
#[verifier::external_body]
pub struct ExSchedule(cron::Schedule);

/// A time zone of the `chrono-tz` crate.
#[verifier::external_type_specification]
#[verifier::external_body]
pub struct ExTz(chrono_tz::Tz);

/// The expression that a schedule was made from.
pub uninterp spec fn schedule_source(schedule: cron::Schedule) -> Seq<char>;

/// The name of a time zone.
pub uninterp spec fn zone_name(zone: chrono_tz::Tz) -> Seq<char>;

/// What the `cron` crate has to say against an expression; nothing where it
/// takes it.
pub uninterp spec fn schedule_error(expr: Seq<char>) -> Option<Seq<char>>;

/// Whether the time zone database has a zone of this name.
pub uninterp spec fn is_zone(name: Seq<char>) -> bool;

/// The first second of the minute that the clocks of a zone show, where it is
/// one point in time.
pub uninterp spec fn local_minute(zone: Seq<char>, at: i64) -> Option<i64>;

/// The first event of an expression in a zone after a point in time.
pub uninterp spec fn next_event(expr: Seq<char>, zone: Seq<char>, after: i64) -> Option<i64>;

/// From the year 1 through the year 9999, in seconds since 1970.
pub open spec fn in_calendar(at: i64) -> bool {
    -62_135_596_800 <= at <= 253_402_300_799
}

/// `Schedule::from_str`: an expression is taken, and the schedule keeps it as
/// its source, or refused with a message. Which, and the message, depend on the
/// expression alone.
#[verifier::external_body]
fn schedule_from(expr: &str) -> (r: Result<Schedule, String>)
    ensures
        match r {
            Ok(s) => schedule_error(expr@) is None && schedule_source(s) == expr@,
            Err(e) => schedule_error(expr@) == Some(e@),
        },
{
    Schedule::from_str(expr).map_err(|e| e.to_string())
}

/// `Tz::from_str`: the zone of this name, where the database has it. There is
/// one message for a name that it does not have.
#[verifier::external_body]
fn zone_from(name: &str) -> (r: Result<Tz, String>)
    ensures
        match r {
            Ok(z) => is_zone(name@) && zone_name(z) == name@,
            Err(e) => !is_zone(name@) && e@ == "failed to parse timezone"@,
        },
{
    name.parse::<Tz>().map_err(|e| e.to_string())
}

/// `Utc::now`: the clock, in seconds since 1970. Nothing is said of it. A clock that
/// stands before 1970 makes the call panic.
#[verifier::external_body]
fn unix_now() -> (r: i64) {
    chrono::Utc::now().timestamp()
}

/// `DateTime::with_second`: the local time with its seconds set to zero. There
/// is none where the clocks are set back over that minute.
#[verifier::external_body]
fn start_of_minute(zone: &Tz, at: i64) -> (r: Option<i64>)
    requires
        in_calendar(at),
    ensures
        r == local_minute(zone_name(*zone), at),
{
    zone.timestamp_opt(at, 0).single().and_then(|t| t.with_second(0)).map(|t| t.timestamp())
}

/// `Schedule::after`: the first event behind a point in time. It depends on the
/// expression, the zone and that point.
#[verifier::external_body]
fn event_after(schedule: &Schedule, zone: &Tz, after: i64) -> (r: Option<i64>)
    requires
        in_calendar(after),
    ensures
        r == next_event(schedule_source(*schedule), zone_name(*zone), after),
{
    zone.timestamp_opt(after, 0).single().and_then(|t| schedule.after(&t).next()).map(
        |t| t.timestamp(),
    )
}

/// The five fields of an expression with the last one translated.
pub open spec fn translated(expr: Seq<char>) -> Result<Seq<char>, Seq<char>> {
    let fields = words(expr);
    if fields.len() != 5 {
        Err(
            "expected 5 whitespace-separated cron fields, got "@ + decimal(fields.len()) + ": "@
                + debug_form(expr),
        )
    } else {
        match dow_translated(fields[4]) {
            Err(e) => Err(e),
            Ok(dow) => Ok(
                fields[0] + " "@ + fields[1] + " "@ + fields[2] + " "@ + fields[3] + " "@ + dow,
            ),
        }
    }
}

/// Translates the day-of-week field of a five-field expression. The other four
/// fields pass through.
pub fn translate_posix_cron_expr(expr: &str) -> (r: Result<String, String>)
    ensures
        result_view(r) == translated(expr@),
{
    let fields = split_whitespace(expr);
    assert(views(fields@).len() == fields@.len());
    if fields.len() != 5 {
        let mut e = "expected 5 whitespace-separated cron fields, got ".to_owned();
        append_decimal(&mut e, fields.len() as u64);
        e.append(": ");
        e.append(debug_string(expr).as_str());
        return Err(e);
    }
    assert(views(fields@)[0] == fields@[0]@);
    assert(views(fields@)[1] == fields@[1]@);
    assert(views(fields@)[2] == fields@[2]@);
    assert(views(fields@)[3] == fields@[3]@);
    assert(views(fields@)[4] == fields@[4]@);
    match translate_posix_dow_field(fields[4].as_str()) {
        Err(e) => Err(e),
        Ok(dow) => {
            let mut out = fields[0].clone();
            out.append(" ");
            out.append(fields[1].as_str());
            out.append(" ");
            out.append(fields[2].as_str());
            out.append(" ");
            out.append(fields[3].as_str());
            out.append(" ");
            out.append(dow.as_str());
            Ok(out)
        },
    }
}

/// The six-field form, at second zero, that the schedule parser reads.
pub open spec fn with_seconds(five: Seq<char>) -> Seq<char> {
    "0 "@ + five
}

/// What is wrong with a five-field expression.
pub open spec fn expr_error(expr: Seq<char>) -> Option<Seq<char>> {
    match translated(expr) {
        Err(e) => Some(e),
        Ok(five) => schedule_error(with_seconds(five)),
    }
}

/// The source of the schedule that an expression stands for.
pub open spec fn expr_source(expr: Seq<char>) -> Seq<char> {
    with_seconds(translated(expr)->Ok_0)
}

/// Hands a translated expression to the schedule parser.
pub fn parse_translated(five: &str) -> (r: Result<Schedule, String>)
    ensures
        match r {
            Ok(s) => schedule_error(with_seconds(five@)) is None && schedule_source(s)
                == with_seconds(five@),
            Err(e) => schedule_error(with_seconds(five@)) == Some(e@),
        },
{
    let mut six = "0 ".to_owned();
    six.append(five);
    schedule_from(six.as_str())
}

/// Parses a five-field POSIX cron expression.
pub fn parse_cron_expr(expr: &str) -> (r: Result<Schedule, String>)
    ensures
        match r {
            Ok(s) => expr_error(expr@) is None && schedule_source(s) == expr_source(expr@),
            Err(e) => expr_error(expr@) == Some(e@),
        },
{
    match translate_posix_cron_expr(expr) {
        Err(e) => Err(e),
        Ok(five) => parse_translated(five.as_str()),
    }
}

/// Whether the minute has an event: the first event behind the second before it
/// is the minute's first second.
pub open spec fn is_event(next: Option<i64>, minute: i64) -> bool {
    next == Some(minute)
}

/// Whether a schedule has an event in the minute that a zone's clocks show at a
/// point in time.
pub open spec fn fires(source: Seq<char>, zone: Seq<char>, now: i64) -> bool {
    &&& in_calendar(now)
    &&& local_minute(zone, now) matches Some(m) && in_calendar((m - 1) as i64) && m > i64::MIN
        && is_event(next_event(source, zone, (m - 1) as i64), m)
}

/// Whether the first event behind a minute's eve is that minute.
pub fn decide_event(next: Option<i64>, minute: i64) -> (r: bool)
    ensures
        r == is_event(next, minute),
{
    match next {
        Some(n) => n == minute,
        None => false,
    }
}

/// Whether a schedule fires at a point in time, to the minute.
pub fn fires_at(schedule: &Schedule, tz: &Tz, now: i64) -> (r: bool)
    ensures
        r == fires(schedule_source(*schedule), zone_name(*tz), now),
{
    if now < -62_135_596_800 || now > 253_402_300_799 {
        return false;
    }
    match start_of_minute(tz, now) {
        None => false,
        Some(minute) => {
            if minute == i64::MIN {
                return false;
            }
            let eve = minute - 1;
            if eve < -62_135_596_800 || eve > 253_402_300_799 {
                return false;
            }
            decide_event(event_after(schedule, tz, eve), minute)
        },
    }
}

/// Whether a schedule fires now, to the minute: at a moment from 1970 through the
/// year 9999, which is the clock's where the clock is set. Where the clocks of the
/// zone are set back over the minute it does not.
pub fn should_fire(schedule: &Schedule, tz: Tz) -> (r: bool)
    ensures
        exists|now: i64|
            0 <= now && in_calendar(now) && r == #[trigger] fires(
                schedule_source(*schedule),
                zone_name(tz),
                now,
            ),
{
    let clock = unix_now();
    let now: i64 = if clock < 0 {
        0
    } else if clock > 253_402_300_799 {
        253_402_300_799
    } else {
        clock
    };
    let r = fires_at(schedule, &tz, now);
    assert(r == fires(schedule_source(*schedule), zone_name(tz), now));
    r
}

// ---------------------------------------------------------------------------
// Which jobs are taken
// ---------------------------------------------------------------------------

/// The texts of a row of string slices.
pub open spec fn texts(list: Seq<&str>) -> Seq<Seq<char>> {
    list.map_values(|s: &str| s@)
}

fn is_among(s: &str, list: &[&str]) -> (r: bool)
    ensures
        r == texts(list@).contains(s@),
{
    let mut i: usize = 0;
    while i < list.len()
        invariant
            i <= list@.len(),
            forall|k: int| 0 <= k < i ==> texts(list@)[k] != s@,
        decreases list@.len() - i,
    {
        if same(s, list[i]) {
            assert(texts(list@)[i as int] == s@);
            return true;
        }
        i += 1;
    }
    false
}

/// The platforms that there is an adapter for.
pub open spec fn is_known_platform(name: Seq<char>) -> bool {
    name == "discord"@ || name == "slack"@
}

fn known_platform(name: &str) -> (r: bool)
    ensures
        r == is_known_platform(name@),
{
    same(name, "discord") || same(name, "slack")
}

/// What is wrong with an enabled job of the configuration.
pub open spec fn job_error(job: CronJobConfig, platforms: Seq<Seq<char>>) -> Option<Seq<char>> {
    if expr_error(job.schedule@) is Some {
        Some(
            "invalid cron expression "@ + debug_form(job.schedule@) + ": "@ + expr_error(
                job.schedule@,
            )->0,
        )
    } else if !is_zone(job.timezone@) {
        Some(
            "invalid timezone "@ + debug_form(job.timezone@) + ": "@ + "failed to parse timezone"@,
        )
    } else if !is_known_platform(job.platform@) {
        Some(
            "unknown platform "@ + debug_form(job.platform@)
                + " (expected one of: [\"discord\", \"slack\"])"@,
        )
    } else if !platforms.contains(job.platform@) {
        Some(
            "platform "@ + debug_form(job.platform@) + " is not configured — add ["@ + job.platform@
                + "] to config.toml"@,
        )
    } else if job.disable_on_success is Some {
        Some(
            "disable_on_success is only supported in usercron [[jobs]], not baseline [[cron.jobs]]"@,
        )
    } else {
        None
    }
}

fn check_job(job: &CronJobConfig, platforms: &[&str]) -> (r: Option<String>)
    ensures
        text_view(r) == job_error(*job, texts(platforms@)),
{
    if let Err(reason) = parse_cron_expr(job.schedule.as_str()) {
        let mut e = message("invalid cron expression ", job.schedule.as_str());
        e.append(": ");
        e.append(reason.as_str());
        return Some(e);
    }
    if let Err(reason) = zone_from(job.timezone.as_str()) {
        let mut e = message("invalid timezone ", job.timezone.as_str());
        e.append(": ");
        e.append(reason.as_str());
        return Some(e);
    }
    if !known_platform(job.platform.as_str()) {
        let mut e = message("unknown platform ", job.platform.as_str());
        e.append(" (expected one of: [\"discord\", \"slack\"])");
        return Some(e);
    }
    if !is_among(job.platform.as_str(), platforms) {
        let mut e = message("platform ", job.platform.as_str());
        e.append(" is not configured — add [");
        e.append(job.platform.as_str());
        e.append("] to config.toml");
        return Some(e);
    }
    if job.disable_on_success.is_some() {
        return Some(
            "disable_on_success is only supported in usercron [[jobs]], not baseline [[cron.jobs]]".to_owned(),
        );
    }
    None
}

/// What is wrong with the first job, of the first `k`, that is enabled and wrong.
pub open spec fn jobs_error(
    jobs: Seq<CronJobConfig>,
    platforms: Seq<Seq<char>>,
    k: int,
) -> Option<Seq<char>>
    decreases k,
{
    if k <= 0 {
        None
    } else if jobs_error(jobs, platforms, k - 1) is Some {
        jobs_error(jobs, platforms, k - 1)
    } else if jobs[k - 1].enabled && job_error(jobs[k - 1], platforms) is Some {
        Some("cronjobs["@ + decimal((k - 1) as nat) + "]: "@ + job_error(jobs[k - 1], platforms)->0)
    } else {
        None
    }
}

proof fn lemma_jobs_error(jobs: Seq<CronJobConfig>, platforms: Seq<Seq<char>>, k: int, n: int)
    requires
        0 <= k <= n,
        jobs_error(jobs, platforms, k) is Some,
    ensures
        jobs_error(jobs, platforms, n) == jobs_error(jobs, platforms, k),
    decreases n,
{
    if k < n {
        lemma_jobs_error(jobs, platforms, k, n - 1);
    }
}

/// Checks the jobs of the configuration. A job that is not enabled is not looked at.
pub fn validate_cronjobs(cronjobs: &[CronJobConfig], configured_platforms: &[&str]) -> (r: Result<
    (),
    String,
>)
    ensures
        match r {
            Ok(_) => jobs_error(
                cronjobs@,
                texts(configured_platforms@),
                cronjobs@.len() as int,
            ) is None,
            Err(e) => jobs_error(cronjobs@, texts(configured_platforms@), cronjobs@.len() as int)
                == Some(e@),
        },
{
    let ghost platforms = texts(configured_platforms@);
    let mut i: usize = 0;
    while i < cronjobs.len()
        invariant
            i <= cronjobs@.len(),
            platforms == texts(configured_platforms@),
            jobs_error(cronjobs@, platforms, i as int) is None,
        decreases cronjobs@.len() - i,
    {
        if cronjobs[i].enabled {
            if let Some(reason) = check_job(&cronjobs[i], configured_platforms) {
                let mut e = "cronjobs[".to_owned();
                append_decimal(&mut e, i as u64);
                e.append("]: ");
                e.append(reason.as_str());
                proof {
                    lemma_jobs_error(cronjobs@, platforms, i + 1, cronjobs@.len() as int);
                }
                return Err(e);
            }
        }
        i += 1;
    }
    Ok(())
}

/// Whether a job of the user's file is kept. One that is to end itself needs a
/// name to be written back under, and a text that tells when.
pub open spec fn keeps(job: CronJobConfig, platforms: Seq<Seq<char>>) -> bool {
    &&& expr_error(job.schedule@) is None
    &&& is_zone(job.timezone@)
    &&& is_known_platform(job.platform@)
    &&& platforms.contains(job.platform@)
    &&& filled(text_view(job.disable_on_success)) is Some ==> {
        &&& filled(text_view(job.id)) is Some
        &&& filled(text_view(job.disable_on_success_match)) is Some
    }
}

/// Whether a text is there and is more than white space.
fn is_filled(value: &Option<String>) -> (r: bool)
    ensures
        r == (filled(text_view(*value)) is Some),
{
    match value {
        Some(s) => !crate::text::is_blank(s.as_str()),
        None => false,
    }
}

fn is_kept(job: &CronJobConfig, platforms: &[&str]) -> (r: bool)
    ensures
        r == keeps(*job, texts(platforms@)),
{
    if parse_cron_expr(job.schedule.as_str()).is_err() {
        return false;
    }
    if zone_from(job.timezone.as_str()).is_err() {
        return false;
    }
    if !known_platform(job.platform.as_str()) || !is_among(job.platform.as_str(), platforms) {
        return false;
    }
    if is_filled(&job.disable_on_success) {
        return is_filled(&job.id) && is_filled(&job.disable_on_success_match);
    }
    true
}

/// Keeps the valid jobs of the user's file, in their order.
pub fn keep_usercron_jobs(jobs: Vec<CronJobConfig>, configured_platforms: &[&str]) -> (r: Vec<
    CronJobConfig,
>)
    ensures
        r@ == jobs@.filter(|job: CronJobConfig| keeps(job, texts(configured_platforms@))),
{
    let ghost all = jobs@;
    let ghost keep = |job: CronJobConfig| keeps(job, texts(configured_platforms@));
    let mut kept: Vec<CronJobConfig> = Vec::new();
    proof {
        reveal(Seq::filter);
    }
    assert(kept@ =~= all.take(0).filter(keep));
    for job in it: jobs
        invariant
            it.seq() == all,
            kept@ == all.take(it.index()).filter(keep),
            keep == (|job: CronJobConfig| keeps(job, texts(configured_platforms@))),
    {
        proof {
            reveal(Seq::filter);
            assert(all.take(it.index() + 1).drop_last() =~= all.take(it.index()));
            assert(all.take(it.index() + 1).last() == job);
        }
        if is_kept(&job, configured_platforms) {
            kept.push(job);
        }
    }
    assert(all.take(all.len() as int) =~= all);
    kept
}

/// A job that can be run.
pub struct ParsedJob {
    pub schedule: Schedule,
    pub tz: Tz,
    pub config: CronJobConfig,
    /// Whether it is of the user's file, and so can be written back.
    pub usercron: bool,
}

/// Whether a job is enabled and its expression and zone can be read.
pub open spec fn runnable(job: CronJobConfig) -> bool {
    job.enabled && expr_error(job.schedule@) is None && is_zone(job.timezone@)
}

/// The job that a configuration gives.
pub open spec fn is_parsed(job: CronJobConfig, usercron: bool, parsed: ParsedJob) -> bool {
    &&& parsed.config == job
    &&& parsed.usercron == usercron
    &&& schedule_source(parsed.schedule) == expr_source(job.schedule@)
    &&& zone_name(parsed.tz) == job.timezone@
}

/// The jobs of a list of configurations, one for each.
pub open spec fn all_parsed(jobs: Seq<CronJobConfig>, usercron: bool, parsed: Seq<ParsedJob>) -> bool {
    &&& parsed.len() == jobs.len()
    &&& forall|i: int| 0 <= i < jobs.len() ==> is_parsed(jobs[i], usercron, #[trigger] parsed[i])
}

/// Makes the jobs that can be run, in their order.
pub fn parse_job_list(configs: Vec<CronJobConfig>, usercron: bool) -> (r: Vec<ParsedJob>)
    ensures
        all_parsed(configs@.filter(|job: CronJobConfig| runnable(job)), usercron, r@),
{
    let ghost all = configs@;
    let ghost can = |job: CronJobConfig| runnable(job);
    let mut out: Vec<ParsedJob> = Vec::new();
    proof {
        reveal(Seq::filter);
    }
    assert(all.take(0).filter(can) =~= Seq::empty());
    for job in it: configs
        invariant
            it.seq() == all,
            all_parsed(all.take(it.index()).filter(can), usercron, out@),
            can == (|job: CronJobConfig| runnable(job)),
    {
        proof {
            reveal(Seq::filter);
            assert(all.take(it.index() + 1).drop_last() =~= all.take(it.index()));
            assert(all.take(it.index() + 1).last() == job);
        }
        if job.enabled {
            if let Ok(schedule) = parse_cron_expr(job.schedule.as_str()) {
                if let Ok(tz) = zone_from(job.timezone.as_str()) {
                    out.push(ParsedJob { schedule, tz, config: job, usercron });
                }
            }
        }
    }
    assert(all.take(all.len() as int) =~= all);
    out
}

// ---------------------------------------------------------------------------
// The scheduler
// ---------------------------------------------------------------------------

/// How many seconds are left until the next full minute.
pub open spec fn seconds_to_minute(now: int) -> int {
    (60 - now % 60) % 60
}

/// The seconds to wait so that ticks fall on full minutes.
pub fn align_delay(now: u64) -> (r: u64)
    ensures
        r == seconds_to_minute(now as int),
        r < 60,
        (now + r) % 60 == 0,
{
    let into = now % 60;
    if into == 0 {
        0
    } else {
        60 - into
    }
}

/// The jobs, which of them run at present, and the version of the user's file
/// that was read last.
pub struct Scheduler {
    baseline: Vec<ParsedJob>,
    usercron: Vec<ParsedJob>,
    in_flight: HashSet<usize>,
    file_time: Option<(u64, u32)>,
}

/// Whether these jobs, in this order, were started at a point in time.
pub open spec fn has_ticked(before: Scheduler, now: i64, started: Seq<usize>, after: Scheduler) -> bool {
    &&& after.jobs() == before.jobs()
    &&& after.configured() == before.configured()
    &&& after.seen() == before.seen()
    &&& forall|i: int| #![trigger before.starts(now, i)]
        before.starts(now, i) <==> 0 <= i <= usize::MAX && started.contains(i as usize)
    &&& forall|a: int, b: int| 0 <= a < b < started.len() ==> started[a] < started[b]
    &&& after.running() == before.running().union(started.to_set())
}

/// Whether the jobs of the user's file were taken anew.
pub open spec fn has_reloaded(
    before: Scheduler,
    usercron: Seq<ParsedJob>,
    file_time: Option<(u64, u32)>,
    after: Scheduler,
) -> bool {
    &&& after.jobs() == before.configured() + usercron
    &&& after.configured() == before.configured()
    &&& after.running() == before.running()
    &&& after.seen() == file_time
}

/// Whether the end of a job was noted.
pub open spec fn has_noted_end(before: Scheduler, idx: usize, after: Scheduler) -> bool {
    &&& after.jobs() == before.jobs()
    &&& after.configured() == before.configured()
    &&& after.running() == before.running().remove(idx)
    &&& after.seen() == before.seen()
}

impl Scheduler {
    /// All jobs: those of the configuration, then those of the user's file.
    pub closed spec fn jobs(&self) -> Seq<ParsedJob> {
        self.baseline@ + self.usercron@
    }

    /// The jobs of the configuration.
    pub closed spec fn configured(&self) -> Seq<ParsedJob> {
        self.baseline@
    }

    /// The places of the jobs that run.
    pub closed spec fn running(&self) -> Set<usize> {
        self.in_flight@
    }

    /// The version of the user's file that was read last.
    pub closed spec fn seen(&self) -> Option<(u64, u32)> {
        self.file_time
    }

    pub fn new(
        baseline: Vec<ParsedJob>,
        usercron: Vec<ParsedJob>,
        file_time: Option<(u64, u32)>,
    ) -> (r: Self)
        ensures
            r.jobs() == baseline@ + usercron@,
            r.configured() == baseline@,
            r.running() == Set::<usize>::empty(),
            r.seen() == file_time,
    {
        Scheduler { baseline, usercron, in_flight: HashSet::new(), file_time }
    }

    /// Whether there is anything to wait for: jobs, or a file that may bring some.
    pub fn has_work(&self, watches_file: bool) -> (r: bool)
        ensures
            r == (self.jobs().len() > 0 || watches_file),
    {
        self.baseline.len() > 0 || self.usercron.len() > 0 || watches_file
    }

    /// Whether the user's file has changed since it was read.
    pub fn needs_reload(&self, file_time: Option<(u64, u32)>) -> (r: bool)
        ensures
            r == (file_time != self.seen()),
    {
        match (file_time, self.file_time) {
            (Some((a, b)), Some((c, d))) => !(a == c && b == d),
            (None, None) => false,
            _ => true,
        }
    }

    /// Takes the jobs of the user's file anew. What runs goes on running.
    pub fn reload(&mut self, usercron: Vec<ParsedJob>, file_time: Option<(u64, u32)>)
        ensures
            has_reloaded(*old(self), usercron@, file_time, *final(self)),
    {
        self.usercron = usercron;
        self.file_time = file_time;
    }

    /// Notes that a job has ended.
    pub fn finished(&mut self, idx: usize)
        ensures
            has_noted_end(*old(self), idx, *final(self)),
    {
        broadcast use vstd::std_specs::hash::group_hash_axioms;
        self.in_flight.remove(&idx);
        assert(self.in_flight@ =~= old(self).in_flight@.remove(idx));
    }

    /// The job at a place.
    pub fn job(&self, idx: usize) -> (r: Option<&ParsedJob>)
        ensures
            match r {
                Some(j) => idx < self.jobs().len() && *j == self.jobs()[idx as int],
                None => idx >= self.jobs().len(),
            },
    {
        if idx < self.baseline.len() {
            Some(&self.baseline[idx])
        } else if idx - self.baseline.len() < self.usercron.len() {
            Some(&self.usercron[idx - self.baseline.len()])
        } else {
            None
        }
    }

    /// Whether the job at a place, which is counted in machine words, is started
    /// at a point in time: it is due, and its last run has ended.
    pub open spec fn starts(&self, now: i64, idx: int) -> bool {
        &&& 0 <= idx < self.jobs().len()
        &&& idx < usize::MAX
        &&& !self.running().contains(idx as usize)
        &&& fires(schedule_source(self.jobs()[idx].schedule), zone_name(self.jobs()[idx].tz), now)
    }

    /// The jobs that are started at a point in time, in their order; from then
    /// on they run.
    pub fn tick(&mut self, now: i64) -> (r: Vec<usize>)
        ensures
            has_ticked(*old(self), now, r@, *final(self)),
    {
        broadcast use vstd::std_specs::hash::group_hash_axioms;
        let ghost before = *old(self);
        let n = self.baseline.len().saturating_add(self.usercron.len());
        let mut due: Vec<usize> = Vec::new();
        let mut i: usize = 0;
        while i < n
            invariant
                i <= n,
                n == (if before.jobs().len() > usize::MAX {
                    usize::MAX as nat
                } else {
                    before.jobs().len()
                }),
                *self == before,
                forall|k: int| #![trigger before.starts(now, k)]
                    (k < i && before.starts(now, k)) <==> 0 <= k <= usize::MAX && due@.contains(
                        k as usize,
                    ),
                forall|a: int, b: int| 0 <= a < b < due@.len() ==> due@[a] < due@[b],
                forall|a: int| 0 <= a < due@.len() ==> due@[a] < i,
            decreases n - i,
        {
            let ghost earlier = due@;
            let starts = match self.job(i) {
                Some(job) => !self.in_flight.contains(&i) && fires_at(&job.schedule, &job.tz, now),
                None => false,
            };
            assert(starts == before.starts(now, i as int));
            if starts {
                due.push(i);
            }
            assert forall|k: int| #![trigger before.starts(now, k)]
                (k < i + 1 && before.starts(now, k)) <==> 0 <= k <= usize::MAX && due@.contains(
                    k as usize,
                ) by {
                if due@.contains(k as usize) && 0 <= k <= usize::MAX {
                    let j = choose|j: int| 0 <= j < due@.len() && due@[j] == k as usize;
                    if j < earlier.len() {
                        assert(earlier[j] == k as usize);
                        assert(earlier.contains(k as usize));
                    }
                }
                if k < i + 1 && before.starts(now, k) {
                    if k < i {
                        assert(earlier.contains(k as usize));
                        let j = choose|j: int| 0 <= j < earlier.len() && earlier[j] == k as usize;
                        assert(due@[j] == k as usize);
                    } else {
                        assert(due@[due@.len() - 1] == k as usize);
                    }
                }
            }
            i += 1;
        }
        let mut j: usize = 0;
        while j < due.len()
            invariant
                j <= due@.len(),
                self.jobs() == before.jobs(),
                self.configured() == before.configured(),
                self.seen() == before.seen(),
                self.running() == before.running().union(due@.take(j as int).to_set()),
            decreases due@.len() - j,
        {
            broadcast use vstd::std_specs::hash::group_hash_axioms;
            let idx = due[j];
            proof {
                assert(due@.take(j + 1) =~= due@.take(j as int).push(idx));
                due@.take(j as int).lemma_push_to_set_commute(idx);
            }
            self.in_flight.insert(idx);
            assert(self.running() =~= before.running().union(due@.take(j + 1).to_set()));
            j += 1;
        }
        assert(due@.take(due@.len() as int) =~= due@);
        due
    }
}

/// A job that runs is not started again, whatever the time, until it is noted as
/// ended; nor does taking the user's file anew let it start.
pub proof fn running_jobs_are_not_started(s: Scheduler, now: i64, idx: usize)
    requires
        s.running().contains(idx),
    ensures
        !s.starts(now, idx as int),
{
}

} // verus!
