//! When jobs run: how their expressions are read, and which jobs there are.

use vstd::prelude::*;
use crate::config::CronJobConfig;
use crate::scheduler::{
    all_parsed, compacted, dow_component, dow_days, dow_translated, expr_error, expr_source, fires,
    has_letter, has_noted_end, has_reloaded, has_ticked, in_calendar, is_parsed, is_whole_week,
    is_zone, job_error, jobs_error, keeps, list_selects, local_minute, next_event, on_step,
    ordinals, run_text, runnable, runs, schedule_error, schedule_source, seconds_to_minute,
    translated, weekdays_are_kept, with_seconds, zone_name, ParsedJob, Scheduler,
};
use crate::text::{
    begins, blank, decimal, decimal_reads_back, free_of, is_digit, is_white_space, is_word, joined,
    joining_undoes_splitting, lemma_decimal_digits, lemma_parts_stand, parts_are_found_again,
    pieces, white_space_parts_words, words, words_hold_no_white_space,
};

verus! {

// ---------------------------------------------------------------------------
// Days of the week
// ---------------------------------------------------------------------------

/// Whether a text is made of digits, commas and dashes.
spec fn is_list_text(s: Seq<char>) -> bool {
    forall|i: int| 0 <= i < s.len() ==> is_digit(#[trigger] s[i]) || s[i] == ',' || s[i] == '-'
}

proof fn lemma_list_text_add(a: Seq<char>, b: Seq<char>)
    requires
        is_list_text(a),
        is_list_text(b),
    ensures
        is_list_text(a + b),
{
    let s = a + b;
    assert forall|i: int| 0 <= i < s.len() implies is_digit(#[trigger] s[i]) || s[i] == ',' || s[i]
        == '-' by {
        if i < a.len() {
            assert(s[i] == a[i]);
        } else {
            assert(s[i] == b[i - a.len()]);
        }
    }
}

proof fn lemma_run_text(run: (u32, u32))
    ensures
        is_list_text(run_text(run)),
        run_text(run).len() > 0,
{
    reveal_strlit("-");
    lemma_decimal_digits(run.0 as nat);
    lemma_decimal_digits(run.1 as nat);
    lemma_list_text_add(decimal(run.0 as nat), "-"@);
    lemma_list_text_add(decimal(run.0 as nat) + "-"@, decimal(run.1 as nat));
}

proof fn lemma_joined_text(parts: Seq<Seq<char>>)
    requires
        parts.len() > 0,
        forall|i: int| 0 <= i < parts.len() ==> is_list_text(#[trigger] parts[i]) && parts[i].len() > 0,
    ensures
        is_list_text(joined(parts, ","@)),
        joined(parts, ","@).len() > 0,
    decreases parts.len(),
{
    reveal_strlit(",");
    if parts.len() == 1 {
        assert(is_list_text(parts[0]));
    } else {
        let front = parts.drop_last();
        assert forall|i: int| 0 <= i < front.len() implies is_list_text(#[trigger] front[i])
            && front[i].len() > 0 by {
            assert(front[i] == parts[i]);
        }
        lemma_joined_text(front);
        assert(is_list_text(parts[parts.len() - 1]));
        lemma_list_text_add(joined(front, ","@), ","@);
        lemma_list_text_add(joined(front, ","@) + ","@, parts.last());
    }
}

proof fn lemma_some_day(parts: Seq<Seq<char>>, field: Seq<char>)
    requires
        dow_days(parts, field) is Ok,
        parts.len() > 0,
    ensures
        exists|d: int| 0 <= d < 7 && dow_days(parts, field)->Ok_0[d],
{
    let part = parts.last();
    let more = dow_component(part, field)->Ok_0;
    let days = dow_days(parts, field)->Ok_0;
    let (range, step) = crate::scheduler::dow_step(part)->Ok_0;
    let (first, last) = crate::scheduler::dow_span(range, step, part)->Ok_0;
    assert(first <= last <= 7);
    assert(step > 0);
    assert(on_step(first, last, step, first)) by {
        assert(0int % (step as int) == 0) by (nonlinear_arith)
            requires
                step > 0,
        ;
    }
    let d = if first == 7 {
        0
    } else {
        first as int
    };
    assert(more[d]);
    assert(days[d]);
}

proof fn lemma_ordinals_nonempty(days: Seq<bool>, k: int, d: int)
    requires
        0 <= d < k <= 7,
        days[d],
    ensures
        ordinals(days, k).len() > 0,
    decreases k,
{
    if d < k - 1 {
        lemma_ordinals_nonempty(days, k - 1, d);
    }
}

proof fn lemma_runs_nonempty(s: Seq<u32>)
    requires
        s.len() > 0,
    ensures
        runs(s).len() > 0,
{
}

/// A translated day-of-week field is one word, as the field was.
pub proof fn weekday_field_stays_a_word(field: Seq<char>)
    requires
        is_word(field),
        dow_translated(field) is Ok,
    ensures
        is_word(dow_translated(field)->Ok_0),
{
    if !has_letter(field) {
        joining_undoes_splitting(field, ',');
        let days = dow_days(pieces(field, ','), field)->Ok_0;
        if is_whole_week(days) {
            reveal_strlit("*");
        } else {
            lemma_some_day(pieces(field, ','), field);
            let d = choose|d: int| 0 <= d < 7 && days[d];
            lemma_ordinals_nonempty(days, 7, d);
            let rs = runs(ordinals(days, 7));
            lemma_runs_nonempty(ordinals(days, 7));
            let parts = rs.map_values(|r: (u32, u32)| run_text(r));
            assert forall|i: int| 0 <= i < parts.len() implies is_list_text(#[trigger] parts[i])
                && parts[i].len() > 0 by {
                lemma_run_text(rs[i]);
            }
            lemma_joined_text(parts);
            let t = compacted(ordinals(days, 7));
            assert forall|i: int| 0 <= i < t.len() implies !is_white_space(#[trigger] t[i]) by {
                assert(is_digit(t[i]) || t[i] == ',' || t[i] == '-');
            }
        }
    }
}

proof fn lemma_days_read(parts: Seq<Seq<char>>, field: Seq<char>)
    ensures
        dow_days(parts, field) is Ok <==> (forall|i: int|
            0 <= i < parts.len() ==> dow_component(#[trigger] parts[i], field) is Ok),
    decreases parts.len(),
{
    if parts.len() > 0 {
        let front = parts.drop_last();
        let n = front.len() as int;
        lemma_days_read(front, field);
        assert(parts[n] == parts.last());
        assert(forall|i: int| 0 <= i < n ==> #[trigger] front[i] == parts[i]);
        if dow_days(front, field) is Ok {
            assert forall|i: int| 0 <= i < n implies dow_component(#[trigger] parts[i], field) is Ok by {
                assert(dow_component(front[i], field) is Ok);
            }
        } else {
            let i = choose|i: int| 0 <= i < n && dow_component(#[trigger] front[i], field) is Err;
            assert(dow_component(parts[i], field) is Err);
        }
    }
}

proof fn lemma_day_selected(parts: Seq<Seq<char>>, field: Seq<char>, d: int, i: int)
    requires
        dow_days(parts, field) is Ok,
        0 <= d < 7,
        0 <= i < parts.len(),
        dow_component(parts[i], field)->Ok_0[d],
    ensures
        dow_days(parts, field)->Ok_0[d],
    decreases parts.len(),
{
    if i < parts.len() - 1 {
        lemma_day_selected(parts.drop_last(), field, d, i);
    }
}

proof fn lemma_selecting_part(parts: Seq<Seq<char>>, field: Seq<char>, d: int) -> (i: int)
    requires
        dow_days(parts, field) is Ok,
        0 <= d < 7,
        dow_days(parts, field)->Ok_0[d],
    ensures
        0 <= i < parts.len(),
        dow_component(parts[i], field)->Ok_0[d],
    decreases parts.len(),
{
    if parts.len() > 0 && dow_days(parts.drop_last(), field)->Ok_0[d] {
        lemma_selecting_part(parts.drop_last(), field, d)
    } else {
        parts.len() - 1
    }
}

/// A field of numbers is a list: it can be translated if each of its parts can
/// be read, and then it selects a day of the week exactly if one of its parts
/// does. (Days are counted from one in a translation, and from zero before.)
#[verifier::rlimit(40)]
#[verifier::spinoff_prover]
pub proof fn weekday_lists_are_joined(field: Seq<char>, day: u32)
    requires
        !has_letter(field),
        field.len() > 0,
        1 <= day <= 7,
    ensures
        dow_translated(field) is Ok <==> (forall|i: int|
            0 <= i < pieces(field, ',').len() ==> dow_component(
                #[trigger] pieces(field, ',')[i],
                field,
            ) is Ok),
        dow_translated(field) is Ok ==> (list_selects(dow_translated(field)->Ok_0, day as nat)
            <==> exists|i: int|
            0 <= i < pieces(field, ',').len() && dow_component(
                #[trigger] pieces(field, ',')[i],
                field,
            )->Ok_0[day - 1]),
{
    let parts = pieces(field, ',');
    lemma_days_read(parts, field);
    if dow_days(parts, field) is Ok {
        let days = dow_days(parts, field)->Ok_0;
        weekdays_are_kept(field, days, day);
        let d = day - 1;
        if days[d] {
            let i = lemma_selecting_part(parts, field, d);
            assert(dow_component(pieces(field, ',')[i], field)->Ok_0[day - 1]);
        }
        if exists|i: int| 0 <= i < parts.len() && dow_component(#[trigger] parts[i], field)->Ok_0[d] {
            let i = choose|i: int|
                0 <= i < parts.len() && dow_component(#[trigger] parts[i], field)->Ok_0[d];
            lemma_day_selected(parts, field, d, i);
        }
    }
}

/// Whether a day is in a span of days of the week, taken in steps. A span that
/// ends on day seven ends on a Sunday.
pub open spec fn in_span(first: nat, last: nat, step: nat, day: int) -> bool {
    ||| first <= day <= last && (day - first) % (step as int) == 0
    ||| day == 0 && first <= 7 <= last && (7 - first) % (step as int) == 0
}

proof fn lemma_digits_free(n: nat)
    ensures
        free_of(decimal(n), '/'),
        free_of(decimal(n), '-'),
        decimal(n).len() > 0,
        decimal(n)[0] != '*',
{
    lemma_decimal_digits(n);
    let s = decimal(n);
    assert forall|i: int| 0 <= i < s.len() implies #[trigger] s[i] != '/' && s[i] != '-' by {
        assert(is_digit(s[i]));
    }
    assert(is_digit(s[0]));
}

proof fn lemma_step(range: Seq<char>, step: nat)
    requires
        free_of(range, '/'),
        1 <= step <= u32::MAX,
    ensures
        crate::scheduler::dow_step(range + "/"@ + decimal(step)) == Ok::<(Seq<char>, nat), Seq<char>>(
            (range, step),
        ),
        crate::scheduler::dow_step(range) == Ok::<(Seq<char>, nat), Seq<char>>((range, 1)),
        (range + "/"@ + decimal(step)).len() > 0,
{
    reveal_strlit("/");
    assert("/"@ =~= seq!['/']);
    parts_are_found_again(range, decimal(step), '/');
    decimal_reads_back(step, u32::MAX as nat);
}

proof fn lemma_range(a: nat, b: nat, step: nat, part: Seq<char>)
    requires
        a <= b <= 7,
    ensures
        crate::scheduler::dow_span(decimal(a) + "-"@ + decimal(b), step, part) == Ok::<
            (nat, nat),
            Seq<char>,
        >((a, b)),
        free_of(decimal(a) + "-"@ + decimal(b), '/'),
        (decimal(a) + "-"@ + decimal(b)).len() > 0,
{
    reveal_strlit("-");
    reveal_strlit("*");
    assert("-"@ =~= seq!['-']);
    lemma_digits_free(a);
    lemma_digits_free(b);
    let r = decimal(a) + "-"@ + decimal(b);
    assert(r[0] == decimal(a)[0]);
    assert("*"@[0] == '*');
    parts_are_found_again(decimal(a), decimal(b), '-');
    decimal_reads_back(a, u32::MAX as nat);
    decimal_reads_back(b, u32::MAX as nat);
    assert forall|i: int| 0 <= i < r.len() implies #[trigger] r[i] != '/' by {
        let n = decimal(a).len() as int;
        if i < n {
            assert(r[i] == decimal(a)[i]);
        } else if i > n {
            assert(r[i] == decimal(b)[i - n - 1]);
        }
    }
}

/// A range selects the days from its first to its last; with a step, every so
/// many of them from the first on.
#[verifier::rlimit(40)]
#[verifier::spinoff_prover]
pub proof fn weekday_ranges_are_selected(a: nat, b: nat, step: nat, field: Seq<char>, d: int)
    requires
        a <= b <= 7,
        1 <= step <= u32::MAX,
        0 <= d < 7,
    ensures
        dow_component(decimal(a) + "-"@ + decimal(b), field) is Ok,
        dow_component(decimal(a) + "-"@ + decimal(b), field)->Ok_0[d] <==> a <= d <= b || (d == 0
            && b == 7),
        dow_component(decimal(a) + "-"@ + decimal(b) + "/"@ + decimal(step), field) is Ok,
        dow_component(decimal(a) + "-"@ + decimal(b) + "/"@ + decimal(step), field)->Ok_0[d]
            <==> in_span(a, b, step, d),
{
    let range = decimal(a) + "-"@ + decimal(b);
    lemma_range(a, b, 1, range);
    lemma_range(a, b, step, range + "/"@ + decimal(step));
    lemma_step(range, step);
}

/// A star selects every day; with a step, every so many days from Sunday on.
pub proof fn stars_select_every_day(step: nat, field: Seq<char>, d: int)
    requires
        1 <= step <= u32::MAX,
        0 <= d < 7,
    ensures
        dow_component("*"@, field) is Ok,
        dow_component("*"@, field)->Ok_0[d],
        dow_component("*"@ + "/"@ + decimal(step), field) is Ok,
        dow_component("*"@ + "/"@ + decimal(step), field)->Ok_0[d] <==> d % (step as int) == 0,
{
    reveal_strlit("*");
    lemma_step("*"@, step);
}

/// A number selects its day, seven being a Sunday like zero; with a step
/// greater than one, every so many days from it to the end of the week.
#[verifier::rlimit(40)]
#[verifier::spinoff_prover]
pub proof fn weekday_numbers_select_their_day(n: nat, step: nat, field: Seq<char>, d: int)
    requires
        n <= 7,
        1 < step <= u32::MAX,
        0 <= d < 7,
    ensures
        dow_component(decimal(n), field) is Ok,
        dow_component(decimal(n), field)->Ok_0[d] <==> d == n % 7,
        dow_component(decimal(n) + "/"@ + decimal(step), field) is Ok,
        dow_component(decimal(n) + "/"@ + decimal(step), field)->Ok_0[d] <==> d >= n % 7 && (d - n
            % 7) % (step as int) == 0,
{
    reveal_strlit("*");
    assert("*"@[0] == '*');
    lemma_digits_free(n);
    lemma_step(decimal(n), step);
    decimal_reads_back(n, u32::MAX as nat);
    parts_are_found_again(decimal(n), Seq::empty(), '-');
}

/// Numbers that name no day, ranges that run backwards, steps of zero and empty
/// parts are refused.
#[verifier::rlimit(40)]
#[verifier::spinoff_prover]
pub proof fn strange_weekdays_are_refused(a: nat, b: nat, field: Seq<char>)
    requires
        a <= u32::MAX,
        b <= u32::MAX,
    ensures
        a > 7 ==> dow_component(decimal(a), field) is Err,
        a > b || b > 7 ==> dow_component(decimal(a) + "-"@ + decimal(b), field) is Err,
        dow_component("*"@ + "/"@ + decimal(0), field) is Err,
        dow_component(Seq::empty(), field) is Err,
{
    reveal_strlit("*");
    reveal_strlit("-");
    reveal_strlit("/");
    assert("-"@ =~= seq!['-']);
    assert("/"@ =~= seq!['/']);
    assert("*"@[0] == '*');
    lemma_digits_free(a);
    lemma_digits_free(b);
    decimal_reads_back(a, u32::MAX as nat);
    decimal_reads_back(b, u32::MAX as nat);
    decimal_reads_back(0, u32::MAX as nat);
    lemma_step(decimal(a), 1);
    parts_are_found_again(decimal(a), Seq::empty(), '-');
    parts_are_found_again(decimal(a), decimal(b), '-');
    assert(free_of("*"@, '/'));
    parts_are_found_again("*"@, decimal(0), '/');
    let r = decimal(a) + "-"@ + decimal(b);
    assert(r[0] == decimal(a)[0]);
    assert forall|i: int| 0 <= i < r.len() implies #[trigger] r[i] != '/' by {
        let n = decimal(a).len() as int;
        if i < n {
            assert(r[i] == decimal(a)[i]);
        } else if i > n {
            assert(r[i] == decimal(b)[i - n - 1]);
        }
    }
    parts_are_found_again(r, Seq::empty(), '/');
}

/// Names of days are left as they are; names and numbers in one field are
/// refused.
pub proof fn named_weekdays_are_left(field: Seq<char>)
    requires
        exists|i: int| 0 <= i < field.len() && crate::text::is_letter(#[trigger] field[i]),
    ensures
        (forall|i: int| 0 <= i < field.len() ==> !is_digit(#[trigger] field[i])) ==> dow_translated(
            field,
        ) == Ok::<Seq<char>, Seq<char>>(field),
        (exists|i: int| 0 <= i < field.len() && is_digit(#[trigger] field[i])) ==> dow_translated(
            field,
        ) is Err,
{
}

// ---------------------------------------------------------------------------
// Expressions
// ---------------------------------------------------------------------------

proof fn lemma_one_more(a: Seq<char>, b: Seq<char>)
    requires
        is_word(b),
    ensures
        words(a + " "@ + b) == words(a).push(b),
{
    reveal_strlit(" ");
    assert(" "@ =~= seq![' ']);
    white_space_parts_words(a, ' ', b);
    white_space_parts_words(b, ' ', a);
    assert(words(a) + seq![b] =~= words(a).push(b));
}

/// Where an expression can be translated, the translation has five fields as
/// the expression has, and the minute, the hour, the day of the month and the
/// month stand at their places as they were given. Only the day of the week is
/// written anew.
#[verifier::rlimit(40)]
#[verifier::spinoff_prover]
pub proof fn translation_keeps_its_fields(expr: Seq<char>)
    requires
        translated(expr) is Ok,
    ensures
        words(expr).len() == 5,
        words(translated(expr)->Ok_0).len() == 5,
        words(translated(expr)->Ok_0)[0] == words(expr)[0],
        words(translated(expr)->Ok_0)[1] == words(expr)[1],
        words(translated(expr)->Ok_0)[2] == words(expr)[2],
        words(translated(expr)->Ok_0)[3] == words(expr)[3],
        dow_translated(words(expr)[4]) == Ok::<Seq<char>, Seq<char>>(
            words(translated(expr)->Ok_0)[4],
        ),
{
    let f = words(expr);
    words_hold_no_white_space(expr);
    assert(is_word(f[0]) && is_word(f[1]) && is_word(f[2]) && is_word(f[3]) && is_word(f[4]));
    weekday_field_stays_a_word(f[4]);
    let dow = dow_translated(f[4])->Ok_0;
    white_space_parts_words(f[0], ' ', f[1]);
    lemma_one_more(f[0], f[1]);
    lemma_one_more(f[0] + " "@ + f[1], f[2]);
    lemma_one_more(f[0] + " "@ + f[1] + " "@ + f[2], f[3]);
    lemma_one_more(f[0] + " "@ + f[1] + " "@ + f[2] + " "@ + f[3], dow);
}

/// An expression can be translated exactly if it has five fields and the last
/// of them can be.
pub proof fn translation_needs_five_fields(expr: Seq<char>)
    ensures
        translated(expr) is Ok <==> words(expr).len() == 5 && dow_translated(words(expr)[4]) is Ok,
{
}

/// How the fields are spaced does not matter: expressions with the same fields
/// have the same translation.
pub proof fn spacing_does_not_matter(a: Seq<char>, b: Seq<char>)
    requires
        words(a) == words(b),
        words(a).len() == 5,
    ensures
        translated(a) == translated(b),
{
}

/// Jobs run in the first second of a minute: the seconds come before the five
/// fields, and are zero.
pub proof fn jobs_run_in_the_first_second(five: Seq<char>)
    ensures
        words(with_seconds(five)) == seq!["0"@] + words(five),
{
    reveal_strlit("0 ");
    reveal_strlit("0");
    let zero = "0"@;
    assert(is_word(zero));
    assert("0 "@ + five =~= zero + seq![' '] + five);
    white_space_parts_words(zero, ' ', five);
}

/// The schedule of an expression is made of a zero for the seconds, its first
/// four fields as they are, and its last field translated; it is refused for
/// what is wrong with those six fields, or because there are none.
#[verifier::rlimit(40)]
#[verifier::spinoff_prover]
pub proof fn schedules_are_made_of_the_fields(expr: Seq<char>)
    ensures
        expr_error(expr) is None ==> {
            let six = words(expr_source(expr));
            &&& six.len() == 6
            &&& six[0] == "0"@
            &&& six[1] == words(expr)[0]
            &&& six[2] == words(expr)[1]
            &&& six[3] == words(expr)[2]
            &&& six[4] == words(expr)[3]
            &&& dow_translated(words(expr)[4]) == Ok::<Seq<char>, Seq<char>>(six[5])
            &&& schedule_error(expr_source(expr)) is None
        },
        words(expr).len() != 5 ==> expr_error(expr) is Some,
        words(expr).len() == 5 && dow_translated(words(expr)[4]) is Err ==> expr_error(expr) == Some(
            dow_translated(words(expr)[4])->Err_0,
        ),
        words(expr).len() == 5 && dow_translated(words(expr)[4]) is Ok ==> expr_error(expr)
            == schedule_error(expr_source(expr)),
{
    if translated(expr) is Ok {
        translation_keeps_its_fields(expr);
        jobs_run_in_the_first_second(translated(expr)->Ok_0);
    }
}

// ---------------------------------------------------------------------------
// Jobs
// ---------------------------------------------------------------------------

/// Whether nothing is wrong with a job of the configuration.
pub open spec fn is_sound_job(job: CronJobConfig, platforms: Seq<Seq<char>>) -> bool {
    &&& words(job.schedule@).len() == 5
    &&& expr_error(job.schedule@) is None
    &&& is_zone(job.timezone@)
    &&& job.platform@ == "discord"@ || job.platform@ == "slack"@
    &&& platforms.contains(job.platform@)
    &&& job.disable_on_success is None
}

/// A configuration is taken exactly if each of its jobs that is turned on is
/// sound: its expression has five fields that make a schedule, its time zone
/// exists, its platform is one of the two and is configured, and it does not
/// ask to be turned off on success. What is turned off is not looked at.
pub proof fn every_enabled_job_is_checked(jobs: Seq<CronJobConfig>, platforms: Seq<Seq<char>>, k: int)
    requires
        0 <= k <= jobs.len(),
    ensures
        jobs_error(jobs, platforms, k) is None <==> (forall|i: int|
            0 <= i < k && (#[trigger] jobs[i]).enabled ==> is_sound_job(jobs[i], platforms)),
    decreases k,
{
    if k > 0 {
        every_enabled_job_is_checked(jobs, platforms, k - 1);
        let job = jobs[k - 1];
        assert(job_error(job, platforms) is None <==> is_sound_job(job, platforms));
    }
}

/// The error of a configuration names the first job that is not sound, by its
/// place.
pub proof fn first_bad_job_is_named(
    jobs: Seq<CronJobConfig>,
    platforms: Seq<Seq<char>>,
    k: int,
    i: int,
)
    requires
        0 <= i < k <= jobs.len(),
        jobs[i].enabled,
        !is_sound_job(jobs[i], platforms),
        forall|j: int| 0 <= j < i && (#[trigger] jobs[j]).enabled ==> is_sound_job(jobs[j], platforms),
    ensures
        jobs_error(jobs, platforms, k) is Some,
        begins(jobs_error(jobs, platforms, k)->0, "cronjobs["@ + decimal(i as nat) + "]: "@),
    decreases k,
{
    if k - 1 > i {
        first_bad_job_is_named(jobs, platforms, k - 1, i);
    } else {
        every_enabled_job_is_checked(jobs, platforms, i);
        every_enabled_job_is_checked(jobs, platforms, k);
        let e = Seq::<char>::empty();
        let head = "cronjobs["@ + decimal(i as nat) + "]: "@;
        lemma_parts_stand(head, job_error(jobs[i], platforms)->0, e);
        assert(head + job_error(jobs[i], platforms)->0 + e =~= jobs_error(jobs, platforms, k)->0);
    }
}

/// A job of the user's own that a platform and a schedule can be found for is
/// kept; if it is to be turned off on success it also needs an id, and a text to
/// know success by. Any other is dropped.
pub proof fn sound_jobs_of_the_user_are_kept(job: CronJobConfig, platforms: Seq<Seq<char>>)
    ensures
        keeps(job, platforms) ==> words(job.schedule@).len() == 5,
        is_sound_job(job, platforms) ==> keeps(job, platforms),
        !platforms.contains(job.platform@) || expr_error(job.schedule@) is Some || !is_zone(
            job.timezone@,
        ) ==> !keeps(job, platforms),
        job.disable_on_success matches Some(to) ==> !blank(to@) && (job.id is None || blank(
            job.id->0@,
        ) || job.disable_on_success_match is None || blank(job.disable_on_success_match->0@))
            ==> !keeps(job, platforms),
        keeps(CronJobConfig { enabled: !job.enabled, ..job }, platforms) == keeps(job, platforms),
{
}

/// A job runs only if it is turned on.
pub proof fn disabled_jobs_do_not_run(job: CronJobConfig)
    ensures
        !job.enabled ==> !runnable(job),
        runnable(job) ==> words(job.schedule@).len() == 5,
        job.enabled && expr_error(job.schedule@) is None && is_zone(job.timezone@) ==> runnable(job),
{
}

/// Every job that can run is made ready, in the order of the list, with the
/// schedule of its expression in its time zone; and no other is.
#[verifier::rlimit(40)]
#[verifier::spinoff_prover]
pub proof fn runnable_jobs_are_made_ready(
    jobs: Seq<CronJobConfig>,
    usercron: bool,
    parsed: Seq<ParsedJob>,
    i: int,
)
    requires
        all_parsed(jobs.filter(|job: CronJobConfig| runnable(job)), usercron, parsed),
    ensures
        0 <= i < jobs.len() && runnable(jobs[i]) ==> exists|k: int|
            0 <= k < parsed.len() && (#[trigger] parsed[k]).config == jobs[i],
        parsed.len() <= jobs.len(),
        0 <= i < parsed.len() ==> {
            &&& parsed[i].config.enabled
            &&& jobs.contains(parsed[i].config)
            &&& parsed[i].usercron == usercron
            &&& zone_name(parsed[i].tz) == parsed[i].config.timezone@
            &&& words(schedule_source(parsed[i].schedule)).len() == 6
            &&& words(schedule_source(parsed[i].schedule))[1] == words(parsed[i].config.schedule@)[0]
            &&& words(schedule_source(parsed[i].schedule))[2] == words(parsed[i].config.schedule@)[1]
        },
{
    let pick = |job: CronJobConfig| runnable(job);
    let kept = jobs.filter(pick);
    jobs.lemma_filter_len(pick);
    if 0 <= i < jobs.len() && runnable(jobs[i]) {
        jobs.lemma_filter_contains(pick, i);
        let k = choose|k: int| 0 <= k < kept.len() && kept[k] == jobs[i];
        assert(is_parsed(kept[k], usercron, parsed[k]));
        assert(parsed[k].config == jobs[i]);
    }
    if 0 <= i < parsed.len() {
        assert(is_parsed(kept[i], usercron, parsed[i]));
        jobs.lemma_filter_pred(pick, i);
        assert(kept.contains(kept[i]));
        jobs.lemma_filter_contains_rev(pick, kept[i]);
        schedules_are_made_of_the_fields(kept[i].schedule@);
    }
}

/// The next minute begins after the seconds waited for, less than a minute.
pub proof fn minutes_are_waited_for(now: int)
    requires
        now >= 0,
    ensures
        0 <= seconds_to_minute(now) < 60,
        (now + seconds_to_minute(now)) % 60 == 0,
{
}

/// A job starts at a time that it fires at, unless it still runs; to note that
/// it has ended lets it start, and one job's run does not keep another from
/// starting.
pub proof fn due_jobs_are_started(s: Scheduler, now: i64, idx: usize)
    requires
        idx < s.jobs().len(),
        idx < usize::MAX,
        !s.running().contains(idx),
        fires(schedule_source(s.jobs()[idx as int].schedule), zone_name(s.jobs()[idx as int].tz), now),
    ensures
        s.starts(now, idx as int),
{
}

/// A job that was started is running, and is not started again by another tick,
/// at whatever time, until its end is noted.
#[verifier::rlimit(40)]
#[verifier::spinoff_prover]
pub proof fn jobs_are_started_once(
    a: Scheduler,
    now: i64,
    first: Seq<usize>,
    b: Scheduler,
    later: i64,
    second: Seq<usize>,
    c: Scheduler,
    i: int,
)
    requires
        has_ticked(a, now, first, b),
        has_ticked(b, later, second, c),
        0 <= i < first.len(),
    ensures
        b.running().contains(first[i]),
        !second.contains(first[i]),
        now == later ==> second.len() == 0,
        b.jobs() == a.jobs(),
        forall|idx: usize| a.running().contains(idx) ==> b.running().contains(idx),
        forall|idx: usize| a.running().contains(idx) ==> !first.contains(idx),
{
    assert(first.contains(first[i]));
    assert(first.to_set().contains(first[i]));
    assert(b.running().contains(first[i]));
    if second.contains(first[i]) {
        assert(b.starts(later, first[i] as int));
    }
    assert forall|idx: usize| a.running().contains(idx) implies !first.contains(idx) by {
        if first.contains(idx) {
            assert(a.starts(now, idx as int));
        }
    }
    if now == later && second.len() > 0 {
        let j = second[0];
        assert(second.contains(j));
        assert(b.starts(later, j as int));
        assert(!b.running().contains(j));
        assert(!a.running().contains(j));
        assert(a.starts(now, j as int));
        assert(first.contains(j));
        assert(first.to_set().contains(j));
    }
}

/// To note the end of a job lets it start again when it is due; no other job is
/// touched by it.
pub proof fn ended_jobs_may_start_again(before: Scheduler, idx: usize, after: Scheduler, now: i64, other: usize)
    requires
        has_noted_end(before, idx, after),
        idx < before.jobs().len(),
        idx < usize::MAX,
        other != idx,
    ensures
        fires(
            schedule_source(before.jobs()[idx as int].schedule),
            zone_name(before.jobs()[idx as int].tz),
            now,
        ) ==> after.starts(now, idx as int),
        after.running().contains(other) == before.running().contains(other),
        after.starts(now, other as int) == before.starts(now, other as int),
        after.jobs() == before.jobs(),
{
}

/// To take the user's file anew changes only the user's jobs: those of the
/// configuration stay at their places, what runs goes on running, and the file
/// is not taken again until it has changed.
pub proof fn reloading_keeps_configured_jobs(
    before: Scheduler,
    usercron: Seq<ParsedJob>,
    file_time: Option<(u64, u32)>,
    after: Scheduler,
    i: int,
)
    requires
        has_reloaded(before, usercron, file_time, after),
    ensures
        0 <= i < before.configured().len() ==> after.jobs()[i] == before.configured()[i],
        0 <= i < usercron.len() ==> after.jobs()[before.configured().len() + i] == usercron[i],
        after.jobs().len() == before.configured().len() + usercron.len(),
        after.running() == before.running(),
        after.seen() == file_time,
{
}

/// A job fires exactly at the minutes in which its schedule has an event: the
/// first event after the second before the minute is the minute itself.
pub proof fn events_fire_in_their_minute(source: Seq<char>, zone: Seq<char>, now: i64, m: i64, before: i64)
    requires
        in_calendar(now),
        local_minute(zone, now) == Some(m),
        before + 1 == m,
        in_calendar(before),
    ensures
        fires(source, zone, now) <==> next_event(source, zone, before) == Some(m),
{
}

/// Whether a job fires depends on the minute alone that the clocks of its zone
/// show, not on the second.
pub proof fn minutes_decide(source: Seq<char>, zone: Seq<char>, a: i64, b: i64)
    requires
        in_calendar(a),
        in_calendar(b),
        local_minute(zone, a) == local_minute(zone, b),
    ensures
        fires(source, zone, a) == fires(source, zone, b),
        local_minute(zone, a) is None ==> !fires(source, zone, a),
        fires(source, zone, a) ==> exists|before: i64|
            #[trigger] next_event(source, zone, before) == local_minute(zone, a) && before + 1
                == local_minute(zone, a)->0,
{
    if fires(source, zone, a) {
        let m = local_minute(zone, a)->0;
        let before = (m - 1) as i64;
        assert(next_event(source, zone, before) == local_minute(zone, a));
    }
}

} // verus!
