//! Menus of options, their pages, and reminders.

use vstd::prelude::*;
use crate::commands::{
    all_items, are_claimed, are_page_buttons, chosen_name, command_route, component_route,
    current_name, id_place, is_choice_in, is_new, item_of, mentions_in, menu_placeholder,
    option_place, page_id, page_items, page_request, pages, picks, remind_error, set_by, shown_page,
    targets_error, Button, ConfigOption, ConfigValue, ItemView, Route, HISTORY_BUTTON_PREFIX,
};
use crate::config::text_view;
use crate::export::{history_id, HistorySelectionMode};
use crate::text::{begins, decimal, ends, lemma_parts_stand, occurs, words};

verus! {

/// Whether an item stands for a value of an option.
pub open spec fn stands_for(item: ItemView, v: ConfigValue, current: Seq<char>) -> bool {
    &&& item.label == v.name@
    &&& item.value == v.value@
    &&& item.description == text_view(v.description)
    &&& item.selected <==> v.value@ == current
}

proof fn lemma_counts(values: Seq<ConfigValue>, current: Seq<char>)
    ensures
        values.filter(picks(current, true)).len() + values.filter(picks(current, false)).len()
            == values.len(),
    decreases values.len(),
{
    reveal(Seq::filter);
    if values.len() > 0 {
        lemma_counts(values.drop_last(), current);
    }
}

/// A menu has one item for each value of its option, with the value's name,
/// value and description. The current value's items are marked and come first.
#[verifier::rlimit(40)]
#[verifier::spinoff_prover]
pub proof fn menus_list_every_value(o: ConfigOption, j: int) -> (k: int)
    requires
        0 <= j < o.options@.len(),
    ensures
        0 <= k < all_items(o).len(),
        stands_for(all_items(o)[k], o.options@[j], o.current_value@),
        all_items(o).len() == o.options@.len(),
        forall|a: int, b: int|
            0 <= a < b < all_items(o).len() && (#[trigger] all_items(o)[b]).selected ==> (
            #[trigger] all_items(o)[a]).selected,
{
    let values = o.options@;
    let current = o.current_value@;
    let first = values.filter(picks(current, true));
    let rest = values.filter(picks(current, false));
    lemma_counts(values, current);
    let items = all_items(o);
    assert forall|a: int, b: int|
        0 <= a < b < items.len() && (#[trigger] items[b]).selected implies (
    #[trigger] items[a]).selected by {
        if b >= first.len() {
            values.lemma_filter_pred(picks(current, false), b - first.len());
            assert(items[b] == item_of(rest[b - first.len()], current));
        }
        values.lemma_filter_pred(picks(current, true), a);
        assert(items[a] == item_of(first[a], current));
    }
    if values[j].value@ == current {
        values.lemma_filter_contains(picks(current, true), j);
        let k = choose|k: int| 0 <= k < first.len() && first[k] == values[j];
        assert(items[k] == item_of(first[k], current));
        k
    } else {
        values.lemma_filter_contains(picks(current, false), j);
        let k = choose|k: int| 0 <= k < rest.len() && rest[k] == values[j];
        assert(items[first.len() + k] == item_of(rest[k], current));
        first.len() + k
    }
}

/// Every item is on one page, and the pages follow one another: twenty-five
/// items are on each but the last, which has the rest.
pub proof fn pages_hold_every_item(o: ConfigOption, k: int)
    requires
        0 <= k < all_items(o).len(),
    ensures
        ({
            let page = (k / 25) as nat;
            &&& k % 25 < page_items(o, page).len()
            &&& page_items(o, page)[k % 25] == all_items(o)[k]
            &&& page_items(o, page).len() <= 25
            &&& page_items(o, page).len() < 25 ==> (page + 1) * 25 > all_items(o).len()
        }),
{
    let page = (k / 25) as nat;
    assert(page * 25 + k % 25 == k);
}

/// There are as many pages as the items need, and a page beyond them is empty.
pub proof fn pages_are_as_many_as_needed(o: ConfigOption, n: nat, page: nat)
    ensures
        pages(n) * 25 >= n,
        n > 0 ==> (pages(n) - 1) * 25 < n,
        n == 0 ==> pages(n) == 0,
        page >= pages(all_items(o).len()) ==> page_items(o, page).len() == 0,
        page < pages(all_items(o).len()) ==> page_items(o, page).len() > 0,
{
}

/// The page that is shown is the one asked for, or the last where there are not
/// so many; it is the first where none is asked for.
pub proof fn shown_pages_exist(page: Option<usize>, total: nat)
    ensures
        total > 0 ==> shown_page(page, total) < total,
        page matches Some(p) ==> p < total ==> shown_page(page, total) == p,
        page matches Some(p) ==> p >= total && total > 0 ==> shown_page(page, total) + 1 == total,
        page is None ==> shown_page(page, total) == 0,
{
}

/// The buttons below a menu lead to the page before and to the page behind, of
/// the same menu. Each can be used exactly if there is such a page.
pub proof fn buttons_lead_to_the_next_pages(
    b: Seq<Button>,
    agents: bool,
    page: nat,
    total: nat,
)
    requires
        are_page_buttons(
            b,
            if agents {
                "agent"@
            } else {
                "model"@
            },
            page,
            total,
        ),
        page < total,
        page + 1 <= usize::MAX,
    ensures
        ({
            let category = if agents {
                "agent"@
            } else {
                "model"@
            };
            &&& b.len() == 3
            &&& page > 0 ==> page_request(b[0].custom_id@) == Some((category, (page - 1) as nat))
            &&& page_request(b[2].custom_id@) == Some((category, page + 1))
            &&& !b[0].disabled <==> page > 0
            &&& !b[2].disabled <==> page + 1 < total
            &&& b[1].disabled
            &&& b[1].label@ == decimal(page + 1) + "/"@ + decimal(total)
        }),
{
    crate::commands::page_buttons_read_back(page + 1);
    if page > 0 {
        crate::commands::page_buttons_read_back((page - 1) as nat);
    }
}

proof fn lemma_option_place(options: Seq<ConfigOption>, category: Seq<char>)
    ensures
        0 <= option_place(options, category) <= options.len(),
        forall|i: int|
            0 <= i < option_place(options, category) ==> text_view((#[trigger] options[i]).category)
                != Some(category),
        option_place(options, category) < options.len() ==> text_view(
            options[option_place(options, category)].category,
        ) == Some(category),
    decreases options.len(),
{
    if options.len() > 0 && text_view(options[0].category) != Some(category) {
        lemma_option_place(options.drop_first(), category);
        assert forall|i: int| 0 <= i < option_place(options, category) implies text_view(
            (#[trigger] options[i]).category,
        ) != Some(category) by {
            if i > 0 {
                assert(options.drop_first()[i - 1] == options[i]);
            }
        }
    }
}

/// A menu is made of the first option of its category; there is none where no
/// option is of it.
pub proof fn first_option_of_a_category_is_shown(options: Seq<ConfigOption>, category: Seq<char>, i: int)
    requires
        0 <= i < options.len(),
        text_view(options[i].category) == Some(category),
        forall|k: int| 0 <= k < i ==> text_view((#[trigger] options[k]).category) != Some(category),
    ensures
        option_place(options, category) == i,
{
    lemma_option_place(options, category);
    if option_place(options, category) < i {
        assert(text_view(options[option_place(options, category)].category) != Some(category));
    }
}

/// The current value is named by the name of the first value that it equals,
/// and by itself where it equals none.
#[verifier::rlimit(40)]
#[verifier::spinoff_prover]
pub proof fn current_values_are_named(values: Seq<ConfigValue>, current: Seq<char>, i: int)
    ensures
        0 <= i < values.len() && values[i].value@ == current && (forall|k: int|
            0 <= k < i ==> (#[trigger] values[k]).value@ != current) ==> current_name(values, current)
            == values[i].name@,
        (forall|k: int| 0 <= k < values.len() ==> (#[trigger] values[k]).value@ != current)
            ==> current_name(values, current) == current,
    decreases values.len(),
{
    if values.len() > 0 {
        let rest = values.drop_first();
        current_values_are_named(rest, current, i - 1);
        if 0 <= i < values.len() && values[i].value@ == current && (forall|k: int|
            0 <= k < i ==> (#[trigger] values[k]).value@ != current) && i > 0 {
            assert(values[0].value@ != current);
            assert forall|k: int| 0 <= k < i - 1 implies (#[trigger] rest[k]).value@ != current by {
                assert(rest[k] == values[k + 1]);
            }
            assert(rest[i - 1] == values[i]);
        }
        if forall|k: int| 0 <= k < values.len() ==> (#[trigger] values[k]).value@ != current {
            assert(values[0].value@ != current);
            assert forall|k: int| 0 <= k < rest.len() implies (#[trigger] rest[k]).value@ != current by {
                assert(rest[k] == values[k + 1]);
            }
        }
    }
}

/// What is written in a menu names the current value, and the page and how many
/// there are where there is more than one.
#[verifier::rlimit(40)]
#[verifier::spinoff_prover]
pub proof fn placeholders_name_the_current_value(o: ConfigOption, page: nat)
    ensures
        begins(
            menu_placeholder(o, page),
            "Current: "@ + current_name(o.options@, o.current_value@),
        ),
        o.options@.len() > 25 ==> occurs(
            menu_placeholder(o, page),
            decimal(page + 1) + "/"@ + decimal(pages(o.options@.len())),
        ),
        o.options@.len() <= 25 ==> menu_placeholder(o, page) == "Current: "@ + current_name(
            o.options@,
            o.current_value@,
        ),
{
    let name = "Current: "@ + current_name(o.options@, o.current_value@);
    let t = menu_placeholder(o, page);
    let e = Seq::<char>::empty();
    let total = pages(o.options@.len());
    if total > 1 {
        let said = decimal(page + 1) + "/"@ + decimal(total);
        lemma_parts_stand(name + " (page "@, said, ")"@);
        assert((name + " (page "@) + said + ")"@ =~= t);
        lemma_parts_stand(name, t.skip(name.len() as int), e);
        assert(name + t.skip(name.len() as int) + e =~= t);
    } else {
        lemma_parts_stand(name, e, e);
        assert(name + e + e =~= t);
    }
}

/// Each command leads somewhere of its own: no two names lead to the same
/// place, but for those that lead nowhere.
pub proof fn commands_lead_to_places_of_their_own(a: Seq<char>, b: Seq<char>)
    requires
        command_route(a) != Route::Unknown,
        command_route(a) == command_route(b),
    ensures
        a == b,
{
}

/// Pages are asked for only of the two menus there are.
pub proof fn pages_are_of_known_menus(custom_id: Seq<char>)
    ensures
        page_request(custom_id) matches Some((category, page)) ==> (category == "model"@ || category
            == "agent"@) && page <= usize::MAX,
{
}

/// The menu of an option, its pages and the buttons for history lead to places of
/// their own, whatever option, page or message they are for.
#[verifier::rlimit(40)]
#[verifier::spinoff_prover]
pub proof fn components_lead_to_places_of_their_own(
    id: Seq<char>,
    category: Seq<char>,
    page: nat,
    mode: HistorySelectionMode,
    message: nat,
)
    ensures
        component_route("acp_config_"@ + id) == Route::ConfigSelect,
        component_route(page_id(category, page)) == Route::Pagination,
        component_route(history_id(HISTORY_BUTTON_PREFIX@, mode, message)) == Route::HistoryButton,
{
    reveal_strlit("acp_config_");
    reveal_strlit("acp_pg:");
    let a = "acp_config_"@ + id;
    let b = page_id(category, page);
    let c = history_id(HISTORY_BUTTON_PREFIX@, mode, message);
    assert(a.subrange(0, 11) =~= "acp_config_"@);
    assert(b.subrange(0, 7) =~= "acp_pg:"@);
    if begins(b, "acp_config_"@) {
        assert(b.subrange(0, 11)[4] == b[4]);
    }
    lemma_button_prefix();
    let p = HISTORY_BUTTON_PREFIX@;
    assert(c.subrange(0, p.len() as int) =~= p);
    if begins(c, "acp_config_"@) {
        assert(c.subrange(0, 11)[0] == p[0]);
    }
    if begins(c, "acp_pg:"@) {
        assert(c.subrange(0, 7)[0] == p[0]);
    }
}

proof fn lemma_button_prefix()
    ensures
        HISTORY_BUTTON_PREFIX@.len() > 0,
        HISTORY_BUTTON_PREFIX@[0] != 'a',
{
    reveal_strlit("ctxhist:");
}

/// What was chosen in the menu of an option is the first of the values given,
/// for that option. Nothing is chosen where no value is given.
pub proof fn choices_name_their_option(id: Seq<char>, values: Seq<String>, choice: Option<(String, String)>)
    requires
        is_choice_in("acp_config_"@ + id, values, choice),
    ensures
        choice is Some <==> id.len() > 0 && values.len() > 0,
        choice matches Some((i, v)) ==> i@ == id && v == values[0],
{
    let n = "acp_config_"@.len() as int;
    let c = "acp_config_"@ + id;
    assert(c.subrange(0, n) =~= "acp_config_"@);
    assert(c.skip(n) =~= id);
}

// ---------------------------------------------------------------------------
// Reminders
// ---------------------------------------------------------------------------

/// The targets of a reminder are the words of the text that are mentions, all
/// of them and in their order.
pub proof fn reminders_go_to_every_mention(text: Seq<char>, w: Seq<char>)
    ensures
        words(text).contains(w) && begins(w, "<@"@) && ends(w, ">"@) <==> mentions_in(text).contains(w),
        mentions_in(text).len() <= words(text).len(),
{
    let p = |x: Seq<char>| crate::commands::is_mention(x);
    let all = words(text);
    all.lemma_filter_len(p);
    if all.contains(w) && begins(w, "<@"@) && ends(w, ">"@) {
        let i = choose|i: int| 0 <= i < all.len() && all[i] == w;
        all.lemma_filter_contains(p, i);
    }
    if mentions_in(text).contains(w) {
        let k = choose|k: int| 0 <= k < mentions_in(text).len() && mentions_in(text)[k] == w;
        all.lemma_filter_pred(p, k);
        all.lemma_filter_contains_rev(p, w);
    }
}

/// A reminder is set only by people, and only with all its fields filled in.
pub proof fn reminders_need_every_field(
    by_bot: bool,
    targets: Seq<char>,
    message: Seq<char>,
    delay: Seq<char>,
)
    ensures
        remind_error(by_bot, targets, message, delay) is None <==> !by_bot && targets.len() > 0
            && message.len() > 0 && delay.len() > 0,
{
}

/// A reminder needs at least one mention and no more than allowed, and a person
/// who has fewer than five pending.
pub proof fn reminders_need_targets_and_room(
    targets: Seq<char>,
    max_targets: nat,
    pending: Seq<u64>,
    user: u64,
)
    ensures
        targets_error(targets, max_targets, pending, user) is None <==> 1 <= mentions_in(targets).len()
            <= max_targets && set_by(pending, user) < 5,
{
}

/// A person's reminders are counted one by one; those of others do not count.
pub proof fn reminders_are_counted_by_person(senders: Seq<u64>, more: Seq<u64>, user: u64, other: u64)
    ensures
        set_by(senders + more, user) == set_by(senders, user) + set_by(more, user),
        set_by(seq![user], user) == 1,
        other != user ==> set_by(seq![other], user) == 0,
        set_by(Seq::empty(), user) == 0,
    decreases more.len(),
{
    reveal_with_fuel(set_by, 2);
    assert(seq![user].drop_last() =~= Seq::<u64>::empty());
    assert(seq![other].drop_last() =~= Seq::<u64>::empty());
    if more.len() == 0 {
        assert(senders + more =~= senders);
    } else {
        reminders_are_counted_by_person(senders, more.drop_last(), user, other);
        assert((senders + more).drop_last() =~= senders + more.drop_last());
    }
}

/// A reminder that is pending is new exactly once: not where it is known, and
/// not where the same one came before in the row.
pub proof fn reminders_are_new_once(pending: Seq<Seq<char>>, known: Set<Seq<char>>, i: int, j: int)
    requires
        0 <= i < j < pending.len(),
    ensures
        pending[i] == pending[j] ==> !is_new(pending, known, j),
        known.contains(pending[j]) ==> !is_new(pending, known, j),
        !known.contains(pending[0]) ==> is_new(pending, known, 0),
{
    if pending[i] == pending[j] {
        assert(pending[i] == pending[j]);
    }
}

/// Every reminder that was not known is claimed once, at the first of its places;
/// those that were known are not claimed. Claiming again claims nothing.
#[verifier::rlimit(40)]
#[verifier::spinoff_prover]
pub proof fn reminders_are_claimed_once(
    pending: Seq<Seq<char>>,
    known: Set<Seq<char>>,
    first: Seq<usize>,
    after: Set<Seq<char>>,
    second: Seq<usize>,
    last: Set<Seq<char>>,
    i: int,
    j: int,
)
    requires
        are_claimed(pending, known, first, after),
        are_claimed(pending, after, second, last),
        pending.len() <= usize::MAX,
    ensures
        second.len() == 0,
        0 <= i < first.len() ==> first[i] < pending.len() && !known.contains(pending[first[i] as int])
            && after.contains(pending[first[i] as int]),
        0 <= i < j < first.len() ==> pending[first[i] as int] != pending[first[j] as int],
        0 <= i < pending.len() && !known.contains(pending[i]) ==> exists|k: int|
            0 <= k < first.len() && pending[#[trigger] first[k] as int] == pending[i],
        forall|r: Seq<char>| #[trigger] known.contains(r) ==> after.contains(r),
{
    if second.len() > 0 {
        let at = second[0] as int;
        assert(is_new(pending, after, at));
        assert(pending.contains(pending[at]));
        assert(after.contains(pending[at]));
    }
    if 0 <= i < first.len() {
        assert(is_new(pending, known, first[i] as int));
        assert(pending.contains(pending[first[i] as int]));
    }
    if 0 <= i < j < first.len() {
        assert(first[i] < first[j]);
        assert(is_new(pending, known, first[j] as int));
    }
    if 0 <= i < pending.len() && !known.contains(pending[i]) {
        let k = lemma_first_place(pending, i);
        assert(is_new(pending, known, k));
        assert(first.contains(k as usize));
        let at = choose|a: int| 0 <= a < first.len() && first[a] == k as usize;
        assert(pending[first[at] as int] == pending[i]);
    }
}

proof fn lemma_first_place(row: Seq<Seq<char>>, i: int) -> (k: int)
    requires
        0 <= i < row.len(),
    ensures
        0 <= k <= i,
        row[k] == row[i],
        forall|j: int| 0 <= j < k ==> #[trigger] row[j] != row[k],
    decreases i,
{
    if exists|j: int| 0 <= j < i && #[trigger] row[j] == row[i] {
        let j = choose|j: int| 0 <= j < i && #[trigger] row[j] == row[i];
        lemma_first_place(row, j)
    } else {
        i
    }
}

/// A choice is told of by the name of the value in the option that it was made
/// in, and by the value itself where there is no such option.
pub proof fn choices_are_named(options: Seq<ConfigOption>, id: Seq<char>, value: Seq<char>, i: int)
    ensures
        0 <= i < options.len() && options[i].id@ == id && (forall|k: int|
            0 <= k < i ==> (#[trigger] options[k]).id@ != id) ==> chosen_name(options, id, value)
            == current_name(options[i].options@, value),
        (forall|k: int| 0 <= k < options.len() ==> (#[trigger] options[k]).id@ != id) ==> chosen_name(
            options,
            id,
            value,
        ) == value,
{
    lemma_id_place(options, id);
    let at = id_place(options, id);
    if at < options.len() {
        assert(options[at].id@ == id);
        if 0 <= i < at {
            assert(options[i].id@ != id);
        }
    }
}

proof fn lemma_id_place(options: Seq<ConfigOption>, id: Seq<char>)
    ensures
        0 <= id_place(options, id) <= options.len(),
        forall|i: int| 0 <= i < id_place(options, id) ==> (#[trigger] options[i]).id@ != id,
        id_place(options, id) < options.len() ==> options[id_place(options, id)].id@ == id,
    decreases options.len(),
{
    if options.len() > 0 && options[0].id@ != id {
        lemma_id_place(options.drop_first(), id);
        assert forall|i: int| 0 <= i < id_place(options, id) implies (#[trigger] options[i]).id@ != id by {
            if i > 0 {
                assert(options.drop_first()[i - 1] == options[i]);
            }
        }
    }
}

} // verus!
