//! The Discord commands: which one an interaction is, the menus that choose an
//! agent's options, and what each command replies.

use vstd::prelude::*;
use serde_json::Value;
use crate::adapter::copy_text;
use crate::config::text_view;
use crate::json::{
    as_array, field, get, items_or_none, json_of, text_field, text_in, text_or_empty,
    text_or_nothing, Json,
};
use crate::table::Table;
use crate::text::{
    append_decimal, begins, decimal, ends, ends_with, join, joined, lemma_views_push, once,
    parse_usize, same, split_once, split_whitespace, starts_with, strip_prefix, unsigned, views,
    words,
};

verus! {

// ---------------------------------------------------------------------------
// Which command it is
// ---------------------------------------------------------------------------

pub const READ_CONTEXT_COMMAND_NAME: &'static str = "Read Context";

pub const HISTORY_BUTTON_PREFIX: &'static str = "ctxhist:";

pub const HISTORY_MODAL_PREFIX: &'static str = "ctxmodal:";

/// What an interaction asks for.
#[derive(Debug, Clone, Copy, PartialEq, Eq, Structural)]
pub enum Route {
    Models,
    Agents,
    Cancel,
    CancelAll,
    Reset,
    Remind,
    ExportThread,
    ReadContext,
    ConfigSelect,
    Pagination,
    HistoryButton,
    HistoryModal,
    Unknown,
}

/// The command of a name.
pub open spec fn command_route(name: Seq<char>) -> Route {
    if name == "models"@ {
        Route::Models
    } else if name == "agents"@ {
        Route::Agents
    } else if name == "cancel"@ {
        Route::Cancel
    } else if name == "cancel-all"@ {
        Route::CancelAll
    } else if name == "reset"@ {
        Route::Reset
    } else if name == "remind"@ {
        Route::Remind
    } else if name == "export-thread"@ {
        Route::ExportThread
    } else if name == READ_CONTEXT_COMMAND_NAME@ {
        Route::ReadContext
    } else {
        Route::Unknown
    }
}

pub fn route_command(name: &str) -> (r: Route)
    ensures
        r == command_route(name@),
{
    if same(name, "models") {
        Route::Models
    } else if same(name, "agents") {
        Route::Agents
    } else if same(name, "cancel") {
        Route::Cancel
    } else if same(name, "cancel-all") {
        Route::CancelAll
    } else if same(name, "reset") {
        Route::Reset
    } else if same(name, "remind") {
        Route::Remind
    } else if same(name, "export-thread") {
        Route::ExportThread
    } else if same(name, READ_CONTEXT_COMMAND_NAME) {
        Route::ReadContext
    } else {
        Route::Unknown
    }
}

/// Where the use of a component leads.
pub open spec fn component_route(custom_id: Seq<char>) -> Route {
    if begins(custom_id, "acp_config_"@) {
        Route::ConfigSelect
    } else if begins(custom_id, "acp_pg:"@) {
        Route::Pagination
    } else if begins(custom_id, HISTORY_BUTTON_PREFIX@) {
        Route::HistoryButton
    } else {
        Route::Unknown
    }
}

/// What a button or menu with a custom id is for.
pub fn route_component(custom_id: &str) -> (r: Route)
    ensures
        r == component_route(custom_id@),
{
    if starts_with(custom_id, "acp_config_") {
        Route::ConfigSelect
    } else if starts_with(custom_id, "acp_pg:") {
        Route::Pagination
    } else if starts_with(custom_id, HISTORY_BUTTON_PREFIX) {
        Route::HistoryButton
    } else {
        Route::Unknown
    }
}

/// What a form with a custom id is for.
pub fn route_modal(custom_id: &str) -> (r: Route)
    ensures
        r == (if begins(custom_id@, HISTORY_MODAL_PREFIX@) {
            Route::HistoryModal
        } else {
            Route::Unknown
        }),
{
    if starts_with(custom_id, HISTORY_MODAL_PREFIX) {
        Route::HistoryModal
    } else {
        Route::Unknown
    }
}

// ---------------------------------------------------------------------------
// Menus
// ---------------------------------------------------------------------------

/// The most entries of a menu.
pub const SELECT_MENU_PAGE_SIZE: usize = 25;

/// One of the values of an option.
#[derive(Debug, Clone)]
pub struct ConfigValue {
    pub value: String,
    pub name: String,
    pub description: Option<String>,
}

/// An option of the agent.
#[derive(Debug, Clone)]
pub struct ConfigOption {
    pub id: String,
    pub category: Option<String>,
    pub current_value: String,
    pub options: Vec<ConfigValue>,
}

/// Whether a value is the one that the agent describes.
pub open spec fn is_value(v: ConfigValue, j: Json) -> bool {
    &&& v.value@ == text_or_empty(field(j, "value"@))
    &&& v.name@ == text_or_empty(field(j, "name"@))
    &&& text_view(v.description) == text_in(field(j, "description"@))
}

/// Whether values are those that the agent lists.
pub open spec fn are_values(values: Seq<ConfigValue>, list: Seq<Json>) -> bool {
    values.len() == list.len() && forall|i: int|
        0 <= i < values.len() ==> is_value(#[trigger] values[i], list[i])
}

/// Whether an option is the one that the agent describes.
pub open spec fn is_option(o: ConfigOption, j: Json) -> bool {
    &&& o.id@ == text_or_empty(field(j, "id"@))
    &&& text_view(o.category) == text_in(field(j, "category"@))
    &&& o.current_value@ == text_or_empty(field(j, "currentValue"@))
    &&& are_values(o.options@, items_or_none(field(j, "options"@)))
}

/// Whether options are those that the agent lists.
pub open spec fn are_options(options: Seq<ConfigOption>, list: Seq<Json>) -> bool {
    options.len() == list.len() && forall|i: int|
        0 <= i < options.len() ==> is_option(#[trigger] options[i], list[i])
}

fn config_values(list: &Vec<Value>) -> (r: Vec<ConfigValue>)
    ensures
        are_values(r@, list@.map_values(|x: Value| json_of(x))),
{
    let ghost wanted = list@.map_values(|x: Value| json_of(x));
    let mut values: Vec<ConfigValue> = Vec::new();
    let mut i: usize = 0;
    while i < list.len()
        invariant
            i <= list@.len(),
            wanted == list@.map_values(|x: Value| json_of(x)),
            values@.len() == i,
            forall|k: int| 0 <= k < i ==> is_value(#[trigger] values@[k], wanted[k]),
        decreases list@.len() - i,
    {
        let v = &list[i];
        values.push(
            ConfigValue {
                value: text_or_nothing(v, "value"),
                name: text_or_nothing(v, "name"),
                description: text_field(v, "description"),
            },
        );
        i += 1;
    }
    values
}

fn config_option(o: &Value) -> (r: ConfigOption)
    ensures
        is_option(r, json_of(*o)),
{
    let list = match get(o, "options") {
        Some(x) => as_array(x),
        None => None,
    };
    let options = match list {
        Some(list) => config_values(list),
        None => Vec::new(),
    };
    ConfigOption {
        id: text_or_nothing(o, "id"),
        category: text_field(o, "category"),
        current_value: text_or_nothing(o, "currentValue"),
        options,
    }
}

/// The options that the agent lists; none where it hands no list.
pub fn config_options(list: &Value) -> (r: Vec<ConfigOption>)
    ensures
        are_options(r@, items_or_none(Some(json_of(*list)))),
{
    let mut options: Vec<ConfigOption> = Vec::new();
    if let Some(items) = as_array(list) {
        let ghost wanted = items@.map_values(|x: Value| json_of(x));
        let mut i: usize = 0;
        while i < items.len()
            invariant
                i <= items@.len(),
                wanted == items@.map_values(|x: Value| json_of(x)),
                options@.len() == i,
                forall|k: int| 0 <= k < i ==> is_option(#[trigger] options@[k], wanted[k]),
            decreases items@.len() - i,
        {
            options.push(config_option(&items[i]));
            i += 1;
        }
    }
    options
}

/// An entry of a menu.
#[derive(Debug)]
pub struct MenuItem {
    pub label: String,
    pub value: String,
    pub description: Option<String>,
    pub selected: bool,
}

/// An entry as the contracts speak of it.
pub struct ItemView {
    pub label: Seq<char>,
    pub value: Seq<char>,
    pub description: Option<Seq<char>>,
    pub selected: bool,
}

impl View for MenuItem {
    type V = ItemView;

    open spec fn view(&self) -> ItemView {
        ItemView {
            label: self.label@,
            value: self.value@,
            description: text_view(self.description),
            selected: self.selected,
        }
    }
}

/// The entries of a row.
pub open spec fn item_views(items: Seq<MenuItem>) -> Seq<ItemView> {
    items.map_values(|i: MenuItem| i@)
}

/// A menu.
#[derive(Debug)]
pub struct SelectMenu {
    pub custom_id: String,
    pub placeholder: String,
    pub items: Vec<MenuItem>,
}

/// A button.
#[derive(Debug)]
pub struct Button {
    pub custom_id: String,
    pub label: String,
    pub disabled: bool,
}

/// A menu with the buttons that turn its pages.
#[derive(Debug)]
pub struct Components {
    pub menu: SelectMenu,
    pub buttons: Option<Vec<Button>>,
}

/// The place of the first option of a category, or the number of options.
pub open spec fn option_place(options: Seq<ConfigOption>, category: Seq<char>) -> int
    decreases options.len(),
{
    if options.len() == 0 || text_view(options[0].category) == Some(category) {
        0
    } else {
        1 + option_place(options.drop_first(), category)
    }
}

proof fn lemma_option_place(options: Seq<ConfigOption>, category: Seq<char>)
    ensures
        0 <= option_place(options, category) <= options.len(),
        forall|i: int|
            0 <= i < option_place(options, category) ==> text_view((#[trigger] options[i]).category)
                != Some(category),
        option_place(options, category) < options.len() ==> text_view(
            options[option_place(options, category)].category,
        ) == Some(category),
    decreases options.len(),
{
    if options.len() > 0 && text_view(options[0].category) != Some(category) {
        lemma_option_place(options.drop_first(), category);
        assert forall|i: int| 0 <= i < option_place(options, category) implies text_view(
            (#[trigger] options[i]).category,
        ) != Some(category) by {
            if i > 0 {
                assert(options[i] == options.drop_first()[i - 1]);
            }
        }
    }
}

fn find_option(options: &Vec<ConfigOption>, category: &str) -> (r: Option<usize>)
    ensures
        match r {
            Some(i) => i < options@.len() && i == option_place(options@, category@),
            None => option_place(options@, category@) == options@.len(),
        },
{
    proof {
        lemma_option_place(options@, category@);
    }
    let mut i: usize = 0;
    while i < options.len()
        invariant
            i <= options@.len(),
            forall|k: int|
                0 <= k < i ==> text_view((#[trigger] options@[k]).category) != Some(category@),
            0 <= option_place(options@, category@) <= options@.len(),
            forall|k: int|
                0 <= k < option_place(options@, category@) ==> text_view(
                    (#[trigger] options@[k]).category,
                ) != Some(category@),
            option_place(options@, category@) < options@.len() ==> text_view(
                options@[option_place(options@, category@)].category,
            ) == Some(category@),
        decreases options@.len() - i,
    {
        if let Some(c) = &options[i].category {
            if same(c.as_str(), category) {
                assert(option_place(options@, category@) == i);
                return Some(i);
            }
        }
        i += 1;
    }
    None
}

/// The entry for a value.
pub open spec fn item_of(v: ConfigValue, current: Seq<char>) -> ItemView {
    ItemView {
        label: v.name@,
        value: v.value@,
        description: text_view(v.description),
        selected: v.value@ == current,
    }
}

/// Whether a value is current, or is not.
pub open spec fn picks(current: Seq<char>, is_current: bool) -> spec_fn(ConfigValue) -> bool {
    |v: ConfigValue| (v.value@ == current) == is_current
}

/// The entries for the values that are current, or for those that are not.
pub open spec fn items_where(values: Seq<ConfigValue>, current: Seq<char>, is_current: bool) -> Seq<
    ItemView,
> {
    values.filter(picks(current, is_current)).map_values(
        |v: ConfigValue| item_of(v, current),
    )
}

/// All entries of an option: the current value first, then the others in their order.
pub open spec fn all_items(o: ConfigOption) -> Seq<ItemView> {
    items_where(o.options@, o.current_value@, true) + items_where(
        o.options@,
        o.current_value@,
        false,
    )
}

/// How many pages a number of entries takes.
pub open spec fn pages(n: nat) -> nat {
    ((n + SELECT_MENU_PAGE_SIZE as nat - 1) / SELECT_MENU_PAGE_SIZE as int) as nat
}

/// The entries of a page.
pub open spec fn page_items(o: ConfigOption, page: nat) -> Seq<ItemView> {
    let all = all_items(o);
    let start = page * SELECT_MENU_PAGE_SIZE;
    if start >= all.len() {
        Seq::empty()
    } else if start + SELECT_MENU_PAGE_SIZE >= all.len() {
        all.skip(start as int)
    } else {
        all.subrange(start as int, start + SELECT_MENU_PAGE_SIZE)
    }
}

/// The name of the current value, or the value itself where it is not listed:
/// of the first `k` values.
pub open spec fn current_name(values: Seq<ConfigValue>, current: Seq<char>) -> Seq<char>
    decreases values.len(),
{
    if values.len() == 0 {
        current
    } else if values[0].value@ == current {
        values[0].name@
    } else {
        current_name(values.drop_first(), current)
    }
}

/// The line above a menu that is not open.
pub open spec fn menu_placeholder(o: ConfigOption, page: nat) -> Seq<char> {
    let name = current_name(o.options@, o.current_value@);
    let total = pages(o.options@.len());
    if total > 1 {
        "Current: "@ + name + " (page "@ + decimal(page + 1) + "/"@ + decimal(total) + ")"@
    } else {
        "Current: "@ + name
    }
}

fn push_items(
    out: &mut Vec<MenuItem>,
    values: &Vec<ConfigValue>,
    current: &str,
    is_current: bool,
)
    ensures
        item_views(final(out)@) == item_views(old(out)@) + items_where(
            values@,
            current@,
            is_current,
        ),
{
    let ghost start = item_views(out@);
    let ghost pick = picks(current@, is_current);
    let ghost make = |v: ConfigValue| item_of(v, current@);
    let mut i: usize = 0;
    proof {
        reveal(Seq::filter);
    }
    assert(values@.take(0).filter(pick).map_values(make) =~= Seq::empty());
    assert(item_views(out@) =~= start + values@.take(0).filter(pick).map_values(make));
    while i < values.len()
        invariant
            i <= values@.len(),
            pick == picks(current@, is_current),
            make == (|v: ConfigValue| item_of(v, current@)),
            item_views(out@) == start + values@.take(i as int).filter(pick).map_values(make),
        decreases values@.len() - i,
    {
        let v = &values[i];
        let ghost before = values@.take(i as int).filter(pick);
        let ghost shown = item_views(out@);
        proof {
            reveal(Seq::filter);
            assert(values@.take(i + 1).drop_last() =~= values@.take(i as int));
            assert(values@.take(i + 1).last() == values@[i as int]);
        }
        let here = same(v.value.as_str(), current);
        if here == is_current {
            let item = MenuItem {
                label: v.name.clone(),
                value: v.value.clone(),
                description: copy_text(&v.description),
                selected: here,
            };
            out.push(item);
            proof {
                assert(item_views(out@) =~= shown.push(item_of(*v, current@)));
                assert(before.push(*v).map_values(make) =~= before.map_values(make).push(
                    item_of(*v, current@),
                ));
                assert(start + before.map_values(make).push(item_of(*v, current@)) =~= shown.push(
                    item_of(*v, current@),
                ));
            }
        }
        i += 1;
    }
    assert(values@.take(values@.len() as int) =~= values@);
}

/// As many entries are listed as there are values.
proof fn lemma_items_len(values: Seq<ConfigValue>, current: Seq<char>)
    ensures
        items_where(values, current, true).len() + items_where(values, current, false).len()
            == values.len(),
    decreases values.len(),
{
    reveal(Seq::filter);
    if values.len() > 0 {
        lemma_items_len(values.drop_last(), current);
    }
}

fn name_of_current(values: &Vec<ConfigValue>, current: &str) -> (r: String)
    ensures
        r@ == current_name(values@, current@),
{
    let mut i: usize = 0;
    assert(values@.skip(0) =~= values@);
    while i < values.len()
        invariant
            i <= values@.len(),
            current_name(values@, current@) == current_name(values@.skip(i as int), current@),
        decreases values@.len() - i,
    {
        assert(values@.skip(i as int)[0] == values@[i as int]);
        if same(values[i].value.as_str(), current) {
            return values[i].name.clone();
        }
        assert(values@.skip(i as int).drop_first() =~= values@.skip(i + 1));
        i += 1;
    }
    assert(values@.skip(i as int).len() == 0);
    current.to_owned()
}

fn count_pages(n: usize) -> (r: usize)
    ensures
        r == pages(n as nat),
{
    if n % SELECT_MENU_PAGE_SIZE == 0 {
        n / SELECT_MENU_PAGE_SIZE
    } else {
        n / SELECT_MENU_PAGE_SIZE + 1
    }
}

/// Builds the menu of a category's option, one page of it. There is none where no
/// option is of the category, and none where the page is empty.
pub fn build_config_select(options: &Vec<ConfigOption>, category: &str, page: usize) -> (r: Option<
    SelectMenu,
>)
    requires
        page * SELECT_MENU_PAGE_SIZE <= usize::MAX,
    ensures
        ({
            let at = option_place(options@, category@);
            match r {
                Some(m) => {
                    &&& at < options@.len()
                    &&& page_items(options@[at], page as nat).len() > 0
                    &&& item_views(m.items@) == page_items(options@[at], page as nat)
                    &&& m.custom_id@ == "acp_config_"@ + options@[at].id@
                    &&& m.placeholder@ == menu_placeholder(options@[at], page as nat)
                },
                None => at < options@.len() ==> page_items(options@[at], page as nat).len() == 0,
            }
        }),
{
    let at = match find_option(options, category) {
        Some(i) => i,
        None => return None,
    };
    let opt = &options[at];
    let current = opt.current_value.as_str();
    let mut items: Vec<MenuItem> = Vec::new();
    assert(item_views(items@) =~= Seq::empty());
    push_items(&mut items, &opt.options, current, true);
    assert(item_views(items@) =~= items_where(opt.options@, current@, true));
    push_items(&mut items, &opt.options, current, false);
    let ghost all = all_items(*opt);
    proof {
        lemma_items_len(opt.options@, current@);
    }
    assert(item_views(items@) == all);
    assert(items@.len() == all.len());
    let start = page * SELECT_MENU_PAGE_SIZE;
    if start >= items.len() {
        return None;
    }
    let mut shown = items.split_off(start);
    assert(item_views(shown@) =~= all.skip(start as int));
    shown.truncate(SELECT_MENU_PAGE_SIZE);
    proof {
        if start + SELECT_MENU_PAGE_SIZE < all.len() {
            assert(item_views(shown@) =~= all.subrange(
                start as int,
                start + SELECT_MENU_PAGE_SIZE,
            ));
        } else {
            assert(item_views(shown@) =~= all.skip(start as int));
        }
    }
    let total = count_pages(opt.options.len());
    let mut placeholder = "Current: ".to_owned();
    placeholder.append(name_of_current(&opt.options, current).as_str());
    if total > 1 {
        placeholder.append(" (page ");
        append_decimal(&mut placeholder, page as u64 + 1);
        placeholder.append("/");
        append_decimal(&mut placeholder, total as u64);
        placeholder.append(")");
    }
    let mut custom_id = "acp_config_".to_owned();
    custom_id.append(opt.id.as_str());
    Some(SelectMenu { custom_id, placeholder, items: shown })
}

/// The custom id of a button that turns to a page.
pub open spec fn page_id(category: Seq<char>, page: nat) -> Seq<char> {
    "acp_pg:"@ + category + ":"@ + decimal(page)
}

fn make_page_id(category: &str, page: usize) -> (r: String)
    ensures
        r@ == page_id(category@, page as nat),
{
    let mut out = "acp_pg:".to_owned();
    out.append(category);
    out.append(":");
    append_decimal(&mut out, page as u64);
    out
}

/// Whether buttons are those that turn the pages of a category: back, where one is,
/// and on.
pub open spec fn are_page_buttons(b: Seq<Button>, category: Seq<char>, page: nat, total: nat) -> bool {
    &&& b.len() == 3
    &&& b[0].custom_id@ == page_id(
        category,
        if page == 0 {
            0
        } else {
            (page - 1) as nat
        },
    )
    &&& b[0].label@ == "◀"@
    &&& b[0].disabled == (page == 0)
    &&& b[1].custom_id@ == "acp_pg_noop"@
    &&& b[1].label@ == decimal(page + 1) + "/"@ + decimal(total)
    &&& b[1].disabled
    &&& b[2].custom_id@ == page_id(category, page + 1)
    &&& b[2].label@ == "▶"@
    &&& b[2].disabled == (page + 1 >= total)
}

/// Builds the buttons that turn pages: back, where one is, and on. There are none
/// for a single page.
pub fn build_pagination_buttons(category: &str, page: usize, total_pages: usize) -> (r: Option<
    Vec<Button>,
>)
    requires
        page < usize::MAX,
    ensures
        match r {
            None => total_pages <= 1,
            Some(b) => total_pages > 1 && are_page_buttons(
                b@,
                category@,
                page as nat,
                total_pages as nat,
            ),
        },
{
    if total_pages <= 1 {
        return None;
    }
    let back = if page == 0 {
        0
    } else {
        page - 1
    };
    let prev = Button {
        custom_id: make_page_id(category, back),
        label: "◀".to_owned(),
        disabled: page == 0,
    };
    let next = Button {
        custom_id: make_page_id(category, page + 1),
        label: "▶".to_owned(),
        disabled: page + 1 >= total_pages,
    };
    let mut label = crate::text::decimal_string(page as u64 + 1);
    label.append("/");
    append_decimal(&mut label, total_pages as u64);
    let indicator = Button { custom_id: "acp_pg_noop".to_owned(), label, disabled: true };
    Some(vec![prev, indicator, next])
}

/// The page that is shown: the one asked for, or the last one if there are not so
/// many; the first, where the current value stands, if none is asked for.
pub open spec fn shown_page(page: Option<usize>, total: nat) -> nat {
    match page {
        Some(p) => if total == 0 {
            0
        } else if p >= total {
            (total - 1) as nat
        } else {
            p as nat
        },
        None => 0,
    }
}

/// Builds a menu and its buttons for a category.
pub fn build_config_components(
    options: &Vec<ConfigOption>,
    category: &str,
    page: Option<usize>,
) -> (r: Option<Components>)
    ensures
        ({
            let at = option_place(options@, category@);
            let total = pages(options@[at].options@.len());
            let shown = shown_page(page, total);
            match r {
                Some(c) => {
                    &&& at < options@.len()
                    &&& options@[at].options@.len() > 0
                    &&& item_views(c.menu.items@) == page_items(options@[at], shown)
                    &&& c.menu.custom_id@ == "acp_config_"@ + options@[at].id@
                    &&& c.menu.placeholder@ == menu_placeholder(options@[at], shown)
                    &&& c.buttons is Some <==> total > 1
                    &&& c.buttons matches Some(b) ==> are_page_buttons(
                        b@,
                        category@,
                        shown,
                        total,
                    )
                },
                None => at < options@.len() ==> options@[at].options@.len() == 0,
            }
        }),
{
    let at = match find_option(options, category) {
        Some(i) => i,
        None => return None,
    };
    let n = options[at].options.len();
    let total = count_pages(n);
    let shown: usize = match page {
        Some(p) => if total == 0 {
            0
        } else if p >= total {
            total - 1
        } else {
            p
        },
        None => 0,
    };
    proof {
        lemma_items_len(options@[at as int].options@, options@[at as int].current_value@);
        assert(shown * SELECT_MENU_PAGE_SIZE <= n) by (nonlinear_arith)
            requires
                total == (n + SELECT_MENU_PAGE_SIZE - 1) / SELECT_MENU_PAGE_SIZE as int,
                shown < total || (shown == 0 && total == 0) || shown == 0,
                SELECT_MENU_PAGE_SIZE == 25,
        ;
        if n > 0 {
            assert(shown * SELECT_MENU_PAGE_SIZE < n) by (nonlinear_arith)
                requires
                    n > 0,
                    total == (n + SELECT_MENU_PAGE_SIZE - 1) / SELECT_MENU_PAGE_SIZE as int,
                    shown < total || shown == 0,
                    SELECT_MENU_PAGE_SIZE == 25,
            ;
        }
    }
    let menu = match build_config_select(options, category, shown) {
        Some(m) => m,
        None => return None,
    };
    let buttons = build_pagination_buttons(category, shown, total);
    Some(Components { menu, buttons })
}

/// The first page shows the current value, selected, wherever it is among the values.
pub proof fn first_page_shows_current(o: ConfigOption, i: int)
    requires
        0 <= i < o.options@.len(),
        o.options@[i].value@ == o.current_value@,
    ensures
        page_items(o, 0).len() > 0,
        page_items(o, 0)[0].selected,
        page_items(o, 0)[0].value == o.current_value@,
{
    let current = o.current_value@;
    let pick = picks(current, true);
    lemma_items_len(o.options@, current);
    let kept = o.options@.filter(pick);
    assert(kept.len() > 0 && kept[0].value@ == current) by {
        broadcast use vstd::seq_lib::group_filter_ensures;

        assert(pick(o.options@[i]));
        assert(kept.contains(o.options@[i]));
        assert(pick(kept[0]));
    }
    let all = all_items(o);
    assert(all[0] == item_of(kept[0], current));
}

// ---------------------------------------------------------------------------
// What commands reply
// ---------------------------------------------------------------------------

/// The line above a menu, or what is said where there is none.
pub fn config_command_reply(label: &str, has_menu: bool) -> (r: String)
    ensures
        r@ == (if has_menu {
            "🔧 Select a "@ + label@ + ":"@
        } else {
            "⚠️ No "@ + label@
                + " options available. Start a conversation first by @mentioning the bot."@
        }),
{
    if has_menu {
        let mut out = "🔧 Select a ".to_owned();
        out.append(label);
        out.append(":");
        out
    } else {
        let mut out = "⚠️ No ".to_owned();
        out.append(label);
        out.append(" options available. Start a conversation first by @mentioning the bot.");
        out
    }
}

/// The same for a menu whose page is turned.
pub fn pagination_reply(category: &str, has_menu: bool) -> (r: String)
    ensures
        r@ == (if has_menu {
            "🔧 Select a "@ + category@ + ":"@
        } else {
            "⚠️ No "@ + category@ + " options available."@
        }),
{
    if has_menu {
        let mut out = "🔧 Select a ".to_owned();
        out.append(category);
        out.append(":");
        out
    } else {
        let mut out = "⚠️ No ".to_owned();
        out.append(category);
        out.append(" options available.");
        out
    }
}

/// What a page-turning button asks for: a category that there is, and a page.
pub open spec fn page_request(custom_id: Seq<char>) -> Option<(Seq<char>, nat)> {
    match once(custom_id, ':') {
        Some((_, rest)) => match once(rest, ':') {
            Some((category, page)) => match unsigned(page, usize::MAX as nat) {
                Some(p) => if category == "model"@ || category == "agent"@ {
                    Some((category, p))
                } else {
                    None
                },
                None => None,
            },
            None => None,
        },
        None => None,
    }
}

pub fn parse_page_request(custom_id: &str) -> (r: Option<(String, usize)>)
    ensures
        match r {
            Some((c, p)) => page_request(custom_id@) == Some((c@, p as nat)),
            None => page_request(custom_id@) is None,
        },
{
    let rest = match split_once(custom_id, ':') {
        Some((_, rest)) => rest,
        None => return None,
    };
    let (category, page) = match split_once(rest.as_str(), ':') {
        Some(x) => x,
        None => return None,
    };
    let p = match parse_usize(page.as_str()) {
        Some(p) => p,
        None => return None,
    };
    if same(category.as_str(), "model") || same(category.as_str(), "agent") {
        Some((category, p))
    } else {
        None
    }
}

/// A button that turns a page asks for that page.
pub proof fn page_buttons_read_back(page: nat)
    requires
        page <= usize::MAX,
    ensures
        page_request(page_id("model"@, page)) == Some(("model"@, page)),
        page_request(page_id("agent"@, page)) == Some(("agent"@, page)),
{
    reveal_strlit("acp_pg:");
    reveal_strlit(":");
    reveal_strlit("model");
    reveal_strlit("agent");
    crate::text::decimal_reads_back(page, usize::MAX as nat);
    lemma_page_request("model"@, page);
    lemma_page_request("agent"@, page);
}

proof fn lemma_page_request(category: Seq<char>, page: nat)
    requires
        page <= usize::MAX,
        unsigned(decimal(page), usize::MAX as nat) == Some(page),
        forall|i: int| 0 <= i < category.len() ==> category[i] != ':',
        category == "model"@ || category == "agent"@,
    ensures
        page_request(page_id(category, page)) == Some((category, page)),
{
    reveal_strlit("acp_pg:");
    reveal_strlit(":");
    let id = page_id(category, page);
    crate::text::lemma_first_of(id, ':');
    assert(id[6] == ':');
    assert(crate::text::first_of(id, ':') == 6) by {
        assert forall|i: int| 0 <= i < 6 implies id[i] != ':' by {
            assert(id[i] == "acp_pg:"@[i]);
        }
    }
    let rest = id.skip(7);
    assert(rest =~= category + ":"@ + decimal(page));
    crate::text::lemma_first_of(rest, ':');
    let n = category.len() as int;
    assert(rest[n] == ':');
    assert(crate::text::first_of(rest, ':') == n) by {
        assert forall|i: int| 0 <= i < n implies rest[i] != ':' by {
            assert(rest[i] == category[i]);
        }
    }
    assert(rest.take(n) =~= category);
    assert(rest.skip(n + 1) =~= decimal(page));
}

/// What cancelling replies.
pub fn cancel_reply(result: &Result<(), String>) -> (r: String)
    ensures
        r@ == (match *result {
            Ok(_) => "🛑 Cancel signal sent."@,
            Err(e) => "⚠️ "@ + e@,
        }),
{
    match result {
        Ok(_) => "🛑 Cancel signal sent.".to_owned(),
        Err(e) => {
            let mut out = "⚠️ ".to_owned();
            out.append(e.as_str());
            out
        },
    }
}

/// What cancelling everything replies, from whether there was a session and how
/// many messages were dropped.
pub fn cancel_all_reply(cancelled: bool, dropped: usize) -> (r: String)
    ensures
        r@ == (if cancelled {
            if dropped == 0 {
                "🛑 Cancel signal sent."@
            } else {
                "🛑 Cancel signal sent. Buffered messages cleared."@
            }
        } else if dropped == 0 {
            "⚠️ Nothing to cancel — no active session and no buffered messages."@
        } else {
            "🛑 Buffered messages cleared. No active session to cancel."@
        }),
{
    if cancelled {
        if dropped == 0 {
            "🛑 Cancel signal sent.".to_owned()
        } else {
            "🛑 Cancel signal sent. Buffered messages cleared.".to_owned()
        }
    } else if dropped == 0 {
        "⚠️ Nothing to cancel — no active session and no buffered messages.".to_owned()
    } else {
        "🛑 Buffered messages cleared. No active session to cancel.".to_owned()
    }
}

/// What a reset replies, from whether there was a session and how many messages
/// were dropped.
pub fn reset_reply(was_reset: bool, dropped: usize) -> (r: String)
    ensures
        r@ == (if was_reset {
            if dropped > 0 {
                "🔄 Session reset. Dropped "@ + decimal(dropped as nat)
                    + " buffered message(s). Start a new conversation!"@
            } else {
                "🔄 Session reset. Start a new conversation!"@
            }
        } else if dropped > 0 {
            "🔄 Dropped "@ + decimal(dropped as nat)
                + " buffered message(s). No active session to reset."@
        } else {
            "⚠️ No active session to reset. Start a conversation first by @mentioning the bot."@
        }),
{
    if was_reset {
        if dropped > 0 {
            let mut out = "🔄 Session reset. Dropped ".to_owned();
            append_decimal(&mut out, dropped as u64);
            out.append(" buffered message(s). Start a new conversation!");
            out
        } else {
            "🔄 Session reset. Start a new conversation!".to_owned()
        }
    } else if dropped > 0 {
        let mut out = "🔄 Dropped ".to_owned();
        append_decimal(&mut out, dropped as u64);
        out.append(" buffered message(s). No active session to reset.");
        out
    } else {
        "⚠️ No active session to reset. Start a conversation first by @mentioning the bot.".to_owned()
    }
}

/// Whether an option and a value for it are what was chosen in a menu.
pub open spec fn is_choice_in(
    custom_id: Seq<char>,
    values: Seq<String>,
    choice: Option<(String, String)>,
) -> bool {
    match choice {
        Some((id, value)) => begins(custom_id, "acp_config_"@) && id@ == custom_id.skip(
            "acp_config_"@.len() as int,
        ) && id@.len() > 0 && values.len() > 0 && value == values[0],
        None => !begins(custom_id, "acp_config_"@) || custom_id.len() == "acp_config_"@.len()
            || values.len() == 0,
    }
}

/// What a menu's choice sets: the option, and its value. Nothing where there is
/// no option or no value.
pub fn parse_config_choice(custom_id: &str, values: &Vec<String>) -> (r: Option<(String, String)>)
    ensures
        is_choice_in(custom_id@, values@, r),
{
    let id = match strip_prefix(custom_id, "acp_config_") {
        Some(id) => id,
        None => return None,
    };
    if id.as_str().unicode_len() == 0 || values.len() == 0 {
        return None;
    }
    Some((id, values[0].clone()))
}

/// The place of the option with an id, or the number of options.
pub open spec fn id_place(options: Seq<ConfigOption>, id: Seq<char>) -> int
    decreases options.len(),
{
    if options.len() == 0 || options[0].id@ == id {
        0
    } else {
        1 + id_place(options.drop_first(), id)
    }
}

/// The name of a value of an option; the value itself where it has none.
pub open spec fn chosen_name(options: Seq<ConfigOption>, id: Seq<char>, value: Seq<char>) -> Seq<char> {
    let at = id_place(options, id);
    if at < options.len() {
        current_name(options[at].options@, value)
    } else {
        value
    }
}

fn name_of_choice(options: &Vec<ConfigOption>, id: &str, value: &str) -> (r: String)
    ensures
        r@ == chosen_name(options@, id@, value@),
{
    let mut i: usize = 0;
    assert(options@.skip(0) =~= options@);
    while i < options.len()
        invariant
            i <= options@.len(),
            id_place(options@, id@) == i + id_place(options@.skip(i as int), id@),
        decreases options@.len() - i,
    {
        assert(options@.skip(i as int)[0] == options@[i as int]);
        if same(options[i].id.as_str(), id) {
            return name_of_current(&options[i].options, value);
        }
        assert(options@.skip(i as int).drop_first() =~= options@.skip(i + 1));
        i += 1;
    }
    assert(options@.skip(i as int).len() == 0);
    value.to_owned()
}

/// What a menu's choice replies.
pub fn config_choice_reply(result: &Result<Vec<ConfigOption>, String>, id: &str, value: &str) -> (r:
    String)
    ensures
        r@ == (match *result {
            Ok(options) => "✅ Switched to **"@ + chosen_name(options@, id@, value@) + "**"@,
            Err(e) => "❌ Failed to switch: "@ + e@,
        }),
{
    match result {
        Ok(options) => {
            let mut out = "✅ Switched to **".to_owned();
            out.append(name_of_choice(options, id, value).as_str());
            out.append("**");
            out
        },
        Err(e) => {
            let mut out = "❌ Failed to switch: ".to_owned();
            out.append(e.as_str());
            out
        },
    }
}

// ---------------------------------------------------------------------------
// Reminders
// ---------------------------------------------------------------------------

/// The most reminders that one person has waiting.
pub const MAX_USER_REMINDERS: usize = 5;

/// A mention as it stands in a text.
pub open spec fn is_mention(word: Seq<char>) -> bool {
    begins(word, "<@"@) && ends(word, ">"@)
}

/// The mentions among the words of a text.
pub open spec fn mentions_in(text: Seq<char>) -> Seq<Seq<char>> {
    words(text).filter(|w: Seq<char>| is_mention(w))
}

/// Takes the mentions out of a text.
pub fn remind_targets(text: &str) -> (r: Vec<String>)
    ensures
        views(r@) == mentions_in(text@),
{
    let parts = split_whitespace(text);
    let ghost all = views(parts@);
    let ghost pick = |w: Seq<char>| is_mention(w);
    let mut out: Vec<String> = Vec::new();
    let mut i: usize = 0;
    proof {
        reveal(Seq::filter);
    }
    assert(views(out@) =~= all.take(0).filter(pick));
    while i < parts.len()
        invariant
            i <= parts@.len(),
            all == views(parts@),
            pick == (|w: Seq<char>| is_mention(w)),
            views(out@) == all.take(i as int).filter(pick),
        decreases parts@.len() - i,
    {
        let word = parts[i].as_str();
        proof {
            reveal(Seq::filter);
            assert(all.take(i + 1).drop_last() =~= all.take(i as int));
            assert(all.take(i + 1).last() == word@);
        }
        if starts_with(word, "<@") && ends_with(word, ">") {
            let target = word.to_owned();
            proof {
                lemma_views_push(out@, target);
            }
            out.push(target);
        }
        i += 1;
    }
    assert(all.take(all.len() as int) =~= all);
    out
}

/// What is wrong with the fields of a reminder.
pub open spec fn remind_error(
    by_bot: bool,
    targets: Seq<char>,
    message: Seq<char>,
    delay: Seq<char>,
) -> Option<Seq<char>> {
    if by_bot {
        Some("⚠️ Only humans can set reminders."@)
    } else if targets.len() == 0 || message.len() == 0 || delay.len() == 0 {
        Some("⚠️ All fields (targets, message, delay) are required."@)
    } else {
        None
    }
}

/// Why a reminder is not set before its delay and text are looked at.
pub fn check_remind_fields(by_bot: bool, targets: &str, message: &str, delay: &str) -> (r: Option<
    String,
>)
    ensures
        text_view(r) == remind_error(by_bot, targets@, message@, delay@),
{
    if by_bot {
        return Some("⚠️ Only humans can set reminders.".to_owned());
    }
    if targets.unicode_len() == 0 || message.unicode_len() == 0 || delay.unicode_len() == 0 {
        return Some("⚠️ All fields (targets, message, delay) are required.".to_owned());
    }
    None
}

/// How many of the waiting reminders a person set.
pub open spec fn set_by(senders: Seq<u64>, user: u64) -> nat
    decreases senders.len(),
{
    if senders.len() == 0 {
        0
    } else {
        set_by(senders.drop_last(), user) + (if senders.last() == user {
            1nat
        } else {
            0
        })
    }
}

fn count_set_by(senders: &Vec<u64>, user: u64) -> (r: usize)
    ensures
        r == set_by(senders@, user),
{
    let mut n: usize = 0;
    let mut i: usize = 0;
    while i < senders.len()
        invariant
            i <= senders@.len(),
            n <= i,
            n == set_by(senders@.take(i as int), user),
        decreases senders@.len() - i,
    {
        assert(senders@.take(i + 1).drop_last() =~= senders@.take(i as int));
        if senders[i] == user {
            n += 1;
        }
        i += 1;
    }
    assert(senders@.take(senders@.len() as int) =~= senders@);
    n
}

/// What is wrong with the targets of a reminder, for a person who has set others.
pub open spec fn targets_error(
    targets: Seq<char>,
    max_targets: nat,
    pending_senders: Seq<u64>,
    user: u64,
) -> Option<Seq<char>> {
    if mentions_in(targets).len() == 0 {
        Some("⚠️ No valid mentions found in targets. Use @user or @role."@)
    } else if mentions_in(targets).len() > max_targets {
        Some("⚠️ Too many targets (max "@ + decimal(max_targets) + "). Use a @role instead."@)
    } else if set_by(pending_senders, user) >= MAX_USER_REMINDERS {
        Some("⚠️ You already have 5 active reminders. Wait for some to fire before adding more."@)
    } else {
        None
    }
}

/// Whom a reminder is for, or why it is not set: nobody, too many, or too many
/// reminders of one person waiting.
pub fn check_remind_targets(
    targets: &str,
    max_targets: usize,
    pending_senders: &Vec<u64>,
    user: u64,
) -> (r: Result<Vec<String>, String>)
    ensures
        match r {
            Ok(list) => views(list@) == mentions_in(targets@) && 0 < list@.len() <= max_targets
                && targets_error(
                targets@,
                max_targets as nat,
                pending_senders@,
                user,
            ) is None,
            Err(e) => targets_error(targets@, max_targets as nat, pending_senders@, user) == Some(e@),
        },
{
    let list = remind_targets(targets);
    assert(views(list@).len() == list@.len());
    if list.len() == 0 {
        return Err("⚠️ No valid mentions found in targets. Use @user or @role.".to_owned());
    }
    if list.len() > max_targets {
        let mut e = "⚠️ Too many targets (max ".to_owned();
        append_decimal(&mut e, max_targets as u64);
        e.append("). Use a @role instead.");
        return Err(e);
    }
    if count_set_by(pending_senders, user) >= MAX_USER_REMINDERS {
        return Err(
            "⚠️ You already have 5 active reminders. Wait for some to fire before adding more.".to_owned(),
        );
    }
    Ok(list)
}

/// What setting a reminder replies.
pub fn remind_reply(delay: &str, targets: &Vec<String>) -> (r: String)
    ensures
        r@ == "⏰ Reminder set! Will fire in **"@ + delay@ + "** and mention "@ + joined(
            views(targets@),
            " "@,
        ),
{
    let mut out = "⏰ Reminder set! Will fire in **".to_owned();
    out.append(delay);
    out.append("** and mention ");
    out.append(join(targets, " ").as_str());
    out
}

// ---------------------------------------------------------------------------
// Reminders that outlived a restart
// ---------------------------------------------------------------------------

/// Whether a reminder has not been taken up: it is not known, and does not occur
/// before.
pub open spec fn is_new(pending: Seq<Seq<char>>, known: Set<Seq<char>>, i: int) -> bool {
    &&& !known.contains(pending[i])
    &&& forall|k: int| 0 <= k < i ==> #[trigger] pending[k] != pending[i]
}

/// Whether a text is among the first so many of a row.
pub open spec fn is_among(row: Seq<Seq<char>>, n: int, k: Seq<char>) -> bool {
    exists|a: int| 0 <= a < n && #[trigger] row[a] == k
}

/// Whether these reminders, by their places and in their order, are those that
/// were not known, and all of them are known then.
pub open spec fn are_claimed(
    pending: Seq<Seq<char>>,
    known: Set<Seq<char>>,
    claimed: Seq<usize>,
    after: Set<Seq<char>>,
) -> bool {
    &&& forall|k: Seq<char>| #[trigger] after.contains(k) <==> known.contains(k) || pending.contains(k)
    &&& forall|j: int|
        0 <= j < claimed.len() ==> (#[trigger] claimed[j]) < pending.len() && is_new(
            pending,
            known,
            claimed[j] as int,
        )
    &&& forall|i: int, j: int|
        0 <= i < j < claimed.len() ==> #[trigger] claimed[i] < #[trigger] claimed[j]
    &&& forall|i: int|
        0 <= i < pending.len() && #[trigger] is_new(pending, known, i) ==> claimed.contains(i as usize)
}

/// Takes up the reminders that have not been, and tells which those are. So none
/// fires twice, however often the connection comes up.
pub fn claim_reminders(pending: &Vec<String>, scheduled: &mut Table<bool>) -> (r: Vec<usize>)
    ensures
        are_claimed(views(pending@), old(scheduled)@.dom(), r@, final(scheduled)@.dom()),
{
    let ghost known = scheduled@.dom();
    let ghost all = views(pending@);
    let mut out: Vec<usize> = Vec::new();
    let mut i: usize = 0;
    while i < pending.len()
        invariant
            i <= pending@.len(),
            all == views(pending@),
            forall|k: Seq<char>| #[trigger]
                scheduled@.contains_key(k) <==> known.contains(k) || is_among(all, i as int, k),
            forall|j: int|
                0 <= j < out@.len() ==> (#[trigger] out@[j]) < i && is_new(
                    all,
                    known,
                    out@[j] as int,
                ),
            forall|a: int, b: int| 0 <= a < b < out@.len() ==> #[trigger] out@[a] < #[trigger] out@[b],
            forall|a: int| 0 <= a < i && #[trigger] is_new(all, known, a) ==> out@.contains(a as usize),
        decreases pending@.len() - i,
    {
        let ghost before = scheduled@;
        let ghost taken = out@;
        let ghost id = all[i as int];
        assert(id == pending@[i as int]@);
        if !scheduled.contains_key(pending[i].as_str()) {
            scheduled.insert(pending[i].clone(), true);
            out.push(i);
            proof {
                assert(is_new(all, known, i as int)) by {
                    assert forall|k: int| 0 <= k < i implies #[trigger] all[k] != all[i as int] by {
                        if all[k] == id {
                            assert(is_among(all, i as int, id));
                            assert(before.contains_key(id));
                        }
                    }
                }
                assert(out@[taken.len() as int] == i);
                assert forall|a: int| 0 <= a < i + 1 && #[trigger] is_new(all, known, a) implies out@.contains(
                    a as usize,
                ) by {
                    if a < i {
                        let j = choose|j: int| 0 <= j < taken.len() && taken[j] == a as usize;
                        assert(out@[j] == a as usize);
                    }
                }
            }
        } else {
            proof {
                assert(!is_new(all, known, i as int));
            }
        }
        proof {
            assert forall|k: Seq<char>| #[trigger]
                scheduled@.contains_key(k) <==> known.contains(k) || is_among(all, i + 1, k) by {
                assert(all[i as int] == id);
                if is_among(all, i as int, k) {
                    let a = choose|a: int| 0 <= a < i && #[trigger] all[a] == k;
                    assert(0 <= a < i + 1 && all[a] == k);
                }
                if is_among(all, i + 1, k) {
                    let a = choose|a: int| 0 <= a < i + 1 && #[trigger] all[a] == k;
                    if a < i {
                        assert(is_among(all, i as int, k));
                    }
                }
                assert(before.contains_key(k) <==> known.contains(k) || is_among(all, i as int, k));
            }
        }
        i += 1;
    }
    proof {
        assert forall|k: Seq<char>|
            scheduled@.contains_key(k) <==> known.contains(k) || all.contains(k) by {
            if all.contains(k) {
                let a = choose|a: int| 0 <= a < all.len() && all[a] == k;
                assert(is_among(all, all.len() as int, k));
            }
        }
    }
    out
}

} // verus!
