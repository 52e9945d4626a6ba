//! What an agent says of its options, and what is put in for references.

use vstd::prelude::*;
use crate::commands::{are_options, are_values, is_option, is_value, ConfigOption};
use crate::config::text_view;
use crate::gateway::any_concerns;
use crate::json::{field, Json};
use crate::laws::requests::is_about;
use crate::patterns::{first_groups, spliced, texts_between, with_variables, ENV_REFERENCE};

verus! {

/// Every option that an agent lists is read, in its order, with its id, its
/// category and its current value, and with every value it can have.
pub proof fn options_are_read_as_listed(options: Seq<ConfigOption>, list: Seq<Json>, i: int, s: Seq<char>)
    requires
        are_options(options, list),
        0 <= i < list.len(),
    ensures
        options.len() == list.len(),
        field(list[i], "id"@) == Some(Json::Text(s)) ==> options[i].id@ == s,
        field(list[i], "category"@) == Some(Json::Text(s)) ==> text_view(options[i].category) == Some(s),
        field(list[i], "category"@) is None ==> options[i].category is None,
        field(list[i], "currentValue"@) == Some(Json::Text(s)) ==> options[i].current_value@ == s,
{
    assert(is_option(options[i], list[i]));
}

/// Every value of an option is read, in its order, with its name and what is said
/// about it.
pub proof fn values_are_read_as_listed(
    o: ConfigOption,
    j: Json,
    list: Seq<Json>,
    k: int,
    s: Seq<char>,
)
    requires
        is_option(o, j),
        field(j, "options"@) == Some(Json::Array(list)),
        0 <= k < list.len(),
    ensures
        o.options@.len() == list.len(),
        field(list[k], "value"@) == Some(Json::Text(s)) ==> o.options@[k].value@ == s,
        field(list[k], "name"@) == Some(Json::Text(s)) ==> o.options@[k].name@ == s,
        field(list[k], "description"@) == Some(Json::Text(s)) ==> text_view(o.options@[k].description)
            == Some(s),
        field(list[k], "description"@) is None ==> o.options@[k].description is None,
{
    assert(are_values(o.options@, list));
    assert(is_value(o.options@[k], list[k]));
}

/// There is something to choose from exactly if some option is of the kind that
/// is asked about.
pub proof fn choices_need_an_option_of_their_kind(options: Seq<ConfigOption>, agents: bool, i: int)
    ensures
        0 <= i < options.len() && is_about(options[i], agents) ==> any_concerns(options, agents),
        (forall|k: int| 0 <= k < options.len() ==> !is_about(#[trigger] options[k], agents))
            ==> !any_concerns(options, agents),
{
    if 0 <= i < options.len() && is_about(options[i], agents) {
        assert(crate::gateway::concerns(options[i], agents));
    }
    if forall|k: int| 0 <= k < options.len() ==> !is_about(#[trigger] options[k], agents) {
        assert forall|k: int| 0 <= k < options.len() implies !crate::gateway::concerns(
            #[trigger] options[k],
            agents,
        ) by {
            assert(!is_about(options[k], agents));
        }
    }
}

/// A reference in a text gives way to the value of its variable, or to nothing
/// where there is no such variable, and the text around it stays.
pub proof fn references_give_way_to_values(
    raw: Seq<char>,
    vars: Map<Seq<char>, String>,
    a: Seq<char>,
    name: Seq<char>,
    b: Seq<char>,
)
    requires
        texts_between(ENV_REFERENCE@, raw) == seq![a, b],
        first_groups(ENV_REFERENCE@, raw) == seq![name],
    ensures
        vars.contains_key(name) ==> with_variables(raw, vars) == a + vars[name]@ + b,
        !vars.contains_key(name) ==> with_variables(raw, vars) == a + b,
{
    reveal_with_fuel(spliced, 3);
    let inserts = seq![name].map_values(|n: Seq<char>| crate::patterns::value_or_nothing(vars, n));
    let texts = seq![a, b];
    assert(inserts[0] == crate::patterns::value_or_nothing(vars, name));
    assert(texts.drop_last() =~= seq![a]);
    assert(spliced(texts, inserts) == spliced(seq![a], inserts) + inserts[0] + b);
    if !vars.contains_key(name) {
        assert(a + Seq::<char>::empty() + b =~= a + b);
    }
}

/// A text without references stays as it is.
pub proof fn texts_without_references_stay(raw: Seq<char>, vars: Map<Seq<char>, String>)
    requires
        texts_between(ENV_REFERENCE@, raw) == seq![raw],
    ensures
        with_variables(raw, vars) == raw,
{
}

} // verus!
