//! The panes that `zellij action list-panes -j -a` prints, and the ids that name them.
use crate::json::{json_document, models, parse_json, Json, JsonModel};
use crate::number::{
    decimal, decimal_spec, law_decimal_reads_back, parse_u64, parse_u64_spec,
};
use crate::schema::{outcome, PaneModel, PaneSummary};
use crate::text::{strip_prefix, strip_prefix_spec};
use vstd::prelude::*;

verus! {

/// The value of an optional truth value that is false by default.
pub open spec fn or_false(b: Option<bool>) -> bool {
    b == Some(true)
}

/// The value of an optional number that is zero by default.
pub open spec fn or_zero(n: Option<u64>) -> u64 {
    match n {
        Some(n) => n,
        None => 0,
    }
}

/// The value of an optional text that is empty by default.
pub open spec fn or_empty(s: Option<Seq<char>>) -> Seq<char> {
    match s {
        Some(s) => s,
        None => seq![],
    }
}

/// The id of a pane: `terminal_<n>` or `plugin_<n>`.
pub open spec fn pane_id_text(is_plugin: bool, id: u64) -> Seq<char> {
    (if is_plugin {
        "plugin"@
    } else {
        "terminal"@
    }) + "_"@ + decimal_spec(id as nat)
}

/// The pane that one entry of the listing describes.
pub open spec fn pane_of(entry: JsonModel) -> PaneModel {
    let is_plugin = or_false(entry.bool_field("is_plugin"@));
    PaneModel {
        id: pane_id_text(is_plugin, or_zero(entry.u64_field("id"@))),
        title: or_empty(entry.str_field("title"@)),
        is_focused: or_false(entry.bool_field("is_focused"@)),
        is_plugin,
        is_floating: or_false(entry.bool_field("is_floating"@)),
        exited: or_false(entry.bool_field("exited"@)),
        tab_id: or_zero(entry.u64_field("tab_id"@)),
        tab_name: or_empty(entry.str_field("tab_name"@)),
        command: if entry.get("pane_command"@) is Some {
            entry.str_field("pane_command"@)
        } else {
            entry.str_field("terminal_command"@)
        },
        cwd: entry.str_field("pane_cwd"@),
    }
}

/// The panes of a listing, one for each entry of the array that it has to be.
pub open spec fn panes_of(document: JsonModel) -> Option<Seq<PaneModel>> {
    match document {
        JsonModel::Array(entries) => Some(entries.map_values(|entry: JsonModel| pane_of(entry))),
        _ => None,
    }
}

/// The number that a text stands for, if it stands for one of 64 bits.
pub open spec fn number_of(s: Seq<char>) -> Option<u64> {
    match parse_u64_spec(s) {
        Ok(n) => Some(n as u64),
        Err(_) => None,
    }
}

/// The pane that `pane_id` names: whether it is a plugin, and its number. A bare number
/// names a terminal.
pub open spec fn pane_named(pane_id: Seq<char>) -> Option<(bool, u64)> {
    if let Some(number) = strip_prefix_spec(pane_id, "terminal_"@) {
        match number_of(number) {
            Some(id) => Some((false, id)),
            None => None,
        }
    } else if let Some(number) = strip_prefix_spec(pane_id, "plugin_"@) {
        match number_of(number) {
            Some(id) => Some((true, id)),
            None => None,
        }
    } else {
        match number_of(pane_id) {
            Some(id) => Some((false, id)),
            None => None,
        }
    }
}

/// Whether one entry of the listing is the pane `target`.
pub open spec fn entry_is(entry: JsonModel, target: (bool, u64)) -> bool {
    &&& entry.u64_field("id"@) == Some(target.1)
    &&& or_false(entry.bool_field("is_plugin"@)) == target.0
}

/// Whether the pane `target` is among the entries of a listing.
pub open spec fn any_entry_is(entries: Seq<JsonModel>, target: (bool, u64)) -> bool {
    exists|i: int| 0 <= i < entries.len() && entry_is(#[trigger] entries[i], target)
}

/// Whether a listing, as it was printed, shows the pane `target`.
pub open spec fn listing_shows(raw: Seq<char>, target: (bool, u64)) -> Result<bool, Seq<char>> {
    match json_document(raw) {
        Err(e) => Err("failed to parse zellij list-panes JSON: "@ + e),
        Ok(JsonModel::Array(entries)) => Ok(any_entry_is(entries, target)),
        Ok(_) => Err("zellij list-panes output was not a JSON array"@),
    }
}

/// The truth value, or false where there is none.
fn is_true(b: Option<bool>) -> (r: bool)
    ensures
        r == or_false(b),
{
    match b {
        Some(b) => b,
        None => false,
    }
}

/// The text as a string of its own, or the empty string where there is none.
fn owned_or_empty(s: Option<&str>) -> (r: String)
    ensures
        r@ == or_empty(s.deep_view()),
{
    match s {
        Some(s) => s.to_owned(),
        None => String::new(),
    }
}

/// The text as a string of its own, where there is one.
pub(crate) fn owned(s: Option<&str>) -> (r: Option<String>)
    ensures
        r.deep_view() == s.deep_view(),
{
    match s {
        Some(s) => Some(s.to_owned()),
        None => None,
    }
}

/// The id of a pane: `terminal_<n>` or `plugin_<n>`.
pub fn pane_id(is_plugin: bool, id: u64) -> (r: String)
    ensures
        r@ == pane_id_text(is_plugin, id),
{
    let mut text = if is_plugin {
        "plugin".to_owned()
    } else {
        "terminal".to_owned()
    };
    text.append("_");
    text.append(decimal(id).as_str());
    text
}

/// Converts one entry of `zellij action list-panes -j -a` into a summary. A field that is
/// missing or of another type takes its default.
pub fn parse_pane(v: &Json) -> (r: PaneSummary)
    ensures
        r.deep_view() == pane_of(v@),
{
    let id_int: u64 = v.u64_field("id").unwrap_or(0);
    let is_plugin = is_true(v.bool_field("is_plugin"));
    let command = match v.get("pane_command") {
        Some(value) => value.as_str(),
        None => v.str_field("terminal_command"),
    };
    PaneSummary {
        id: pane_id(is_plugin, id_int),
        title: owned_or_empty(v.str_field("title")),
        is_focused: is_true(v.bool_field("is_focused")),
        is_plugin,
        is_floating: is_true(v.bool_field("is_floating")),
        exited: is_true(v.bool_field("exited")),
        tab_id: v.u64_field("tab_id").unwrap_or(0),
        tab_name: owned_or_empty(v.str_field("tab_name")),
        command: owned(command),
        cwd: owned(v.str_field("pane_cwd")),
    }
}

/// Converts the listing of panes, or gives nothing where it is no array.
pub fn parse_panes(document: &Json) -> (r: Option<Vec<PaneSummary>>)
    ensures
        r.deep_view() == panes_of(document@),
{
    match document.as_array() {
        Some(entries) => {
            let mut panes: Vec<PaneSummary> = Vec::new();
            let mut i: usize = 0;
            while i < entries.len()
                invariant
                    i <= entries.len(),
                    panes@.len() == i,
                    forall|j: int|
                        0 <= j < i ==> #[trigger] panes@[j].deep_view() == pane_of(entries@[j]@),
                decreases entries.len() - i,
            {
                panes.push(parse_pane(&entries[i]));
                i = i + 1;
            }
            assert(panes.deep_view() =~= panes_of(document@)->0);
            Some(panes)
        },
        None => None,
    }
}

/// Reads a pane id: whether it names a plugin, and its number. A bare number names a
/// terminal.
pub fn parse_pane_id(pane_id: &str) -> (r: Option<(bool, u64)>)
    ensures
        r == pane_named(pane_id@),
{
    if let Some(number) = strip_prefix(pane_id, "terminal_") {
        match parse_u64(number) {
            Ok(id) => Some((false, id)),
            Err(_) => None,
        }
    } else if let Some(number) = strip_prefix(pane_id, "plugin_") {
        match parse_u64(number) {
            Ok(id) => Some((true, id)),
            Err(_) => None,
        }
    } else {
        match parse_u64(pane_id) {
            Ok(id) => Some((false, id)),
            Err(_) => None,
        }
    }
}

/// Whether the listing shows the pane `target`; nothing where the listing is no array.
pub fn shows_pane(document: &Json, target: (bool, u64)) -> (r: Option<bool>)
    ensures
        r == match document@ {
            JsonModel::Array(entries) => Some(any_entry_is(entries, target)),
            _ => None,
        },
{
    match document.as_array() {
        Some(entries) => {
            let ghost all = models(entries@);
            let mut i: usize = 0;
            while i < entries.len()
                invariant
                    i <= entries.len(),
                    all == models(entries@),
                    document@ == JsonModel::Array(all),
                    forall|j: int| 0 <= j < i ==> !entry_is(#[trigger] all[j], target),
                decreases entries.len() - i,
            {
                let id = entries[i].u64_field("id");
                let is_plugin = is_true(entries[i].bool_field("is_plugin"));
                assert(all[i as int] == entries@[i as int]@);
                if let Some(id) = id {
                    if id == target.1 && is_plugin == target.0 {
                        return Some(true);
                    }
                }
                i = i + 1;
            }
            Some(false)
        },
        None => None,
    }
}

/// Whether a listing, as it was printed, shows the pane `target`.
pub fn pane_is_listed(raw: &str, target: (bool, u64)) -> (r: Result<bool, String>)
    ensures
        outcome(r) == listing_shows(raw@, target),
{
    match parse_json(raw) {
        Ok(document) => match shows_pane(&document, target) {
            Some(found) => Ok(found),
            None => Err("zellij list-panes output was not a JSON array".to_owned()),
        },
        Err(e) => {
            let mut message = "failed to parse zellij list-panes JSON: ".to_owned();
            message.append(e.as_str());
            Err(message)
        },
    }
}

/// The id that a pane is listed under names that pane.
pub proof fn law_pane_id_names_its_pane(is_plugin: bool, id: u64)
    ensures
        pane_named(pane_id_text(is_plugin, id)) == Some((is_plugin, id)),
{
    reveal_strlit("terminal");
    reveal_strlit("plugin");
    reveal_strlit("_");
    reveal_strlit("terminal_");
    reveal_strlit("plugin_");
    law_decimal_reads_back(id);
    let text = pane_id_text(is_plugin, id);
    let number = decimal_spec(id as nat);
    if is_plugin {
        assert("plugin"@ + "_"@ =~= "plugin_"@);
        assert("plugin_"@.is_prefix_of(text));
        assert(text.skip("plugin_"@.len() as int) =~= number);
        assert(text[0] == 'p');
        if "terminal_"@.is_prefix_of(text) {
            assert(text.subrange(0, "terminal_"@.len() as int)[0] == "terminal_"@[0]);
        }
    } else {
        assert("terminal"@ + "_"@ =~= "terminal_"@);
        assert("terminal_"@.is_prefix_of(text));
        assert(text.skip("terminal_"@.len() as int) =~= number);
    }
}

/// A bare number names the terminal of that number.
pub proof fn law_bare_number_names_a_terminal(number: Seq<char>)
    requires
        number_of(number) is Some,
    ensures
        pane_named(number) == pane_named("terminal_"@ + number),
        pane_named(number) == Some((false, number_of(number)->0)),
{
    reveal_strlit("terminal_");
    reveal_strlit("plugin_");
    let prefixed = "terminal_"@ + number;
    assert("terminal_"@.is_prefix_of(prefixed));
    assert(prefixed.skip("terminal_"@.len() as int) =~= number);
    if "terminal_"@.is_prefix_of(number) {
        assert(number.subrange(0, "terminal_"@.len() as int)[0] == "terminal_"@[0]);
        assert(number[0] == 't');
    }
    if "plugin_"@.is_prefix_of(number) {
        assert(number.subrange(0, "plugin_"@.len() as int)[0] == "plugin_"@[0]);
        assert(number[0] == 'p');
    }
}

/// An entry of the listing that has a number is listed under an id that names it, and the
/// listing shows the pane that this id names.
pub proof fn law_listed_pane_is_found(entries: Seq<JsonModel>, i: int)
    requires
        0 <= i < entries.len(),
        entries[i].u64_field("id"@) is Some,
    ensures
        panes_of(JsonModel::Array(entries)) matches Some(panes) && {
            &&& panes.len() == entries.len()
            &&& pane_named(panes[i].id) matches Some(target) && any_entry_is(entries, target)
        },
{
    let is_plugin = or_false(entries[i].bool_field("is_plugin"@));
    let id = or_zero(entries[i].u64_field("id"@));
    law_pane_id_names_its_pane(is_plugin, id);
    assert(entry_is(entries[i], (is_plugin, id)));
}

/// A pane that a listing shows stands in the summary of that listing, under the one id that
/// has no sign and no leading zeros.
pub proof fn law_found_pane_is_listed(entries: Seq<JsonModel>, target: (bool, u64))
    requires
        any_entry_is(entries, target),
    ensures
        exists|i: int|
            0 <= i < entries.len() && (#[trigger] panes_of(JsonModel::Array(entries))->0[i]).id
                == pane_id_text(target.0, target.1),
{
    let i = choose|i: int| 0 <= i < entries.len() && entry_is(#[trigger] entries[i], target);
    let panes = panes_of(JsonModel::Array(entries))->0;
    assert(panes[i] == pane_of(entries[i]));
}

} // verus!
