//! The listing decoder: from a JSON document of whatever naming
//! convention to service records.

use crate::json::{first_with_key, lemma_array_view, trees, JsonTree, JsonValue};
use crate::sequences::{lemma_filter_one, lemma_filter_step};
use crate::systemd::{Failure, ServiceError, ServiceInfo, ServiceRecord};
use vstd::prelude::*;

verus! {

/// The texts of a list of keys.
pub open spec fn key_texts(keys: Seq<&str>) -> Seq<Seq<char>> {
    keys.map_values(|k: &str| k@)
}

/// The text that a scalar member stands for: a non-empty string as it is,
/// a number by its rendering, a boolean as `true` or `false`. Anything
/// else counts as absent, and so does a number without a rendering,
/// which no parsed document holds.
pub open spec fn scalar_text(value: JsonTree) -> Option<Seq<char>> {
    match value {
        JsonTree::Text(s) => if s.len() > 0 {
            Some(s)
        } else {
            None
        },
        JsonTree::Number(n) => if n.len() > 0 {
            Some(n)
        } else {
            None
        },
        JsonTree::Bool(b) => Some(
            if b {
                "true"@
            } else {
                "false"@
            },
        ),
        _ => None,
    }
}

/// The text of a field under one key, if the row holds a usable one.
pub open spec fn text_under(row: JsonTree, key: Seq<char>) -> Option<Seq<char>> {
    match row.get(key) {
        Some(value) => scalar_text(value),
        None => None,
    }
}

/// The text of a field: that of the first candidate key, in order, under
/// which the row holds a usable scalar; empty when there is none.
pub open spec fn resolve_text(row: JsonTree, keys: Seq<Seq<char>>) -> Seq<char>
    decreases keys.len(),
{
    if keys.len() == 0 {
        Seq::empty()
    } else {
        match text_under(row, keys[0]) {
            Some(text) => text,
            None => resolve_text(row, keys.skip(1)),
        }
    }
}

/// The string elements of an array, in order.
pub open spec fn text_items(items: Seq<JsonTree>) -> Seq<Seq<char>> {
    items.filter(|item: JsonTree| item is Text).map_values(|item: JsonTree| item->Text_0)
}

/// Whether a member holds something: anything but an empty string and
/// an empty array. A member that holds nothing is passed over like one
/// that is absent.
pub open spec fn holds_something(value: JsonTree) -> bool {
    match value {
        JsonTree::Text(s) => s.len() > 0,
        JsonTree::Array(items) => items.len() > 0,
        _ => true,
    }
}

/// The texts that a list member stands for: the string elements of an
/// array, a non-empty string as a list of one, nothing for any other
/// shape.
pub open spec fn list_texts(value: JsonTree) -> Seq<Seq<char>> {
    match value {
        JsonTree::Array(items) => text_items(items),
        JsonTree::Text(s) => if s.len() > 0 {
            seq![s]
        } else {
            Seq::empty()
        },
        _ => Seq::empty(),
    }
}

/// The list of a field under one key, if the row holds something under
/// it: the list that the member stands for, which is empty where the
/// member is neither an array with a string in it nor a string.
pub open spec fn list_under(row: JsonTree, key: Seq<char>) -> Option<Seq<Seq<char>>> {
    match row.get(key) {
        Some(value) => if holds_something(value) {
            Some(list_texts(value))
        } else {
            None
        },
        None => None,
    }
}

/// The list of a field: that of the first candidate key, in order, under
/// which the row holds something, whatever its shape; empty when there
/// is no such key.
pub open spec fn resolve_list(row: JsonTree, keys: Seq<Seq<char>>) -> Seq<Seq<char>>
    decreases keys.len(),
{
    if keys.len() == 0 {
        Seq::empty()
    } else {
        match list_under(row, keys[0]) {
            Some(list) => list,
            None => resolve_list(row, keys.skip(1)),
        }
    }
}

/// Resolves a text field of a row by probing `keys` in order.
pub fn extract_string(row: &JsonValue, keys: &[&str]) -> (r: String)
    ensures
        r@ == resolve_text(row@, key_texts(keys@)),
{
    let ghost all = key_texts(keys@);
    let mut i: usize = 0;
    assert(all.skip(0) == all);
    while i < keys.len()
        invariant
            i <= keys.len(),
            all == key_texts(keys@),
            resolve_text(row@, all) == resolve_text(row@, all.skip(i as int)),
        decreases keys.len() - i,
    {
        assert(all.skip(i as int).skip(1) == all.skip(i as int + 1));
        if let Some(value) = row.get(keys[i]) {
            match value {
                JsonValue::String(s) => {
                    if !s.as_str().is_empty() {
                        return s.clone();
                    }
                },
                JsonValue::Number(n) => {
                    if !n.as_str().is_empty() {
                        return n.clone();
                    }
                },
                JsonValue::Bool(b) => {
                    if *b {
                        return "true".to_owned();
                    } else {
                        return "false".to_owned();
                    }
                },
                _ => {},
            }
        }
        i += 1;
    }
    String::new()
}

/// Taking one more element into account appends its text if it is a
/// string and changes nothing otherwise.
proof fn lemma_text_items_step(items: Seq<JsonTree>, i: int)
    requires
        0 <= i < items.len(),
    ensures
        text_items(items.take(i + 1)) == if items[i] is Text {
            text_items(items.take(i)).push(items[i]->Text_0)
        } else {
            text_items(items.take(i))
        },
{
    lemma_filter_step(items, |item: JsonTree| item is Text, i);
}

/// Collects the string elements of an array.
fn string_items(items: &Vec<JsonValue>) -> (r: Vec<String>)
    ensures
        r.deep_view() == list_texts(JsonValue::Array(*items)@),
{
    let ghost all = JsonValue::Array(*items)@->Array_0;
    let mut out: Vec<String> = Vec::new();
    let mut i: usize = 0;
    while i < items.len()
        invariant
            i <= items.len(),
            all.len() == items.len(),
            forall|j: int| 0 <= j < items.len() ==> all[j] == items[j]@,
            out.deep_view() == text_items(all.take(i as int)),
        decreases items.len() - i,
    {
        proof {
            lemma_text_items_step(all, i as int);
        }
        if let JsonValue::String(s) = &items[i] {
            out.push(s.clone());
        }
        i += 1;
    }
    assert(all.take(i as int) == all);
    out
}

/// Resolves a list field of a row by probing `keys` in order.
pub fn extract_string_vec(row: &JsonValue, keys: &[&str]) -> (r: Vec<String>)
    ensures
        r.deep_view() == resolve_list(row@, key_texts(keys@)),
{
    let ghost all = key_texts(keys@);
    let mut i: usize = 0;
    assert(all.skip(0) == all);
    while i < keys.len()
        invariant
            i <= keys.len(),
            all == key_texts(keys@),
            resolve_list(row@, all) == resolve_list(row@, all.skip(i as int)),
        decreases keys.len() - i,
    {
        assert(all.skip(i as int).skip(1) == all.skip(i as int + 1));
        if let Some(value) = row.get(keys[i]) {
            match value {
                JsonValue::Array(items) => {
                    proof {
                        lemma_array_view(*items);
                    }
                    if items.len() > 0 {
                        return string_items(items);
                    }
                },
                JsonValue::String(s) => {
                    if !s.as_str().is_empty() {
                        let out = vec![s.clone()];
                        return out;
                    }
                },
                _ => {
                    return Vec::new();
                },
            }
        }
        i += 1;
    }
    let out: Vec<String> = Vec::new();
    out
}

/// A field of a service record.
pub enum Field {
    Name,
    Description,
    LoadState,
    ActiveState,
    SubState,
    UnitFileState,
    FollowedBy,
}

/// The keys under which a field may stand in a row, in order of
/// preference.
pub open spec fn candidate_keys(field: Field) -> Seq<Seq<char>> {
    match field {
        Field::Name => seq!["name"@, "unit"@, "Unit"@, "id"@, "Id"@, "names"@, "Names"@],
        Field::Description => seq!["description"@, "Description"@],
        Field::LoadState => seq!["load_state"@, "load"@, "LoadState"@, "Load"@],
        Field::ActiveState => seq!["active_state"@, "active"@, "ActiveState"@, "Active"@],
        Field::SubState => seq!["sub_state"@, "sub"@, "SubState"@, "Sub"@],
        Field::UnitFileState => seq![
            "unit_file_state"@,
            "unit_file"@,
            "UnitFileState"@,
            "UnitFile"@,
        ],
        Field::FollowedBy => seq![
            "followed_by"@,
            "followed"@,
            "following"@,
            "FollowedBy"@,
            "Following"@,
        ],
    }
}

/// Whether a row names a unit.
pub open spec fn has_name(row: JsonTree) -> bool {
    resolve_text(row, candidate_keys(Field::Name)).len() > 0
}

/// The record that a row stands for.
pub open spec fn row_record(row: JsonTree) -> ServiceRecord {
    ServiceRecord {
        name: resolve_text(row, candidate_keys(Field::Name)),
        description: resolve_text(row, candidate_keys(Field::Description)),
        load_state: resolve_text(row, candidate_keys(Field::LoadState)),
        active_state: resolve_text(row, candidate_keys(Field::ActiveState)),
        sub_state: resolve_text(row, candidate_keys(Field::SubState)),
        unit_file_state: resolve_text(row, candidate_keys(Field::UnitFileState)),
        followed_by: resolve_list(row, candidate_keys(Field::FollowedBy)),
    }
}

/// The records of a sequence of rows: one for each row that names a
/// unit, in the order of the rows.
pub open spec fn rows_records(rows: Seq<JsonTree>) -> Seq<ServiceRecord> {
    rows.filter(|row: JsonTree| has_name(row)).map_values(|row: JsonTree| row_record(row))
}

/// The rows of a listing: the document itself where it is an array, the
/// array under `units` where it is an object that holds one.
pub open spec fn listing_rows(document: JsonTree) -> Option<Seq<JsonTree>> {
    match document {
        JsonTree::Array(rows) => Some(rows),
        JsonTree::Object(members) => match first_with_key(members, "units"@) {
            Some(JsonTree::Array(rows)) => Some(rows),
            _ => None,
        },
        _ => None,
    }
}

/// The records that a listing holds, where it has the shape of one.
pub open spec fn listing_records(document: JsonTree) -> Option<Seq<ServiceRecord>> {
    match listing_rows(document) {
        Some(rows) => Some(rows_records(rows)),
        None => None,
    }
}

/// The records that a sequence of services stands for.
pub open spec fn records(services: Seq<ServiceInfo>) -> Seq<ServiceRecord> {
    services.map_values(|service: ServiceInfo| service@)
}

/// Decodes one row; a row that names no unit gives nothing.
pub fn decode_row(row: &JsonValue) -> (r: Option<ServiceInfo>)
    ensures
        match r {
            Some(service) => has_name(row@) && service@ == row_record(row@),
            None => !has_name(row@),
        },
{
    let names: [&str; 7] = ["name", "unit", "Unit", "id", "Id", "names", "Names"];
    let descriptions: [&str; 2] = ["description", "Description"];
    let load_keys: [&str; 4] = ["load_state", "load", "LoadState", "Load"];
    let active_keys: [&str; 4] = ["active_state", "active", "ActiveState", "Active"];
    let sub_keys: [&str; 4] = ["sub_state", "sub", "SubState", "Sub"];
    let unit_file_keys: [&str; 4] = ["unit_file_state", "unit_file", "UnitFileState", "UnitFile"];
    let followed_keys: [&str; 5] = ["followed_by", "followed", "following", "FollowedBy", "Following"];
    assert(key_texts(names@) == candidate_keys(Field::Name));
    assert(key_texts(descriptions@) == candidate_keys(Field::Description));
    assert(key_texts(load_keys@) == candidate_keys(Field::LoadState));
    assert(key_texts(active_keys@) == candidate_keys(Field::ActiveState));
    assert(key_texts(sub_keys@) == candidate_keys(Field::SubState));
    assert(key_texts(unit_file_keys@) == candidate_keys(Field::UnitFileState));
    assert(key_texts(followed_keys@) == candidate_keys(Field::FollowedBy));
    let name = extract_string(row, &names);
    if name.as_str().is_empty() {
        return None;
    }
    Some(
        ServiceInfo {
            name,
            description: extract_string(row, &descriptions),
            load_state: extract_string(row, &load_keys),
            active_state: extract_string(row, &active_keys),
            sub_state: extract_string(row, &sub_keys),
            unit_file_state: extract_string(row, &unit_file_keys),
            followed_by: extract_string_vec(row, &followed_keys),
        },
    )
}

/// Taking one more row into account appends its record if it names a
/// unit and changes nothing otherwise.
proof fn lemma_rows_records_step(rows: Seq<JsonTree>, i: int)
    requires
        0 <= i < rows.len(),
    ensures
        rows_records(rows.take(i + 1)) == if has_name(rows[i]) {
            rows_records(rows.take(i)).push(row_record(rows[i]))
        } else {
            rows_records(rows.take(i))
        },
{
    lemma_filter_step(rows, |row: JsonTree| has_name(row), i);
}

/// Decodes the rows of a listing, leaving out those that name no unit.
pub fn decode_rows(rows: &Vec<JsonValue>) -> (r: Vec<ServiceInfo>)
    ensures
        records(r@) == rows_records(trees(rows@)),
{
    let ghost all = trees(rows@);
    let mut services: Vec<ServiceInfo> = Vec::with_capacity(rows.len());
    let mut i: usize = 0;
    while i < rows.len()
        invariant
            i <= rows.len(),
            all == trees(rows@),
            records(services@) == rows_records(all.take(i as int)),
        decreases rows.len() - i,
    {
        proof {
            lemma_rows_records_step(all, i as int);
        }
        if let Some(service) = decode_row(&rows[i]) {
            services.push(service);
        }
        i += 1;
    }
    assert(all.take(i as int) == all);
    services
}

/// Decodes a listing document into its service records.
pub fn decode_listing(document: &JsonValue) -> (r: Result<Vec<ServiceInfo>, ServiceError>)
    ensures
        match listing_records(document@) {
            Some(expected) => r is Ok && records(r->Ok_0@) == expected,
            None => r is Err && r->Err_0@ == Failure::Schema,
        },
{
    match document {
        JsonValue::Array(rows) => {
            proof {
                lemma_array_view(*rows);
            }
            Ok(decode_rows(rows))
        },
        JsonValue::Object(_) => match document.get("units") {
            Some(JsonValue::Array(rows)) => {
                proof {
                    lemma_array_view(*rows);
                }
                Ok(decode_rows(rows))
            },
            _ => Err(ServiceError::SchemaError),
        },
        _ => Err(ServiceError::SchemaError),
    }
}

/// A field takes the text of the first key, in order, under which the
/// row holds a usable scalar.
pub proof fn lemma_first_usable_text_wins(row: JsonTree, keys: Seq<Seq<char>>, i: int)
    requires
        0 <= i < keys.len(),
        text_under(row, keys[i]) is Some,
        forall|j: int| 0 <= j < i ==> text_under(row, #[trigger] keys[j]) is None,
    ensures
        resolve_text(row, keys) == text_under(row, keys[i])->0,
    decreases i,
{
    if i > 0 {
        assert(text_under(row, keys[0]) is None);
        assert(forall|j: int|
            0 <= j < i - 1 ==> text_under(row, #[trigger] keys.skip(1)[j]) == text_under(
                row,
                keys[j + 1],
            ));
        lemma_first_usable_text_wins(row, keys.skip(1), i - 1);
    }
}

/// A field is empty where the row holds a usable scalar under none of
/// its keys.
pub proof fn lemma_no_usable_text_is_empty(row: JsonTree, keys: Seq<Seq<char>>)
    requires
        forall|j: int| 0 <= j < keys.len() ==> text_under(row, #[trigger] keys[j]) is None,
    ensures
        resolve_text(row, keys) == Seq::<char>::empty(),
    decreases keys.len(),
{
    if keys.len() > 0 {
        assert(text_under(row, keys[0]) is None);
        assert(forall|j: int|
            0 <= j < keys.skip(1).len() ==> text_under(row, #[trigger] keys.skip(1)[j])
                == text_under(row, keys[j + 1]));
        lemma_no_usable_text_is_empty(row, keys.skip(1));
    }
}

/// A field is empty only where the row holds a usable scalar under none
/// of its keys.
pub proof fn lemma_empty_text_means_none_usable(row: JsonTree, keys: Seq<Seq<char>>)
    requires
        resolve_text(row, keys).len() == 0,
    ensures
        forall|j: int| 0 <= j < keys.len() ==> text_under(row, #[trigger] keys[j]) is None,
    decreases keys.len(),
{
    if keys.len() > 0 {
        reveal_strlit("true");
        reveal_strlit("false");
        lemma_empty_text_means_none_usable(row, keys.skip(1));
        assert forall|j: int| 0 <= j < keys.len() implies text_under(
            row,
            #[trigger] keys[j],
        ) is None by {
            if j > 0 {
                assert(keys.skip(1)[j - 1] == keys[j]);
            }
        }
    }
}

/// A list field takes the list of the first key, in order, under which
/// the row holds something, and is empty where there is no such key.
pub proof fn lemma_first_usable_list_wins(row: JsonTree, keys: Seq<Seq<char>>, i: int)
    requires
        0 <= i <= keys.len(),
        i < keys.len() ==> list_under(row, keys[i]) is Some,
        forall|j: int| 0 <= j < i ==> list_under(row, #[trigger] keys[j]) is None,
    ensures
        resolve_list(row, keys) == if i < keys.len() {
            list_under(row, keys[i])->0
        } else {
            Seq::<Seq<char>>::empty()
        },
    decreases i,
{
    if i > 0 {
        assert(list_under(row, keys[0]) is None);
        assert(forall|j: int|
            0 <= j < i - 1 ==> list_under(row, #[trigger] keys.skip(1)[j]) == list_under(
                row,
                keys[j + 1],
            ));
        lemma_first_usable_list_wins(row, keys.skip(1), i - 1);
    }
}

/// A row that holds no member under any key for the name is left out
/// of the records, and the rows around it give what they give without
/// it, in their order.
pub proof fn lemma_nameless_row_dropped(before: Seq<JsonTree>, row: JsonTree, after: Seq<JsonTree>)
    requires
        forall|i: int|
            0 <= i < candidate_keys(Field::Name).len() ==> row.get(
                #[trigger] candidate_keys(Field::Name)[i],
            ) is None,
    ensures
        !has_name(row),
        rows_records(before + seq![row] + after) == rows_records(before) + rows_records(after),
{
    lemma_no_usable_text_is_empty(row, candidate_keys(Field::Name));
    lemma_rows_records_concat(before, seq![row]);
    lemma_rows_records_concat(before + seq![row], after);
    lemma_filter_one(row, |row: JsonTree| has_name(row));
}

/// The records of two runs of rows, one after the other, are the records
/// of the first followed by those of the second.
pub proof fn lemma_rows_records_concat(first: Seq<JsonTree>, second: Seq<JsonTree>)
    ensures
        rows_records(first + second) == rows_records(first) + rows_records(second),
{
    let named = |row: JsonTree| has_name(row);
    Seq::filter_distributes_over_add(first, second, named);
}

/// Every record of a listing has a name, and there are no more records
/// than rows.
pub proof fn lemma_records_named(rows: Seq<JsonTree>)
    ensures
        rows_records(rows).len() <= rows.len(),
        forall|i: int|
            0 <= i < rows_records(rows).len() ==> (#[trigger] rows_records(rows)[i]).name.len() > 0,
{
    let named = |row: JsonTree| has_name(row);
    rows.lemma_filter_len(named);
    assert forall|i: int| 0 <= i < rows_records(rows).len() implies (#[trigger] rows_records(
        rows,
    )[i]).name.len() > 0 by {
        rows.lemma_filter_pred(named, i);
    }
}

/// A bare array of rows and the same array held under `units` in an
/// object are the same listing.
pub proof fn lemma_wrapping_irrelevant(rows: Seq<JsonTree>)
    ensures
        listing_records(JsonTree::Array(rows)) == Some(rows_records(rows)),
        listing_records(JsonTree::Object(seq![("units"@, JsonTree::Array(rows))])) == Some(
            rows_records(rows),
        ),
{
}

/// Renaming one member leaves every lookup under a third key as it was.
proof fn lemma_lookup_rename(
    members: Seq<(Seq<char>, JsonTree)>,
    i: int,
    alias: Seq<char>,
    key: Seq<char>,
)
    requires
        0 <= i < members.len(),
        members[i].0 != key,
        alias != key,
    ensures
        first_with_key(members.update(i, (alias, members[i].1)), key) == first_with_key(
            members,
            key,
        ),
    decreases members.len(),
{
    let renamed = members.update(i, (alias, members[i].1));
    if i == 0 {
        assert(renamed.skip(1) == members.skip(1));
    } else {
        lemma_lookup_rename(members.skip(1), i - 1, alias, key);
        assert(renamed.skip(1) == members.skip(1).update(i - 1, (alias, members.skip(1)[i - 1].1)));
    }
}

/// Where no member but the one at `i` stands under `key`, a lookup under
/// `key` finds that member or nothing.
proof fn lemma_lookup_only(members: Seq<(Seq<char>, JsonTree)>, i: int, key: Seq<char>)
    requires
        0 <= i < members.len(),
        forall|j: int| 0 <= j < members.len() && j != i ==> (#[trigger] members[j]).0 != key,
    ensures
        first_with_key(members, key) == if members[i].0 == key {
            Some(members[i].1)
        } else {
            None
        },
    decreases members.len(),
{
    if i > 0 {
        lemma_lookup_only(members.skip(1), i - 1, key);
    } else if members[0].0 != key {
        lemma_lookup_none(members.skip(1), key);
    }
}

/// Where no member stands under `key`, a lookup under `key` finds
/// nothing.
proof fn lemma_lookup_none(members: Seq<(Seq<char>, JsonTree)>, key: Seq<char>)
    requires
        forall|j: int| 0 <= j < members.len() ==> (#[trigger] members[j]).0 != key,
    ensures
        first_with_key(members, key) is None,
    decreases members.len(),
{
    if members.len() > 0 {
        lemma_lookup_none(members.skip(1), key);
    }
}

/// Two rows that hold the same under every key of a list resolve alike
/// over that list.
proof fn lemma_resolve_agree(first: JsonTree, second: JsonTree, keys: Seq<Seq<char>>)
    requires
        forall|i: int| 0 <= i < keys.len() ==> first.get(#[trigger] keys[i]) == second.get(keys[i]),
    ensures
        resolve_text(first, keys) == resolve_text(second, keys),
        resolve_list(first, keys) == resolve_list(second, keys),
    decreases keys.len(),
{
    if keys.len() > 0 {
        lemma_resolve_agree(first, second, keys.skip(1));
    }
}

/// Where a row holds `value` under `key` and nothing under the other
/// keys of a list that has `key` in it, the row resolves to what `value`
/// stands for.
proof fn lemma_resolve_single(row: JsonTree, keys: Seq<Seq<char>>, key: Seq<char>, value: JsonTree)
    requires
        forall|i: int|
            0 <= i < keys.len() ==> row.get(#[trigger] keys[i]) == if keys[i] == key {
                Some(value)
            } else {
                None
            },
    ensures
        keys.contains(key) ==> resolve_text(row, keys) == match scalar_text(value) {
            Some(text) => text,
            None => Seq::empty(),
        },
        keys.contains(key) ==> resolve_list(row, keys) == list_texts(value),
        !keys.contains(key) ==> resolve_text(row, keys) == Seq::<char>::empty(),
        !keys.contains(key) ==> resolve_list(row, keys) == Seq::<Seq<char>>::empty(),
    decreases keys.len(),
{
    if keys.len() > 0 {
        let rest = keys.skip(1);
        lemma_resolve_single(row, rest, key, value);
        if keys[0] != key && keys.contains(key) {
            let i = choose|i: int| 0 <= i < keys.len() && keys[i] == key;
            assert(rest[i - 1] == key);
        }
    }
}

/// No key stands for two fields.
pub proof fn lemma_keys_disjoint(first: Field, second: Field, key: Seq<char>)
    requires
        first != second,
        candidate_keys(first).contains(key),
    ensures
        !candidate_keys(second).contains(key),
{
    reveal_strlit("name");
    reveal_strlit("unit");
    reveal_strlit("Unit");
    reveal_strlit("id");
    reveal_strlit("Id");
    reveal_strlit("names");
    reveal_strlit("Names");
    reveal_strlit("description");
    reveal_strlit("Description");
    reveal_strlit("load_state");
    reveal_strlit("load");
    reveal_strlit("LoadState");
    reveal_strlit("Load");
    reveal_strlit("active_state");
    reveal_strlit("active");
    reveal_strlit("ActiveState");
    reveal_strlit("Active");
    reveal_strlit("sub_state");
    reveal_strlit("sub");
    reveal_strlit("SubState");
    reveal_strlit("Sub");
    reveal_strlit("unit_file_state");
    reveal_strlit("unit_file");
    reveal_strlit("UnitFileState");
    reveal_strlit("UnitFile");
    reveal_strlit("followed_by");
    reveal_strlit("followed");
    reveal_strlit("following");
    reveal_strlit("FollowedBy");
    reveal_strlit("Following");
    let i = choose|i: int| 0 <= i < candidate_keys(first).len() && candidate_keys(first)[i] == key;
    if candidate_keys(second).contains(key) {
        let j = choose|j: int|
            0 <= j < candidate_keys(second).len() && candidate_keys(second)[j] == key;
        assert(candidate_keys(first)[i].len() == candidate_keys(second)[j].len());
        assert(candidate_keys(first)[i][2] == candidate_keys(second)[j][2]);
    }
}

/// Where one member alone stands under a key of `field`, the field is
/// what that member stands for, whichever of the keys it is.
pub proof fn lemma_lone_member_resolves(members: Seq<(Seq<char>, JsonTree)>, i: int, field: Field)
    requires
        0 <= i < members.len(),
        candidate_keys(field).contains(members[i].0),
        forall|j: int|
            0 <= j < members.len() && j != i ==> !candidate_keys(field).contains(
                (#[trigger] members[j]).0,
            ),
    ensures
        resolve_text(JsonTree::Object(members), candidate_keys(field)) == match scalar_text(
            members[i].1,
        ) {
            Some(text) => text,
            None => Seq::empty(),
        },
        resolve_list(JsonTree::Object(members), candidate_keys(field)) == list_texts(members[i].1),
{
    let keys = candidate_keys(field);
    let row = JsonTree::Object(members);
    assert forall|k: int| 0 <= k < keys.len() implies row.get(#[trigger] keys[k]) == if keys[k]
        == members[i].0 {
        Some(members[i].1)
    } else {
        None
    } by {
        lemma_lookup_only(members, i, keys[k]);
    }
    lemma_resolve_single(row, keys, members[i].0, members[i].1);
}

/// Renaming the one member that stands for `field` to another key of
/// that field leaves what the row resolves to over the keys of `other`
/// as it was.
proof fn lemma_alias_keeps_field(
    members: Seq<(Seq<char>, JsonTree)>,
    i: int,
    alias: Seq<char>,
    field: Field,
    other: Field,
)
    requires
        0 <= i < members.len(),
        candidate_keys(field).contains(members[i].0),
        candidate_keys(field).contains(alias),
        forall|j: int|
            0 <= j < members.len() && j != i ==> !candidate_keys(field).contains(
                (#[trigger] members[j]).0,
            ),
    ensures
        resolve_text(
            JsonTree::Object(members.update(i, (alias, members[i].1))),
            candidate_keys(other),
        ) == resolve_text(JsonTree::Object(members), candidate_keys(other)),
        resolve_list(
            JsonTree::Object(members.update(i, (alias, members[i].1))),
            candidate_keys(other),
        ) == resolve_list(JsonTree::Object(members), candidate_keys(other)),
{
    let renamed = members.update(i, (alias, members[i].1));
    let keys = candidate_keys(other);
    let before = JsonTree::Object(members);
    let after = JsonTree::Object(renamed);
    if other == field {
        lemma_lone_member_resolves(members, i, field);
        lemma_lone_member_resolves(renamed, i, field);
    } else {
        assert forall|k: int| 0 <= k < keys.len() implies after.get(#[trigger] keys[k])
            == before.get(keys[k]) by {
            lemma_keys_disjoint(other, field, keys[k]);
            lemma_lookup_rename(members, i, alias, keys[k]);
        }
        lemma_resolve_agree(after, before, keys);
    }
}

/// A row gives the same record whichever of a field's keys the field
/// stands under: where one member alone stands for a field, renaming it
/// to another key of that field changes nothing.
pub proof fn lemma_alias_irrelevant(
    members: Seq<(Seq<char>, JsonTree)>,
    i: int,
    alias: Seq<char>,
    field: Field,
)
    requires
        0 <= i < members.len(),
        candidate_keys(field).contains(members[i].0),
        candidate_keys(field).contains(alias),
        forall|j: int|
            0 <= j < members.len() && j != i ==> !candidate_keys(field).contains(
                (#[trigger] members[j]).0,
            ),
    ensures
        row_record(JsonTree::Object(members.update(i, (alias, members[i].1)))) == row_record(
            JsonTree::Object(members),
        ),
        has_name(JsonTree::Object(members.update(i, (alias, members[i].1)))) == has_name(
            JsonTree::Object(members),
        ),
{
    lemma_alias_keeps_field(members, i, alias, field, Field::Name);
    lemma_alias_keeps_field(members, i, alias, field, Field::Description);
    lemma_alias_keeps_field(members, i, alias, field, Field::LoadState);
    lemma_alias_keeps_field(members, i, alias, field, Field::ActiveState);
    lemma_alias_keeps_field(members, i, alias, field, Field::SubState);
    lemma_alias_keeps_field(members, i, alias, field, Field::UnitFileState);
    lemma_alias_keeps_field(members, i, alias, field, Field::FollowedBy);
}

/// Two listings whose rows stand for the same records, row by row, hold
/// the same records.
pub proof fn lemma_same_rows_same_records(first: Seq<JsonTree>, second: Seq<JsonTree>)
    requires
        first.len() == second.len(),
        forall|i: int| 0 <= i < first.len() ==> row_record(first[i]) == row_record(second[i]),
    ensures
        rows_records(first) == rows_records(second),
{
    lemma_same_rows_upto(first, second, first.len() as int);
    assert(first.take(first.len() as int) == first);
    assert(second.take(second.len() as int) == second);
}

/// Two listings whose first `n` rows stand for the same records, row by
/// row, hold the same records among those rows.
proof fn lemma_same_rows_upto(first: Seq<JsonTree>, second: Seq<JsonTree>, n: int)
    requires
        0 <= n <= first.len(),
        first.len() == second.len(),
        forall|i: int| 0 <= i < first.len() ==> row_record(first[i]) == row_record(second[i]),
    ensures
        rows_records(first.take(n)) == rows_records(second.take(n)),
    decreases n,
{
    if n > 0 {
        lemma_same_rows_upto(first, second, n - 1);
        lemma_rows_records_step(first, n - 1);
        lemma_rows_records_step(second, n - 1);
    }
}

} // verus!
