//! The diff model: parsing a diff payload into categories of added, removed
//! and changed items, flattening change trees, and extracting the display
//! properties of an item.

use vstd::prelude::*;
use crate::json::{
    json_text, str_eq,
    display, field, lemma_items_view, lemma_members_view, lookup, members_view, opt_view, Json, JsonV,
};

verus! {

/// One scalar field that changed: a dotted path and the two display values.
#[derive(Debug)]
pub struct FieldChange {
    pub field_path: String,
    pub old: String,
    pub new: String,
}

/// One list-valued field that changed: the display values that were added
/// to it and those that were removed from it.
#[derive(Debug)]
pub struct NestedFieldDiff {
    pub field_path: String,
    pub added: Vec<String>,
    pub removed: Vec<String>,
}

/// An entity present on both sides of a diff, with its field changes.
#[derive(Debug)]
pub struct ChangedItem {
    pub code: String,
    pub changes: Vec<FieldChange>,
    pub nested_diffs: Vec<NestedFieldDiff>,
}

/// The changes of one category.
#[derive(Debug)]
pub struct CategoryDiff {
    pub added: Vec<Json>,
    pub removed: Vec<Json>,
    pub changed: Vec<ChangedItem>,
}

/// A whole diff: each category with its changes, in the payload's order.
/// The order carries no meaning: renderings sort the categories by name.
#[derive(Debug)]
pub struct DiffReport {
    pub categories: Vec<(String, CategoryDiff)>,
}

/// Why a diff payload could not be read.
#[derive(Debug, PartialEq, Eq)]
pub enum DiffError {
    /// The payload is not an object.
    RootNotObject,
    /// The value of this category is not an object.
    CategoryNotObject(String),
}

pub struct ChangeV {
    pub path: Seq<char>,
    pub old: Seq<char>,
    pub new: Seq<char>,
}

pub struct NestedV {
    pub path: Seq<char>,
    pub added: Seq<Seq<char>>,
    pub removed: Seq<Seq<char>>,
}

/// What flattening a change tree yields.
pub struct Flat {
    pub changes: Seq<ChangeV>,
    pub nested: Seq<NestedV>,
}

pub struct ChangedItemV {
    pub code: Seq<char>,
    pub changes: Seq<ChangeV>,
    pub nested: Seq<NestedV>,
}

pub struct CategoryDiffV {
    pub added: Seq<JsonV>,
    pub removed: Seq<JsonV>,
    pub changed: Seq<ChangedItemV>,
}

pub open spec fn strings_view(v: Seq<String>) -> Seq<Seq<char>> {
    v.map_values(|s: String| s@)
}

impl View for FieldChange {
    type V = ChangeV;

    open spec fn view(&self) -> ChangeV {
        ChangeV { path: self.field_path@, old: self.old@, new: self.new@ }
    }
}

impl View for NestedFieldDiff {
    type V = NestedV;

    open spec fn view(&self) -> NestedV {
        NestedV {
            path: self.field_path@,
            added: strings_view(self.added@),
            removed: strings_view(self.removed@),
        }
    }
}

pub open spec fn changes_view(v: Seq<FieldChange>) -> Seq<ChangeV> {
    v.map_values(|c: FieldChange| c@)
}

pub open spec fn nested_view(v: Seq<NestedFieldDiff>) -> Seq<NestedV> {
    v.map_values(|c: NestedFieldDiff| c@)
}

impl View for ChangedItem {
    type V = ChangedItemV;

    open spec fn view(&self) -> ChangedItemV {
        ChangedItemV {
            code: self.code@,
            changes: changes_view(self.changes@),
            nested: nested_view(self.nested_diffs@),
        }
    }
}

pub open spec fn changed_view(v: Seq<ChangedItem>) -> Seq<ChangedItemV> {
    v.map_values(|c: ChangedItem| c@)
}

pub open spec fn jsons_view(v: Seq<Json>) -> Seq<JsonV> {
    v.map_values(|j: Json| j@)
}

impl View for CategoryDiff {
    type V = CategoryDiffV;

    open spec fn view(&self) -> CategoryDiffV {
        CategoryDiffV {
            added: jsons_view(self.added@),
            removed: jsons_view(self.removed@),
            changed: changed_view(self.changed@),
        }
    }
}

impl View for DiffReport {
    type V = Seq<(Seq<char>, CategoryDiffV)>;

    open spec fn view(&self) -> Seq<(Seq<char>, CategoryDiffV)> {
        self.categories@.map_values(|c: (String, CategoryDiff)| (c.0@, c.1@))
    }
}

impl DiffReport {
    /// Category names are unique.
    pub open spec fn wf(&self) -> bool {
        forall|i: int, j: int|
            0 <= i < j < self@.len() ==> #[trigger] self@[i].0 != #[trigger] self@[j].0
    }
}

pub open spec fn flat_empty() -> Flat {
    Flat { changes: Seq::empty(), nested: Seq::empty() }
}

pub open spec fn flat_concat(a: Flat, b: Flat) -> Flat {
    Flat { changes: a.changes + b.changes, nested: a.nested + b.nested }
}

/// The display values of the items of an array; none for anything else.
pub open spec fn display_list(o: Option<JsonV>) -> Seq<Seq<char>> {
    match o {
        Some(JsonV::Array(items)) => items.map_values(|x: JsonV| display(x)),
        _ => Seq::empty(),
    }
}

pub open spec fn is_array_member(o: Option<JsonV>) -> bool {
    match o {
        Some(JsonV::Array(_)) => true,
        _ => false,
    }
}

/// A node with both `old` and `new` is a scalar change.
pub open spec fn is_leaf_node(m: Seq<(Seq<char>, JsonV)>) -> bool {
    lookup(m, "old"@) is Some && lookup(m, "new"@) is Some
}

/// A node whose `added` or `removed` is an array is a list change.
pub open spec fn is_list_node(m: Seq<(Seq<char>, JsonV)>) -> bool {
    is_array_member(lookup(m, "added"@)) || is_array_member(lookup(m, "removed"@))
}

/// The flattening of the change node `v` found at path `prefix`: a leaf
/// gives one scalar change, a list node one list change, any other object
/// the flattenings of its members at `prefix.name`, and a value that is not
/// an object nothing.
pub open spec fn flatten(prefix: Seq<char>, v: JsonV) -> Flat
    decreases v, 0nat,
{
    match v {
        JsonV::Object(m) => {
            if is_leaf_node(m) {
                Flat {
                    changes: seq![
                        ChangeV {
                            path: prefix,
                            old: display(lookup(m, "old"@)->0),
                            new: display(lookup(m, "new"@)->0),
                        },
                    ],
                    nested: Seq::empty(),
                }
            } else if is_list_node(m) {
                Flat {
                    changes: Seq::empty(),
                    nested: seq![
                        NestedV {
                            path: prefix,
                            added: display_list(lookup(m, "added"@)),
                            removed: display_list(lookup(m, "removed"@)),
                        },
                    ],
                }
            } else {
                flatten_members(prefix, m, m.len())
            }
        },
        _ => flat_empty(),
    }
}

/// The flattenings of the first `n` members of a node at path `prefix`.
pub open spec fn flatten_members(prefix: Seq<char>, m: Seq<(Seq<char>, JsonV)>, n: nat) -> Flat
    decreases m, n,
{
    if n == 0 || n > m.len() {
        flat_empty()
    } else {
        flat_concat(
            flatten_members(prefix, m, (n - 1) as nat),
            flatten(prefix + "."@ + m[n - 1].0, m[n - 1].1),
        )
    }
}

/// The flattenings of the first `n` members of a `changes` object, each at
/// the path of its own name.
pub open spec fn flatten_fields(m: Seq<(Seq<char>, JsonV)>, n: nat) -> Flat
    decreases n,
{
    if n == 0 || n > m.len() {
        flat_empty()
    } else {
        flat_concat(flatten_fields(m, (n - 1) as nat), flatten(m[n - 1].0, m[n - 1].1))
    }
}


/// The display values of the items of `o` if it is an array; none otherwise.
pub fn display_items(o: Option<&Json>) -> (r: Vec<String>)
    ensures
        strings_view(r@) == display_list(opt_view(o)),
{
    let mut out: Vec<String> = Vec::new();
    match o {
        Some(Json::Array(items)) => {
            proof {
                lemma_items_view(*items, items.len() as nat);
            }
            let mut i: usize = 0;
            while i < items.len()
                invariant
                    i <= items.len(),
                    out.len() == i,
                    forall|j: int| 0 <= j < i ==> #[trigger] out[j]@ == display(items[j]@),
                decreases items.len() - i,
            {
                let d = items[i].display_string();
                out.push(d);
                i = i + 1;
            }
            assert(strings_view(out@) =~= display_list(opt_view(o)));
        },
        _ => {
            assert(strings_view(out@) =~= display_list(opt_view(o)));
        },
    }
    out
}

/// Appends to `out` the scalar changes and to `nested_out` the list changes
/// that the change node `value`, found at path `prefix`, holds.
pub fn flatten_changes(
    prefix: &str,
    value: &Json,
    out: &mut Vec<FieldChange>,
    nested_out: &mut Vec<NestedFieldDiff>,
)
    ensures
        changes_view(final(out)@) == changes_view(old(out)@) + flatten(prefix@, value@).changes,
        nested_view(final(nested_out)@) == nested_view(old(nested_out)@) + flatten(
            prefix@,
            value@,
        ).nested,
    decreases value,
{
    match value {
        Json::Object(members) => {
            proof {
                lemma_members_view(*members, members.len() as nat);
            }
            let ghost mv = members_view(*members, members.len() as nat);
            let old_value = value.get("old");
            let new_value = value.get("new");
            if let (Some(o), Some(n)) = (old_value, new_value) {
                let change = FieldChange {
                    field_path: prefix.to_owned(),
                    old: o.display_string(),
                    new: n.display_string(),
                };
                let ghost before = out@;
                out.push(change);
                proof {
                    assert(changes_view(out@) =~= changes_view(before) + flatten(prefix@, value@).changes);
                    assert(nested_view(nested_out@) =~= nested_view(nested_out@) + flatten(prefix@, value@).nested);
                }
                return;
            }
            let added = value.get("added");
            let removed = value.get("removed");
            let has_added = match added {
                Some(Json::Array(_)) => true,
                _ => false,
            };
            let has_removed = match removed {
                Some(Json::Array(_)) => true,
                _ => false,
            };
            if has_added || has_removed {
                let diff = NestedFieldDiff {
                    field_path: prefix.to_owned(),
                    added: display_items(added),
                    removed: display_items(removed),
                };
                let ghost before = nested_out@;
                nested_out.push(diff);
                proof {
                    assert(nested_view(nested_out@) =~= nested_view(before) + flatten(prefix@, value@).nested);
                    assert(changes_view(out@) =~= changes_view(out@) + flatten(prefix@, value@).changes);
                }
                return;
            }
            let ghost out0 = out@;
            let ghost nested0 = nested_out@;
            let mut i: usize = 0;
            while i < members.len()
                invariant
                    i <= members.len(),
                    *value == Json::Object(*members),
                    mv == members_view(*members, members.len() as nat),
                    mv.len() == members.len(),
                    forall|j: int| 0 <= j < members.len() ==> #[trigger] mv[j] == (members[j].0@, members[j].1@),
                    changes_view(out@) == changes_view(out0) + flatten_members(prefix@, mv, i as nat).changes,
                    nested_view(nested_out@) == nested_view(nested0) + flatten_members(prefix@, mv, i as nat).nested,
                decreases members.len() - i,
            {
                proof {
                    vstd::std_specs::vec::axiom_vec_index_decreases(*members, i as int);
                    assert(decreases_to!(*value => (*value)->Object_0));
                    assert(decreases_to!(*members => members[i as int]));
                    assert(decreases_to!(members[i as int] => members[i as int].1));
                }
                let mut path = prefix.to_owned();
                path.append(".");
                path.append(members[i].0.as_str());
                let ghost c1 = out@;
                let ghost n1 = nested_out@;
                flatten_changes(path.as_str(), &members[i].1, out, nested_out);
                proof {
                    assert(mv[i as int] == (members[i as int].0@, members[i as int].1@));
                    assert(path@ == prefix@ + "."@ + mv[i as int].0);
                    assert(changes_view(out@) =~= changes_view(out0) + flatten_members(prefix@, mv, (i + 1) as nat).changes);
                    assert(nested_view(nested_out@) =~= nested_view(nested0) + flatten_members(prefix@, mv, (i + 1) as nat).nested);
                }
                i = i + 1;
            }
        },
        _ => {
            proof {
                assert(changes_view(out@) =~= changes_view(out@) + flatten(prefix@, value@).changes);
                assert(nested_view(nested_out@) =~= nested_view(nested_out@) + flatten(prefix@, value@).nested);
            }
        },
    }
}


/// A changed-item entry: an object with a string `code` and an object
/// `changes`; any other entry is no changed item.
pub open spec fn changed_item_spec(v: JsonV) -> Option<ChangedItemV> {
    match (field(v, "code"@), field(v, "changes"@)) {
        (Some(JsonV::Str(code)), Some(JsonV::Object(m))) => {
            let f = flatten_fields(m, m.len());
            Some(ChangedItemV { code, changes: f.changes, nested: f.nested })
        },
        _ => None,
    }
}

/// Reads one entry of a `changed` array.
pub fn parse_changed_item(value: &Json) -> (r: Option<ChangedItem>)
    ensures
        match r {
            Some(c) => changed_item_spec(value@) == Some(c@),
            None => changed_item_spec(value@) is None,
        },
{
    let code = match value.get("code") {
        Some(Json::Str(c)) => c.clone(),
        _ => return None,
    };
    let members = match value.get("changes") {
        Some(Json::Object(m)) => m,
        _ => return None,
    };
    proof {
        lemma_members_view(*members, members.len() as nat);
    }
    let ghost mv = members_view(*members, members.len() as nat);
    let mut changes: Vec<FieldChange> = Vec::new();
    let mut nested_diffs: Vec<NestedFieldDiff> = Vec::new();
    let mut i: usize = 0;
    while i < members.len()
        invariant
            i <= members.len(),
            mv == members_view(*members, members.len() as nat),
            mv.len() == members.len(),
            forall|j: int| 0 <= j < members.len() ==> #[trigger] mv[j] == (members[j].0@, members[j].1@),
            changes_view(changes@) == flatten_fields(mv, i as nat).changes,
            nested_view(nested_diffs@) == flatten_fields(mv, i as nat).nested,
        decreases members.len() - i,
    {
        flatten_changes(members[i].0.as_str(), &members[i].1, &mut changes, &mut nested_diffs);
        proof {
            assert(mv[i as int] == (members[i as int].0@, members[i as int].1@));
        }
        i = i + 1;
    }
    let item = ChangedItem { code, changes, nested_diffs };
    Some(item)
}

/// The items of an array; none for anything else.
pub open spec fn array_items(o: Option<JsonV>) -> Seq<JsonV> {
    match o {
        Some(JsonV::Array(items)) => items,
        _ => Seq::empty(),
    }
}

/// The changed items that the first `n` entries yield, malformed entries
/// left out.
pub open spec fn changed_items(entries: Seq<JsonV>, n: nat) -> Seq<ChangedItemV>
    decreases n,
{
    if n == 0 || n > entries.len() {
        Seq::empty()
    } else {
        match changed_item_spec(entries[n - 1]) {
            Some(c) => changed_items(entries, (n - 1) as nat).push(c),
            None => changed_items(entries, (n - 1) as nat),
        }
    }
}

/// The changes of one category object.
pub open spec fn category_spec(v: JsonV) -> CategoryDiffV {
    let changed = array_items(field(v, "changed"@));
    CategoryDiffV {
        added: array_items(field(v, "added"@)),
        removed: array_items(field(v, "removed"@)),
        changed: changed_items(changed, changed.len()),
    }
}

/// Copies of the items of `o` if it is an array; none otherwise.
pub fn array_copy(o: Option<&Json>) -> (r: Vec<Json>)
    ensures
        jsons_view(r@) == array_items(opt_view(o)),
{
    let mut out: Vec<Json> = Vec::new();
    match o {
        Some(Json::Array(items)) => {
            proof {
                lemma_items_view(*items, items.len() as nat);
            }
            let mut i: usize = 0;
            while i < items.len()
                invariant
                    i <= items.len(),
                    out.len() == i,
                    forall|j: int| 0 <= j < i ==> #[trigger] out[j]@ == items[j]@,
                decreases items.len() - i,
            {
                let c = items[i].duplicate();
                out.push(c);
                i = i + 1;
            }
            assert(jsons_view(out@) =~= array_items(opt_view(o)));
        },
        _ => {
            assert(jsons_view(out@) =~= array_items(opt_view(o)));
        },
    }
    out
}

/// Reads one category object.
pub fn parse_category(value: &Json) -> (r: CategoryDiff)
    ensures
        r@ == category_spec(value@),
{
    let added = array_copy(value.get("added"));
    let removed = array_copy(value.get("removed"));
    let mut changed: Vec<ChangedItem> = Vec::new();
    let entries = value.get("changed");
    let ghost ev = array_items(opt_view(entries));
    match entries {
        Some(Json::Array(items)) => {
            proof {
                lemma_items_view(*items, items.len() as nat);
            }
            let mut i: usize = 0;
            while i < items.len()
                invariant
                    i <= items.len(),
                    ev.len() == items.len(),
                    forall|j: int| 0 <= j < items.len() ==> #[trigger] ev[j] == items[j]@,
                    changed_view(changed@) == changed_items(ev, i as nat),
                decreases items.len() - i,
            {
                let parsed = parse_changed_item(&items[i]);
                let ghost before = changed@;
                match parsed {
                    Some(c) => {
                        changed.push(c);
                        proof {
                            assert(changed_view(changed@) =~= changed_view(before).push(changed@.last()@));
                        }
                    },
                    None => {},
                }
                proof {
                    assert(ev[i as int] == items[i as int]@);
                }
                i = i + 1;
            }
        },
        _ => {
            assert(changed_view(changed@) =~= changed_items(ev, ev.len()));
        },
    }
    CategoryDiff { added, removed, changed }
}

/// The name of the first of the first `n` members whose value is not an object.
pub open spec fn first_non_object(m: Seq<(Seq<char>, JsonV)>, n: nat) -> Option<Seq<char>>
    decreases n,
{
    if n == 0 || n > m.len() {
        None
    } else {
        match first_non_object(m, (n - 1) as nat) {
            Some(k) => Some(k),
            None => match m[n - 1].1 {
                JsonV::Object(_) => None,
                _ => Some(m[n - 1].0),
            },
        }
    }
}

/// No two members share a name.
pub open spec fn keys_unique(m: Seq<(Seq<char>, JsonV)>) -> bool {
    forall|i: int, j: int| 0 <= i < j < m.len() ==> #[trigger] m[i].0 != #[trigger] m[j].0
}

/// Reads a diff payload: an object from category name to category object,
/// each with optional `added`, `removed` and `changed` arrays. An array
/// that is missing or is no array counts as empty; a changed entry without
/// a string `code` or an object `changes` is left out.
pub fn parse_diff_data(root: &Json) -> (r: Result<DiffReport, DiffError>)
    ensures
        match root@ {
            JsonV::Object(m) => match first_non_object(m, m.len()) {
                Some(name) => r matches Err(DiffError::CategoryNotObject(n)) && n@ == name,
                None => r matches Ok(report) && report@ == m.map_values(
                    |e: (Seq<char>, JsonV)| (e.0, category_spec(e.1)),
                ) && (keys_unique(m) ==> report.wf()),
            },
            _ => r matches Err(DiffError::RootNotObject),
        },
{
    let members = match root {
        Json::Object(m) => m,
        _ => return Err(DiffError::RootNotObject),
    };
    proof {
        lemma_members_view(*members, members.len() as nat);
    }
    let ghost mv = members_view(*members, members.len() as nat);
    let mut categories: Vec<(String, CategoryDiff)> = Vec::new();
    let mut i: usize = 0;
    while i < members.len()
        invariant
            i <= members.len(),
            *root == Json::Object(*members),
            mv == members_view(*members, members.len() as nat),
            mv.len() == members.len(),
            forall|j: int| 0 <= j < members.len() ==> #[trigger] mv[j] == (members[j].0@, members[j].1@),
            first_non_object(mv, i as nat) is None,
            categories.len() == i,
            forall|j: int| 0 <= j < i ==> #[trigger] categories[j].0@ == mv[j].0
                && categories[j].1@ == category_spec(mv[j].1),
        decreases members.len() - i,
    {
        assert(mv[i as int] == (members[i as int].0@, members[i as int].1@));
        match &members[i].1 {
            Json::Object(_) => {},
            _ => {
                proof {
                    lemma_first_non_object_stays(mv, (i + 1) as nat, mv.len());
                }
                return Err(DiffError::CategoryNotObject(members[i].0.clone()));
            },
        }
        let cat = parse_category(&members[i].1);
        categories.push((members[i].0.clone(), cat));
        i = i + 1;
    }
    let report = DiffReport { categories };
    proof {
        assert(report@ =~= mv.map_values(|e: (Seq<char>, JsonV)| (e.0, category_spec(e.1))));
    }
    Ok(report)
}

proof fn lemma_first_non_object_stays(m: Seq<(Seq<char>, JsonV)>, i: nat, n: nat)
    requires
        i <= n <= m.len(),
        first_non_object(m, i) is Some,
    ensures
        first_non_object(m, n) == first_non_object(m, i),
    decreases n,
{
    if n > i {
        lemma_first_non_object_stays(m, i, (n - 1) as nat);
    }
}


pub open spec fn pairs_view(v: Seq<(String, String)>) -> Seq<(Seq<char>, Seq<char>)> {
    v.map_values(|p: (String, String)| (p.0@, p.1@))
}

/// A priority field `f`, unless it is missing or noise.
pub open spec fn priority_entry(m: Seq<(Seq<char>, JsonV)>, f: Seq<char>) -> Seq<(Seq<char>, Seq<char>)> {
    match lookup(m, f) {
        Some(x) => if is_noise(x) {
            Seq::empty()
        } else {
            seq![(f, display(x))]
        },
        None => Seq::empty(),
    }
}

/// One entry per locale among the first `n` members of a labels object,
/// noise left out.
pub open spec fn label_entries(l: Seq<(Seq<char>, JsonV)>, n: nat) -> Seq<(Seq<char>, Seq<char>)>
    decreases n,
{
    if n == 0 || n > l.len() {
        Seq::empty()
    } else if is_noise(l[n - 1].1) {
        label_entries(l, (n - 1) as nat)
    } else {
        label_entries(l, (n - 1) as nat).push(("label ("@ + l[n - 1].0 + ")"@, display(l[n - 1].1)))
    }
}

pub open spec fn labels_of(m: Seq<(Seq<char>, JsonV)>) -> Seq<(Seq<char>, Seq<char>)> {
    match lookup(m, "labels"@) {
        Some(JsonV::Object(l)) => label_entries(l, l.len()),
        _ => Seq::empty(),
    }
}

/// Fields that are covered elsewhere or are structural.
pub open spec fn is_skipped_key(k: Seq<char>) -> bool {
    k == "code"@
        || k == "type"@
        || k == "group"@
        || k == "labels"@
        || k == "group_labels"@
        || k == "attributes"@
        || k == "decimal_places"@
        || k == "default_value"@
        || k == "display_time"@
        || k == "is_read_only"@
        || k == "max_characters"@
        || k == "max_file_size"@
        || k == "max_items_count"@
        || k == "minimum_input_length"@
        || k == "number_max"@
        || k == "number_min"@
        || k == "reference_data_name"@
        || k == "validation_rule"@
}

/// Null, `false`, an empty array and an empty object say nothing.
pub open spec fn is_noise(v: JsonV) -> bool {
    match v {
        JsonV::Null => true,
        JsonV::Bool(b) => !b,
        JsonV::Array(a) => a.len() == 0,
        JsonV::Object(o) => o.len() == 0,
        _ => false,
    }
}

/// The remaining fields among the first `n` members, in their order.
pub open spec fn other_entries(m: Seq<(Seq<char>, JsonV)>, n: nat) -> Seq<(Seq<char>, Seq<char>)>
    decreases n,
{
    if n == 0 || n > m.len() {
        Seq::empty()
    } else if is_skipped_key(m[n - 1].0) || is_noise(m[n - 1].1) {
        other_entries(m, (n - 1) as nat)
    } else {
        other_entries(m, (n - 1) as nat).push((m[n - 1].0, display(m[n - 1].1)))
    }
}

/// The entries an object offers: `code`, `type` and `group` first, then
/// one entry per label locale, then the other fields that are not skipped;
/// noise left out throughout.
pub open spec fn candidate_properties(m: Seq<(Seq<char>, JsonV)>) -> Seq<(Seq<char>, Seq<char>)> {
    priority_entry(m, "code"@) + priority_entry(m, "type"@) + priority_entry(m, "group"@) + labels_of(
        m,
    ) + other_entries(m, m.len())
}

/// Some entry among `ps` has the key `k`.
pub open spec fn has_key(ps: Seq<(Seq<char>, Seq<char>)>, k: Seq<char>) -> bool {
    exists|i: int| 0 <= i < ps.len() && #[trigger] ps[i].0 == k
}

/// The first `n` entries, each left out whose key an earlier one holds.
pub open spec fn keep_first(ps: Seq<(Seq<char>, Seq<char>)>, n: nat) -> Seq<(Seq<char>, Seq<char>)>
    decreases n,
{
    if n == 0 || n > ps.len() {
        Seq::empty()
    } else {
        let prev = keep_first(ps, (n - 1) as nat);
        if has_key(prev, ps[n - 1].0) {
            prev
        } else {
            prev.push(ps[n - 1])
        }
    }
}

/// No two entries share a key.
pub open spec fn keys_distinct(ps: Seq<(Seq<char>, Seq<char>)>) -> bool {
    forall|i: int, j: int| 0 <= i < j < ps.len() ==> #[trigger] ps[i].0 != #[trigger] ps[j].0
}

/// The display properties of an item: the candidate entries of an object,
/// each key once (its first entry). A value that is not an object gives the
/// one entry `value` with its JSON text.
pub open spec fn properties(v: JsonV) -> Seq<(Seq<char>, Seq<char>)> {
    match v {
        JsonV::Object(m) => keep_first(candidate_properties(m), candidate_properties(m).len()),
        _ => seq![("value"@, json_text(v))],
    }
}

proof fn lemma_keep_first_distinct(ps: Seq<(Seq<char>, Seq<char>)>, n: nat)
    ensures
        keys_distinct(keep_first(ps, n)),
    decreases n,
{
    if n > 0 && n <= ps.len() {
        lemma_keep_first_distinct(ps, (n - 1) as nat);
        let prev = keep_first(ps, (n - 1) as nat);
        if !has_key(prev, ps[n - 1].0) {
            let next = prev.push(ps[n - 1]);
            assert forall|i: int, j: int| 0 <= i < j < next.len() implies #[trigger] next[i].0
                != #[trigger] next[j].0 by {
                if j == prev.len() {
                    assert(prev[i].0 == next[i].0);
                }
            }
        }
    }
}

/// No two entries of the properties of an item share a key.
pub proof fn lemma_property_keys_distinct(m: Seq<(Seq<char>, JsonV)>)
    ensures
        keys_distinct(properties(JsonV::Object(m))),
{
    lemma_keep_first_distinct(candidate_properties(m), candidate_properties(m).len());
}

pub fn is_skipped_field(k: &str) -> (r: bool)
    ensures
        r == is_skipped_key(k@),
{
    str_eq(k, "code")
        || str_eq(k, "type")
        || str_eq(k, "group")
        || str_eq(k, "labels")
        || str_eq(k, "group_labels")
        || str_eq(k, "attributes")
        || str_eq(k, "decimal_places")
        || str_eq(k, "default_value")
        || str_eq(k, "display_time")
        || str_eq(k, "is_read_only")
        || str_eq(k, "max_characters")
        || str_eq(k, "max_file_size")
        || str_eq(k, "max_items_count")
        || str_eq(k, "minimum_input_length")
        || str_eq(k, "number_max")
        || str_eq(k, "number_min")
        || str_eq(k, "reference_data_name")
        || str_eq(k, "validation_rule")
}

pub fn is_noise_value(v: &Json) -> (r: bool)
    ensures
        r == is_noise(v@),
{
    match v {
        Json::Null => true,
        Json::Bool(b) => !*b,
        Json::Array(items) => {
            proof {
                lemma_items_view(*items, items.len() as nat);
            }
            items.len() == 0
        },
        Json::Object(members) => {
            proof {
                lemma_members_view(*members, members.len() as nat);
            }
            members.len() == 0
        },
        _ => false,
    }
}

fn push_priority(item: &Json, f: &str, props: &mut Vec<(String, String)>)
    requires
        item@ is Object,
    ensures
        pairs_view(final(props)@) == pairs_view(old(props)@) + priority_entry(item@->Object_0, f@),
{
    let ghost before = props@;
    match item.get(f) {
        Some(x) => {
            if !is_noise_value(x) {
                props.push((f.to_owned(), x.display_string()));
            }
        },
        None => {},
    }
    assert(pairs_view(props@) =~= pairs_view(before) + priority_entry(item@->Object_0, f@));
}

/// The display properties of an item, as `properties` states them.
pub fn extract_item_properties(item: &Json) -> (r: Vec<(String, String)>)
    ensures
        pairs_view(r@) == properties(item@),
        keys_distinct(pairs_view(r@)),
{
    let members = match item {
        Json::Object(m) => m,
        _ => {
            let r = vec![("value".to_owned(), item.to_json_text())];
            proof {
                reveal_strlit("value");
                assert(pairs_view(r@) =~= properties(item@));
            }
            return r;
        },
    };
    proof {
        lemma_members_view(*members, members.len() as nat);
    }
    let ghost mv = members_view(*members, members.len() as nat);
    let mut props: Vec<(String, String)> = Vec::new();
    push_priority(item, "code", &mut props);
    push_priority(item, "type", &mut props);
    push_priority(item, "group", &mut props);
    let ghost head = pairs_view(props@);
    match item.get("labels") {
        Some(Json::Object(labels)) => {
            proof {
                lemma_members_view(*labels, labels.len() as nat);
            }
            let ghost lv = members_view(*labels, labels.len() as nat);
            let mut i: usize = 0;
            while i < labels.len()
                invariant
                    i <= labels.len(),
                    lv.len() == labels.len(),
                    forall|j: int| 0 <= j < labels.len() ==> #[trigger] lv[j] == (labels[j].0@, labels[j].1@),
                    pairs_view(props@) == head + label_entries(lv, i as nat),
                decreases labels.len() - i,
            {
                assert(lv[i as int] == (labels[i as int].0@, labels[i as int].1@));
                if !is_noise_value(&labels[i].1) {
                    let mut name = "label (".to_owned();
                    name.append(labels[i].0.as_str());
                    name.append(")");
                    let ghost before = props@;
                    props.push((name, labels[i].1.display_string()));
                    proof {
                        assert(pairs_view(props@) =~= pairs_view(before).push(("label ("@ + lv[i as int].0 + ")"@, display(lv[i as int].1))));
                    }
                }
                i = i + 1;
            }
        },
        _ => {
            assert(pairs_view(props@) =~= head + labels_of(mv));
        },
    }
    let ghost with_labels = pairs_view(props@);
    assert(with_labels == head + labels_of(mv));
    let mut i: usize = 0;
    while i < members.len()
        invariant
            i <= members.len(),
            mv.len() == members.len(),
            forall|j: int| 0 <= j < members.len() ==> #[trigger] mv[j] == (members[j].0@, members[j].1@),
            pairs_view(props@) == with_labels + other_entries(mv, i as nat),
        decreases members.len() - i,
    {
        assert(mv[i as int] == (members[i as int].0@, members[i as int].1@));
        let key = members[i].0.as_str();
        if !is_skipped_field(key) && !is_noise_value(&members[i].1) {
            let ghost before = props@;
            props.push((members[i].0.clone(), members[i].1.display_string()));
            proof {
                assert(pairs_view(props@) =~= pairs_view(before).push((mv[i as int].0, display(mv[i as int].1))));
            }
        }
        i = i + 1;
    }
    let ghost cands = pairs_view(props@);
    assert(cands =~= candidate_properties(mv));
    let mut kept: Vec<(String, String)> = Vec::new();
    let mut i: usize = 0;
    while i < props.len()
        invariant
            i <= props.len(),
            cands == pairs_view(props@),
            pairs_view(kept@) == keep_first(cands, i as nat),
        decreases props.len() - i,
    {
        let ghost prev = pairs_view(kept@);
        let mut found = false;
        let mut k: usize = 0;
        while k < kept.len()
            invariant
                k <= kept.len(),
                prev == pairs_view(kept@),
                i < props.len(),
                cands == pairs_view(props@),
                found == (exists|j: int| 0 <= j < k && #[trigger] prev[j].0 == cands[i as int].0),
            decreases kept.len() - k,
        {
            if str_eq(kept[k].0.as_str(), props[i].0.as_str()) {
                found = true;
            }
            assert(prev[k as int].0 == kept[k as int].0@);
            k = k + 1;
        }
        assert(found == has_key(prev, cands[i as int].0));
        if !found {
            kept.push((props[i].0.clone(), props[i].1.clone()));
            assert(pairs_view(kept@) =~= prev.push(cands[i as int]));
        }
        i = i + 1;
    }
    proof {
        lemma_keep_first_distinct(cands, cands.len());
    }
    kept
}


/// Flattening is a function of the path and the tree alone: flattening one
/// tree twice gives the same scalar and list changes, in the same order.
pub proof fn lemma_flatten_deterministic(prefix: Seq<char>, first: JsonV, second: JsonV)
    requires
        first == second,
    ensures
        flatten(prefix, first).changes == flatten(prefix, second).changes,
        flatten(prefix, first).nested == flatten(prefix, second).nested,
{
}

/// A node that holds `old` and `new` as well as `added` and `removed` is
/// one scalar change at its path, and never a list change.
pub proof fn lemma_leaf_precedence(prefix: Seq<char>, m: Seq<(Seq<char>, JsonV)>)
    requires
        lookup(m, "old"@) is Some,
        lookup(m, "new"@) is Some,
        lookup(m, "added"@) is Some,
        lookup(m, "removed"@) is Some,
    ensures
        flatten(prefix, JsonV::Object(m)).changes == seq![
            ChangeV {
                path: prefix,
                old: display(lookup(m, "old"@)->0),
                new: display(lookup(m, "new"@)->0),
            },
        ],
        flatten(prefix, JsonV::Object(m)).nested.len() == 0,
{
}

} // verus!
