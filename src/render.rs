//! Rendering of a diff report as one page in the storage (XHTML) format.

use vstd::prelude::*;
use crate::diff::{
    extract_item_properties, pairs_view, properties, CategoryDiff, CategoryDiffV, ChangeV,
    ChangedItem, ChangedItemV, DiffReport, NestedV, jsons_view, changed_view,
    strings_view,
};
use crate::json::{str_eq, Json, JsonV};
use crate::markup::{badge_text, info_panel, info_panel_text, lozenge_text, status_badge, status_lozenge};
use crate::text::{
    capitalize, capitalized, escape, escape_html, is_stable_sort, lemma_sorted_order, lower_of,
    push_escaped, sorted_order, stable_sort_order, to_lower,
};

verus! {

pub open spec fn table_open() -> Seq<char> {
    "<table data-layout=\"full-width\"><tbody>"@
}

pub open spec fn table_close() -> Seq<char> {
    "</tbody></table>"@
}

/// The escaped texts of `list`, separated by `, `.
pub open spec fn joined_escaped(list: Seq<Seq<char>>, n: nat) -> Seq<char>
    decreases n,
{
    if n == 0 || n > list.len() {
        Seq::empty()
    } else if n == 1 {
        escape(list[0])
    } else {
        joined_escaped(list, (n - 1) as nat) + ", "@ + escape(list[n - 1])
    }
}

pub open spec fn change_row(code: Seq<char>, c: ChangeV) -> Seq<char> {
    "<tr><td><code>"@ + escape(code) + "</code></td><td><code>"@ + escape(c.path)
        + "</code></td><td><span style=\"color: red;\">"@ + escape(c.old)
        + "</span></td><td><span style=\"color: green;\">"@ + escape(c.new) + "</span></td></tr>"@
}

/// Rows for the additions and the removals of a list change; none for an
/// empty side.
pub open spec fn nested_rows(code: Seq<char>, d: NestedV) -> Seq<char> {
    (if d.added.len() > 0 {
        "<tr><td><code>"@ + escape(code) + "</code></td><td><code>"@ + escape(d.path)
            + ".added</code></td><td></td><td><span style=\"color: green;\">"@ + joined_escaped(
            d.added,
            d.added.len(),
        ) + "</span></td></tr>"@
    } else {
        Seq::empty()
    }) + (if d.removed.len() > 0 {
        "<tr><td><code>"@ + escape(code) + "</code></td><td><code>"@ + escape(d.path)
            + ".removed</code></td><td><span style=\"color: red;\">"@ + joined_escaped(
            d.removed,
            d.removed.len(),
        ) + "</span></td><td></td></tr>"@
    } else {
        Seq::empty()
    })
}

pub open spec fn change_rows(code: Seq<char>, cs: Seq<ChangeV>, n: nat) -> Seq<char>
    decreases n,
{
    if n == 0 || n > cs.len() {
        Seq::empty()
    } else {
        change_rows(code, cs, (n - 1) as nat) + change_row(code, cs[n - 1])
    }
}

pub open spec fn all_nested_rows(code: Seq<char>, ds: Seq<NestedV>, n: nat) -> Seq<char>
    decreases n,
{
    if n == 0 || n > ds.len() {
        Seq::empty()
    } else {
        all_nested_rows(code, ds, (n - 1) as nat) + nested_rows(code, ds[n - 1])
    }
}

pub open spec fn item_rows(it: ChangedItemV) -> Seq<char> {
    change_rows(it.code, it.changes, it.changes.len()) + all_nested_rows(
        it.code,
        it.nested,
        it.nested.len(),
    )
}

pub open spec fn changed_rows(items: Seq<ChangedItemV>, n: nat) -> Seq<char>
    decreases n,
{
    if n == 0 || n > items.len() {
        Seq::empty()
    } else {
        changed_rows(items, (n - 1) as nat) + item_rows(items[n - 1])
    }
}

/// The changed-items section: a heading with the count, then a table of
/// code, field, old and new value, with a row per side of each list change.
pub open spec fn changed_section_text(items: Seq<ChangedItemV>) -> Seq<char> {
    "<h3>"@ + lozenge_text(items.len(), "Yellow"@) + " Changed</h3>"@ + if items.len() == 0 {
        "<p><em>No changes.</em></p>"@
    } else {
        table_open() + "<tr><th>Code</th><th>Field</th><th>Old Value</th><th>New Value</th></tr>"@
            + changed_rows(items, items.len()) + table_close()
    }
}

pub fn join_escaped(list: &Vec<String>) -> (r: String)
    ensures
        r@ == joined_escaped(strings_view(list@), list.len() as nat),
{
    let ghost lv = strings_view(list@);
    let mut out = String::new();
    let mut i: usize = 0;
    while i < list.len()
        invariant
            i <= list.len(),
            lv == strings_view(list@),
            out@ == joined_escaped(lv, i as nat),
        decreases list.len() - i,
    {
        if i > 0 {
            out.append(", ");
        }
        push_escaped(&mut out, list[i].as_str());
        proof {
            if i == 0 {
                assert(out@ =~= joined_escaped(lv, 1));
            } else {
                assert(out@ =~= joined_escaped(lv, (i + 1) as nat));
            }
        }
        i = i + 1;
    }
    out
}

fn change_row_string(code: &str, c: &crate::diff::FieldChange) -> (r: String)
    ensures
        r@ == change_row(code@, c@),
{
    let mut out = "<tr><td><code>".to_owned();
    push_escaped(&mut out, code);
    out.append("</code></td><td><code>");
    push_escaped(&mut out, c.field_path.as_str());
    out.append("</code></td><td><span style=\"color: red;\">");
    push_escaped(&mut out, c.old.as_str());
    out.append("</span></td><td><span style=\"color: green;\">");
    push_escaped(&mut out, c.new.as_str());
    out.append("</span></td></tr>");
    out
}

fn nested_rows_string(code: &str, d: &crate::diff::NestedFieldDiff) -> (r: String)
    ensures
        r@ == nested_rows(code@, d@),
{
    let mut out = if d.added.len() > 0 {
        let mut row = "<tr><td><code>".to_owned();
        push_escaped(&mut row, code);
        row.append("</code></td><td><code>");
        push_escaped(&mut row, d.field_path.as_str());
        row.append(".added</code></td><td></td><td><span style=\"color: green;\">");
        let joined = join_escaped(&d.added);
        row.append(joined.as_str());
        row.append("</span></td></tr>");
        row
    } else {
        String::new()
    };
    if d.removed.len() > 0 {
        let mut row = "<tr><td><code>".to_owned();
        push_escaped(&mut row, code);
        row.append("</code></td><td><code>");
        push_escaped(&mut row, d.field_path.as_str());
        row.append(".removed</code></td><td><span style=\"color: red;\">");
        let joined = join_escaped(&d.removed);
        row.append(joined.as_str());
        row.append("</span></td><td></td></tr>");
        out.append(row.as_str());
    } else {
        let empty = String::new();
        out.append(empty.as_str());
    }
    out
}

fn item_rows_string(item: &ChangedItem) -> (r: String)
    ensures
        r@ == item_rows(item@),
{
    let ghost iv = item@;
    let mut rows = String::new();
    let mut i: usize = 0;
    while i < item.changes.len()
        invariant
            i <= item.changes.len(),
            iv == item@,
            rows@ == change_rows(iv.code, iv.changes, i as nat),
        decreases item.changes.len() - i,
    {
        let row = change_row_string(item.code.as_str(), &item.changes[i]);
        rows.append(row.as_str());
        assert(iv.changes[i as int] == item.changes[i as int]@);
        i = i + 1;
    }
    let mut nested = String::new();
    let mut k: usize = 0;
    while k < item.nested_diffs.len()
        invariant
            k <= item.nested_diffs.len(),
            iv == item@,
            nested@ == all_nested_rows(iv.code, iv.nested, k as nat),
        decreases item.nested_diffs.len() - k,
    {
        let row = nested_rows_string(item.code.as_str(), &item.nested_diffs[k]);
        nested.append(row.as_str());
        assert(iv.nested[k as int] == item.nested_diffs[k as int]@);
        k = k + 1;
    }
    rows.append(nested.as_str());
    rows
}

/// The changed-items section of a category.
pub fn render_changed_section(items: &Vec<ChangedItem>) -> (r: String)
    ensures
        r@ == changed_section_text(changed_view(items@)),
{
    let ghost iv = changed_view(items@);
    let mut out = "<h3>".to_owned();
    let lozenge = status_lozenge(items.len(), "Yellow");
    out.append(lozenge.as_str());
    out.append(" Changed</h3>");
    if items.len() == 0 {
        out.append("<p><em>No changes.</em></p>");
        return out;
    }
    out.append("<table data-layout=\"full-width\"><tbody>");
    out.append("<tr><th>Code</th><th>Field</th><th>Old Value</th><th>New Value</th></tr>");
    let mut rows = String::new();
    let mut i: usize = 0;
    while i < items.len()
        invariant
            i <= items.len(),
            iv == changed_view(items@),
            rows@ == changed_rows(iv, i as nat),
        decreases items.len() - i,
    {
        let r = item_rows_string(&items[i]);
        rows.append(r.as_str());
        assert(iv[i as int] == items[i as int]@);
        i = i + 1;
    }
    out.append(rows.as_str());
    out.append("</tbody></table>");
    out
}


/// `cols` followed by the keys of the first `n` properties that it does
/// not hold yet, in their order.
pub open spec fn add_keys(
    cols: Seq<Seq<char>>,
    props: Seq<(Seq<char>, Seq<char>)>,
    n: nat,
) -> Seq<Seq<char>>
    decreases n,
{
    if n == 0 || n > props.len() {
        cols
    } else {
        let c = add_keys(cols, props, (n - 1) as nat);
        if c.contains(props[n - 1].0) {
            c
        } else {
            c.push(props[n - 1].0)
        }
    }
}

proof fn lemma_add_keys(cols: Seq<Seq<char>>, props: Seq<(Seq<char>, Seq<char>)>, n: nat)
    requires
        n <= props.len(),
        forall|a: int, b: int| 0 <= a < b < cols.len() ==> cols[a] != cols[b],
    ensures
        add_keys(cols, props, n).len() >= cols.len(),
        add_keys(cols, props, n).subrange(0, cols.len() as int) == cols,
        forall|k: int| 0 <= k < n ==> add_keys(cols, props, n).contains(#[trigger] props[k].0),
        forall|a: int, b: int|
            0 <= a < b < add_keys(cols, props, n).len() ==> add_keys(cols, props, n)[a] != add_keys(
                cols,
                props,
                n,
            )[b],
        forall|c: int|
            0 <= c < add_keys(cols, props, n).len() ==> cols.contains(
                #[trigger] add_keys(cols, props, n)[c],
            ) || exists|k: int| 0 <= k < n && props[k].0 == add_keys(cols, props, n)[c],
    decreases n,
{
    if n == 0 {
        assert(cols.subrange(0, cols.len() as int) =~= cols);
        assert forall|c: int| 0 <= c < cols.len() implies cols.contains(#[trigger] cols[c]) by {}
    } else {
        lemma_add_keys(cols, props, (n - 1) as nat);
        let prev = add_keys(cols, props, (n - 1) as nat);
        let key = props[n - 1].0;
        if !prev.contains(key) {
            let next = prev.push(key);
            assert(next.subrange(0, cols.len() as int) =~= prev.subrange(0, cols.len() as int));
            assert forall|k: int| 0 <= k < n implies next.contains(#[trigger] props[k].0) by {
                if k < n - 1 {
                    let j = choose|j: int| 0 <= j < prev.len() && prev[j] == props[k].0;
                    assert(next[j] == props[k].0);
                } else {
                    assert(next[prev.len() as int] == key);
                }
            }
            assert forall|c: int| 0 <= c < next.len() implies cols.contains(#[trigger] next[c]) || exists|
                k: int,
            | 0 <= k < n && props[k].0 == next[c] by {
                if c < prev.len() {
                    assert(next[c] == prev[c]);
                    if !cols.contains(prev[c]) {
                        let k = choose|k: int| 0 <= k < n - 1 && props[k].0 == prev[c];
                        assert(0 <= k < n && props[k].0 == next[c]);
                    }
                } else {
                    assert(props[n - 1].0 == next[c]);
                }
            }
        } else {
            assert forall|k: int| 0 <= k < n implies prev.contains(#[trigger] props[k].0) by {}
            assert forall|c: int| 0 <= c < prev.len() implies cols.contains(#[trigger] prev[c]) || exists|
                k: int,
            | 0 <= k < n && props[k].0 == prev[c] by {
                if !cols.contains(prev[c]) {
                    let k = choose|k: int| 0 <= k < n - 1 && props[k].0 == prev[c];
                    assert(0 <= k < n && props[k].0 == prev[c]);
                }
            }
        }
    }
}

/// The columns of an item table hold every property key of every item,
/// each once, and no other text.
pub proof fn lemma_column_union(ps: Seq<Seq<(Seq<char>, Seq<char>)>>, n: nat)
    requires
        n <= ps.len(),
    ensures
        forall|i: int, k: int|
            0 <= i < n && 0 <= k < ps[i].len() ==> column_union(ps, n).contains(#[trigger] ps[i][k].0),
        forall|a: int, b: int|
            0 <= a < b < column_union(ps, n).len() ==> column_union(ps, n)[a] != column_union(ps, n)[b],
        forall|c: int|
            0 <= c < column_union(ps, n).len() ==> exists|i: int, k: int|
                0 <= i < n && 0 <= k < ps[i].len() && ps[i][k].0 == #[trigger] column_union(ps, n)[c],
    decreases n,
{
    if n > 0 {
        lemma_column_union(ps, (n - 1) as nat);
        let prev = column_union(ps, (n - 1) as nat);
        let last = ps[n - 1];
        lemma_add_keys(prev, last, last.len());
        let cols = column_union(ps, n);
        assert forall|i: int, k: int| 0 <= i < n && 0 <= k < ps[i].len() implies cols.contains(
            #[trigger] ps[i][k].0,
        ) by {
            if i < n - 1 {
                let j = choose|j: int| 0 <= j < prev.len() && prev[j] == ps[i][k].0;
                assert(cols.subrange(0, prev.len() as int)[j] == prev[j]);
                assert(cols[j] == ps[i][k].0);
            } else {
                assert(last[k].0 == ps[i][k].0);
            }
        }
        assert forall|c: int| 0 <= c < cols.len() implies exists|i: int, k: int|
            0 <= i < n && 0 <= k < ps[i].len() && ps[i][k].0 == #[trigger] cols[c] by {
            if prev.contains(cols[c]) {
                let j = choose|j: int| 0 <= j < prev.len() && prev[j] == cols[c];
                assert(exists|i: int, k: int|
                    0 <= i < n - 1 && 0 <= k < ps[i].len() && ps[i][k].0 == #[trigger] prev[j]);
            } else {
                let k = choose|k: int| 0 <= k < last.len() && last[k].0 == cols[c];
                assert(ps[n - 1][k].0 == cols[c]);
            }
        }
    }
}

/// The keys of the first `n` property lists, each once, in first-seen order.
pub open spec fn column_union(ps: Seq<Seq<(Seq<char>, Seq<char>)>>, n: nat) -> Seq<Seq<char>>
    decreases n,
{
    if n == 0 || n > ps.len() {
        Seq::empty()
    } else {
        add_keys(column_union(ps, (n - 1) as nat), ps[n - 1], ps[n - 1].len())
    }
}

/// The value of the last of the first `n` properties named `col`.
pub open spec fn prop_value(props: Seq<(Seq<char>, Seq<char>)>, col: Seq<char>, n: nat) -> Option<
    Seq<char>,
>
    decreases n,
{
    if n == 0 || n > props.len() {
        None
    } else if props[n - 1].0 == col {
        Some(props[n - 1].1)
    } else {
        prop_value(props, col, (n - 1) as nat)
    }
}

/// The value of column `col` for an item: a dash where the item has none.
pub open spec fn cell_value(props: Seq<(Seq<char>, Seq<char>)>, col: Seq<char>) -> Seq<char> {
    match prop_value(props, col, props.len()) {
        Some(v) => v,
        None => "\u{2014}"@,
    }
}

proof fn lemma_prop_value_missing(props: Seq<(Seq<char>, Seq<char>)>, col: Seq<char>, n: nat)
    requires
        n <= props.len(),
        forall|k: int| 0 <= k < props.len() ==> #[trigger] props[k].0 != col,
    ensures
        prop_value(props, col, n) is None,
    decreases n,
{
    if n > 0 {
        lemma_prop_value_missing(props, col, (n - 1) as nat);
    }
}

/// An item without a property for a column shows the dash there, never
/// an empty cell.
pub proof fn lemma_missing_value_placeholder(props: Seq<(Seq<char>, Seq<char>)>, col: Seq<char>)
    requires
        forall|k: int| 0 <= k < props.len() ==> #[trigger] props[k].0 != col,
    ensures
        cell_value(props, col) == "\u{2014}"@,
        cell_value(props, col).len() > 0,
{
    lemma_prop_value_missing(props, col, props.len());
    reveal_strlit("\u{2014}");
}

pub open spec fn cell_text(col: Seq<char>, v: Seq<char>) -> Seq<char> {
    if col == "code"@ {
        "<td><code>"@ + escape(v) + "</code></td>"@
    } else {
        "<td>"@ + escape(v) + "</td>"@
    }
}

pub open spec fn row_cells(props: Seq<(Seq<char>, Seq<char>)>, cols: Seq<Seq<char>>, n: nat) -> Seq<
    char,
>
    decreases n,
{
    if n == 0 || n > cols.len() {
        Seq::empty()
    } else {
        row_cells(props, cols, (n - 1) as nat) + cell_text(cols[n - 1], cell_value(props, cols[n - 1]))
    }
}

pub open spec fn header_cells(cols: Seq<Seq<char>>, n: nat) -> Seq<char>
    decreases n,
{
    if n == 0 || n > cols.len() {
        Seq::empty()
    } else {
        header_cells(cols, (n - 1) as nat) + "<th>"@ + capitalized(escape(cols[n - 1])) + "</th>"@
    }
}

pub open spec fn data_rows(ps: Seq<Seq<(Seq<char>, Seq<char>)>>, cols: Seq<Seq<char>>, n: nat) -> Seq<
    char,
>
    decreases n,
{
    if n == 0 || n > ps.len() {
        Seq::empty()
    } else {
        data_rows(ps, cols, (n - 1) as nat) + "<tr>"@ + row_cells(ps[n - 1], cols, cols.len())
            + "</tr>"@
    }
}

pub open spec fn all_properties(items: Seq<JsonV>) -> Seq<Seq<(Seq<char>, Seq<char>)>> {
    items.map_values(|i: JsonV| properties(i))
}

/// A table of items: one column per property key of any item, in
/// first-seen order, and a dash where an item lacks the column.
pub open spec fn item_table_text(items: Seq<JsonV>) -> Seq<char> {
    let ps = all_properties(items);
    let cols = column_union(ps, ps.len());
    table_open() + "<tr>"@ + header_cells(cols, cols.len()) + "</tr>"@ + data_rows(ps, cols, ps.len())
        + table_close()
}

pub fn contains_text(v: &Vec<String>, s: &str) -> (r: bool)
    ensures
        r == strings_view(v@).contains(s@),
{
    let mut i: usize = 0;
    while i < v.len()
        invariant
            i <= v.len(),
            forall|j: int| 0 <= j < i ==> v[j]@ != s@,
        decreases v.len() - i,
    {
        if str_eq(v[i].as_str(), s) {
            assert(strings_view(v@)[i as int] == s@);
            return true;
        }
        i = i + 1;
    }
    assert(!strings_view(v@).contains(s@)) by {
        if strings_view(v@).contains(s@) {
            let j = choose|j: int| 0 <= j < v.len() && strings_view(v@)[j] == s@;
            assert(v[j]@ == s@);
        }
    }
    false
}

fn lookup_prop<'a>(props: &'a Vec<(String, String)>, col: &str) -> (r: Option<&'a String>)
    ensures
        match r {
            Some(v) => prop_value(pairs_view(props@), col@, props.len() as nat) == Some(v@),
            None => prop_value(pairs_view(props@), col@, props.len() as nat) is None,
        },
{
    let ghost pv = pairs_view(props@);
    let mut i: usize = props.len();
    while i > 0
        invariant
            i <= props.len(),
            pv == pairs_view(props@),
            prop_value(pv, col@, props.len() as nat) == prop_value(pv, col@, i as nat),
        decreases i,
    {
        if str_eq(props[i - 1].0.as_str(), col) {
            return Some(&props[i - 1].1);
        }
        i = i - 1;
    }
    None
}

/// A table of items, as `item_table_text` states it.
pub fn render_item_table(items: &Vec<Json>) -> (r: String)
    ensures
        r@ == item_table_text(jsons_view(items@)),
{
    let ghost ps = all_properties(jsons_view(items@));
    let mut all_props: Vec<Vec<(String, String)>> = Vec::new();
    let mut i: usize = 0;
    while i < items.len()
        invariant
            i <= items.len(),
            ps == all_properties(jsons_view(items@)),
            all_props.len() == i,
            forall|j: int| 0 <= j < i ==> #[trigger] pairs_view(all_props[j]@) == ps[j],
        decreases items.len() - i,
    {
        let p = extract_item_properties(&items[i]);
        all_props.push(p);
        i = i + 1;
    }
    let mut columns: Vec<String> = Vec::new();
    let mut i: usize = 0;
    while i < all_props.len()
        invariant
            i <= all_props.len(),
            all_props.len() == ps.len(),
            forall|j: int| 0 <= j < ps.len() ==> #[trigger] pairs_view(all_props[j]@) == ps[j],
            strings_view(columns@) == column_union(ps, i as nat),
        decreases all_props.len() - i,
    {
        let props = &all_props[i];
        let ghost base = strings_view(columns@);
        let mut k: usize = 0;
        while k < props.len()
            invariant
                k <= props.len(),
                pairs_view(props@) == ps[i as int],
                strings_view(columns@) == add_keys(base, ps[i as int], k as nat),
            decreases props.len() - k,
        {
            let ghost before = columns@;
            if !contains_text(&columns, props[k].0.as_str()) {
                columns.push(props[k].0.clone());
                assert(strings_view(columns@) =~= strings_view(before).push(props[k as int].0@));
            }
            assert(ps[i as int][k as int] == (props[k as int].0@, props[k as int].1@));
            k = k + 1;
        }
        i = i + 1;
    }
    let ghost cols = strings_view(columns@);
    let mut out = "<table data-layout=\"full-width\"><tbody>".to_owned();
    out.append("<tr>");
    let mut header = String::new();
    let mut c: usize = 0;
    while c < columns.len()
        invariant
            c <= columns.len(),
            cols == strings_view(columns@),
            header@ == header_cells(cols, c as nat),
        decreases columns.len() - c,
    {
        header.append("<th>");
        let e = escape_html(columns[c].as_str());
        let cap = capitalize(e.as_str());
        header.append(cap.as_str());
        header.append("</th>");
        c = c + 1;
    }
    out.append(header.as_str());
    out.append("</tr>");
    let mut rows = String::new();
    let mut i: usize = 0;
    while i < all_props.len()
        invariant
            i <= all_props.len(),
            all_props.len() == ps.len(),
            forall|j: int| 0 <= j < ps.len() ==> #[trigger] pairs_view(all_props[j]@) == ps[j],
            cols == strings_view(columns@),
            rows@ == data_rows(ps, cols, i as nat),
        decreases all_props.len() - i,
    {
        let props = &all_props[i];
        let mut cells = String::new();
        let mut c: usize = 0;
        while c < columns.len()
            invariant
                c <= columns.len(),
                cols == strings_view(columns@),
                pairs_view(props@) == ps[i as int],
                cells@ == row_cells(ps[i as int], cols, c as nat),
            decreases columns.len() - c,
        {
            let col = columns[c].as_str();
            let dash = "\u{2014}".to_owned();
            let found = lookup_prop(props, col);
            let val = match found {
                Some(v) => v,
                None => &dash,
            };
            if str_eq(col, "code") {
                cells.append("<td><code>");
                push_escaped(&mut cells, val.as_str());
                cells.append("</code></td>");
            } else {
                cells.append("<td>");
                push_escaped(&mut cells, val.as_str());
                cells.append("</td>");
            }
            c = c + 1;
        }
        rows.append("<tr>");
        rows.append(cells.as_str());
        rows.append("</tr>");
        i = i + 1;
    }
    out.append(rows.as_str());
    out.append("</tbody></table>");
    out
}


/// A section of added or removed items: a heading with the count in
/// `color`, then the item table, or `empty_text` when there is none.
pub open spec fn items_section_text(
    items: Seq<JsonV>,
    color: Seq<char>,
    heading: Seq<char>,
    empty_text: Seq<char>,
) -> Seq<char> {
    "<h3>"@ + lozenge_text(items.len(), color) + heading + if items.len() == 0 {
        empty_text
    } else {
        item_table_text(items)
    }
}

pub open spec fn added_section_text(items: Seq<JsonV>) -> Seq<char> {
    items_section_text(items, "Green"@, " Added</h3>"@, "<p><em>No additions.</em></p>"@)
}

pub open spec fn removed_section_text(items: Seq<JsonV>) -> Seq<char> {
    items_section_text(items, "Red"@, " Removed</h3>"@, "<p><em>No removals.</em></p>"@)
}

/// One category: its name as a heading, then its added, removed and
/// changed items.
pub open spec fn category_text(name: Seq<char>, d: CategoryDiffV) -> Seq<char> {
    "<h2>"@ + capitalized(escape(name)) + "</h2>"@ + added_section_text(d.added)
        + removed_section_text(d.removed) + changed_section_text(d.changed)
}

pub open spec fn summary_row(name: Seq<char>, d: CategoryDiffV) -> Seq<char> {
    "<tr><td><strong>"@ + capitalized(escape(name)) + "</strong></td><td>"@ + badge_text(
        "Added"@,
        d.added.len(),
        "Green"@,
    ) + "</td><td>"@ + badge_text("Removed"@, d.removed.len(), "Red"@) + "</td><td>"@ + badge_text(
        "Changed"@,
        d.changed.len(),
        "Yellow"@,
    ) + "</td></tr>"@
}

/// The summary rows of the first `n` categories of `order`.
pub open spec fn summary_rows(
    cats: Seq<(Seq<char>, CategoryDiffV)>,
    order: Seq<usize>,
    n: nat,
) -> Seq<char>
    decreases n,
{
    if n == 0 || n > order.len() {
        Seq::empty()
    } else {
        summary_rows(cats, order, (n - 1) as nat) + summary_row(
            cats[order[n - 1] as int].0,
            cats[order[n - 1] as int].1,
        )
    }
}

/// The summary: a table of category and added, removed and changed counts.
pub open spec fn summary_table_text(cats: Seq<(Seq<char>, CategoryDiffV)>, order: Seq<usize>) -> Seq<
    char,
> {
    "<h2>Summary</h2>"@ + table_open()
        + "<tr><th>Category</th><th>Added</th><th>Removed</th><th>Changed</th></tr>"@
        + summary_rows(cats, order, order.len()) + table_close()
}

/// The sections of the first `n` categories of `order`.
pub open spec fn category_sections(
    cats: Seq<(Seq<char>, CategoryDiffV)>,
    order: Seq<usize>,
    n: nat,
) -> Seq<char>
    decreases n,
{
    if n == 0 || n > order.len() {
        Seq::empty()
    } else {
        category_sections(cats, order, (n - 1) as nat) + category_text(
            cats[order[n - 1] as int].0,
            cats[order[n - 1] as int].1,
        )
    }
}

pub open spec fn diff_header_text(before: Seq<char>, after: Seq<char>) -> Seq<char> {
    info_panel_text(
        "<strong>Before:</strong> "@ + escape(before) + "<br/><strong>After:</strong> "@ + escape(
            after,
        ),
    ) + "<hr/>"@
}

pub open spec fn diff_title(before: Seq<char>, after: Seq<char>) -> Seq<char> {
    "Diff: "@ + before + " \u{2192} "@ + after
}

/// The category names, lowercased: the keys by which categories are shown.
pub open spec fn category_keys(cats: Seq<(Seq<char>, CategoryDiffV)>) -> Seq<Seq<char>> {
    cats.map_values(|c: (Seq<char>, CategoryDiffV)| lower_of(c.0))
}

/// The body of a diff page: the header, the summary and the category
/// sections, categories in the stable sort of their lowercased names.
pub open spec fn diff_body(
    before: Seq<char>,
    after: Seq<char>,
    cats: Seq<(Seq<char>, CategoryDiffV)>,
) -> Seq<char> {
    let order = sorted_order(category_keys(cats));
    diff_header_text(before, after) + summary_table_text(cats, order) + category_sections(
        cats,
        order,
        order.len(),
    )
}

pub open spec fn label_or(label: Option<&str>, default: Seq<char>) -> Seq<char> {
    match label {
        Some(l) => l@,
        None => default,
    }
}

fn render_items_section(items: &Vec<Json>, color: &str, heading: &str, empty_text: &str) -> (r:
    String)
    ensures
        r@ == items_section_text(jsons_view(items@), color@, heading@, empty_text@),
{
    let mut out = "<h3>".to_owned();
    let lozenge = status_lozenge(items.len(), color);
    out.append(lozenge.as_str());
    out.append(heading);
    if items.len() == 0 {
        out.append(empty_text);
    } else {
        let table = render_item_table(items);
        out.append(table.as_str());
    }
    out
}

/// The added-items section of a category.
pub fn render_added_section(items: &Vec<Json>) -> (r: String)
    ensures
        r@ == added_section_text(jsons_view(items@)),
{
    render_items_section(items, "Green", " Added</h3>", "<p><em>No additions.</em></p>")
}

/// The removed-items section of a category.
pub fn render_removed_section(items: &Vec<Json>) -> (r: String)
    ensures
        r@ == removed_section_text(jsons_view(items@)),
{
    render_items_section(items, "Red", " Removed</h3>", "<p><em>No removals.</em></p>")
}

/// One category of a diff page.
pub fn render_category(name: &str, diff: &CategoryDiff) -> (r: String)
    ensures
        r@ == category_text(name@, diff@),
{
    let escaped = escape_html(name);
    let display_name = capitalize(escaped.as_str());
    let mut out = "<h2>".to_owned();
    out.append(display_name.as_str());
    out.append("</h2>");
    let added = render_added_section(&diff.added);
    out.append(added.as_str());
    let removed = render_removed_section(&diff.removed);
    out.append(removed.as_str());
    let changed = render_changed_section(&diff.changed);
    out.append(changed.as_str());
    out
}

/// The panel that names the two sides of a diff.
pub fn render_diff_header(before: &str, after: &str) -> (r: String)
    ensures
        r@ == diff_header_text(before@, after@),
{
    let mut inner = "<strong>Before:</strong> ".to_owned();
    push_escaped(&mut inner, before);
    inner.append("<br/><strong>After:</strong> ");
    push_escaped(&mut inner, after);
    let mut out = info_panel(inner.as_str());
    out.append("<hr/>");
    out
}

fn summary_row_string(name: &str, diff: &CategoryDiff) -> (r: String)
    ensures
        r@ == summary_row(name@, diff@),
{
    let escaped = escape_html(name);
    let display_name = capitalize(escaped.as_str());
    let mut out = "<tr><td><strong>".to_owned();
    out.append(display_name.as_str());
    out.append("</strong></td><td>");
    let added = status_badge("Added", diff.added.len(), "Green");
    out.append(added.as_str());
    out.append("</td><td>");
    let removed = status_badge("Removed", diff.removed.len(), "Red");
    out.append(removed.as_str());
    out.append("</td><td>");
    let changed = status_badge("Changed", diff.changed.len(), "Yellow");
    out.append(changed.as_str());
    out.append("</td></tr>");
    out
}

/// The summary table of a diff, categories in `order`.
pub fn render_summary_table(report: &DiffReport, order: &Vec<usize>) -> (r: String)
    requires
        forall|i: int| 0 <= i < order.len() ==> #[trigger] order[i] < report.categories.len(),
    ensures
        r@ == summary_table_text(report@, order@),
{
    let ghost cats = report@;
    let mut rows = String::new();
    let mut i: usize = 0;
    while i < order.len()
        invariant
            i <= order.len(),
            cats == report@,
            forall|j: int| 0 <= j < order.len() ==> #[trigger] order[j] < report.categories.len(),
            rows@ == summary_rows(cats, order@, i as nat),
        decreases order.len() - i,
    {
        let c = &report.categories[order[i]];
        let row = summary_row_string(c.0.as_str(), &c.1);
        rows.append(row.as_str());
        i = i + 1;
    }
    let mut out = "<h2>Summary</h2>".to_owned();
    out.append("<table data-layout=\"full-width\"><tbody>");
    out.append("<tr><th>Category</th><th>Added</th><th>Removed</th><th>Changed</th></tr>");
    out.append(rows.as_str());
    out.append("</tbody></table>");
    out
}

/// The indices of the categories of `report` in display order: sorted by
/// lowercased name, equal names in report order.
pub fn category_order(report: &DiffReport) -> (r: Vec<usize>)
    ensures
        is_stable_sort(category_keys(report@), r@),
        r@ == sorted_order(category_keys(report@)),
{
    let mut keys: Vec<String> = Vec::new();
    let mut i: usize = 0;
    while i < report.categories.len()
        invariant
            i <= report.categories.len(),
            keys.len() == i,
            forall|j: int| 0 <= j < i ==> #[trigger] keys[j]@ == lower_of(report.categories[j].0@),
        decreases report.categories.len() - i,
    {
        let k = to_lower(report.categories[i].0.as_str());
        keys.push(k);
        i = i + 1;
    }
    let order = stable_sort_order(&keys);
    assert(keys@.map_values(|k: String| k@) =~= category_keys(report@));
    proof {
        lemma_sorted_order(category_keys(report@), order@);
    }
    order
}

/// A diff page: the title names the two sides (`before` and `after` where
/// a label is missing); the body holds the header panel, the summary table
/// and one section per category, categories sorted by lowercased name.
pub fn render_diff_page(before_label: Option<&str>, after_label: Option<&str>, report: &DiffReport) -> (r: (String, String))
    ensures
        r.0@ == diff_title(label_or(before_label, "before"@), label_or(after_label, "after"@)),
        r.1@ == diff_body(
            label_or(before_label, "before"@),
            label_or(after_label, "after"@),
            report@,
        ),
{
    let before = match before_label {
        Some(l) => l,
        None => "before",
    };
    let after = match after_label {
        Some(l) => l,
        None => "after",
    };
    let mut title = "Diff: ".to_owned();
    title.append(before);
    title.append(" \u{2192} ");
    title.append(after);
    let order = category_order(report);
    let ghost cats = report@;
    let mut body = render_diff_header(before, after);
    let summary = render_summary_table(report, &order);
    body.append(summary.as_str());
    let mut sections = String::new();
    let mut i: usize = 0;
    while i < order.len()
        invariant
            i <= order.len(),
            cats == report@,
            is_stable_sort(category_keys(cats), order@),
            sections@ == category_sections(cats, order@, i as nat),
        decreases order.len() - i,
    {
        assert(order[i as int] < cats.len());
        let c = &report.categories[order[i]];
        let section = render_category(c.0.as_str(), &c.1);
        sections.append(section.as_str());
        i = i + 1;
    }
    body.append(sections.as_str());
    assert(body@ == diff_body(before@, after@, cats));
    (title, body)
}

} // verus!
