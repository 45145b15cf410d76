//! Rendering of a model snapshot as a tree of pages: a root overview and
//! one detail page per family.

use vstd::prelude::*;
use crate::diff::{array_items, jsons_view, strings_view};
use crate::family::{family_detail_text, family_label, render_family_detail_page};
use crate::json::{field, json_text, opt_view, lemma_items_view, lemma_members_view, items_view, members_view, Json, JsonV};
use crate::markup::{check_icon, check_icon_text, lozenge_text, section_heading, section_heading_text, status_lozenge};
use crate::render::{table_close, table_open};
use crate::text::{is_stable_sort, lower_of, to_lower, lemma_sorted_order, sorted_order, stable_sort_order, decimal, escape, push_decimal, push_escaped};

verus! {

pub open spec fn dash() -> Seq<char> {
    "\u{2014}"@
}

/// The string member `k` of an item, or `default`.
pub open spec fn str_field_or(item: JsonV, k: Seq<char>, default: Seq<char>) -> Seq<char> {
    match field(item, k) {
        Some(JsonV::Str(s)) => s,
        _ => default,
    }
}

/// The boolean member `k` of an item; `false` where there is none.
pub open spec fn bool_field(item: JsonV, k: Seq<char>) -> bool {
    match field(item, k) {
        Some(JsonV::Bool(b)) => b,
        _ => false,
    }
}

/// The `code` of an item, or `unknown`.
pub open spec fn code_of(item: JsonV) -> Seq<char> {
    str_field_or(item, "code"@, "unknown"@)
}

/// The first label of an item, where its `labels` object has a first
/// member whose value is a string.
pub open spec fn label_of(item: JsonV) -> Option<Seq<char>> {
    match field(item, "labels"@) {
        Some(JsonV::Object(l)) => if l.len() > 0 {
            match l[0].1 {
                JsonV::Str(s) => Some(s),
                _ => None,
            }
        } else {
            None
        },
        _ => None,
    }
}

pub open spec fn label_or(item: JsonV, default: Seq<char>) -> Seq<char> {
    match label_of(item) {
        Some(s) => s,
        None => default,
    }
}

/// The strings among the first `n` values.
pub open spec fn strings_among(items: Seq<JsonV>, n: nat) -> Seq<Seq<char>>
    decreases n,
{
    if n == 0 || n > items.len() {
        Seq::empty()
    } else {
        match items[n - 1] {
            JsonV::Str(s) => strings_among(items, (n - 1) as nat).push(s),
            _ => strings_among(items, (n - 1) as nat),
        }
    }
}

/// The strings of the array member `k` of an item.
pub open spec fn string_array(item: JsonV, k: Seq<char>) -> Seq<Seq<char>> {
    match field(item, k) {
        Some(JsonV::Array(a)) => strings_among(a, a.len()),
        _ => Seq::empty(),
    }
}

/// The first `n` texts, separated by `, `.
pub open spec fn joined(list: Seq<Seq<char>>, n: nat) -> Seq<char>
    decreases n,
{
    if n == 0 || n > list.len() {
        Seq::empty()
    } else if n == 1 {
        list[0]
    } else {
        joined(list, (n - 1) as nat) + ", "@ + list[n - 1]
    }
}

/// The length of the array member `k` of an item; zero where there is none.
pub open spec fn array_len(item: JsonV, k: Seq<char>) -> nat {
    match field(item, k) {
        Some(JsonV::Array(a)) => a.len(),
        _ => 0,
    }
}

/// The string member `k` of an item, or `default`.
pub fn get_str_or<'a>(item: &'a Json, k: &str, default: &'a str) -> (r: &'a str)
    ensures
        r@ == str_field_or(item@, k@, default@),
{
    match item.get(k) {
        Some(Json::Str(s)) => s.as_str(),
        _ => default,
    }
}

/// The boolean member `k` of an item; `false` where there is none.
pub fn get_bool(item: &Json, k: &str) -> (r: bool)
    ensures
        r == bool_field(item@, k@),
{
    match item.get(k) {
        Some(Json::Bool(b)) => *b,
        _ => false,
    }
}

/// The `code` of an item, or `unknown`.
pub fn get_code(item: &Json) -> (r: &str)
    ensures
        r@ == code_of(item@),
{
    get_str_or(item, "code", "unknown")
}

/// The first label of an item.
pub fn get_label(item: &Json) -> (r: Option<String>)
    ensures
        match r {
            Some(s) => label_of(item@) == Some(s@),
            None => label_of(item@) is None,
        },
{
    match item.get("labels") {
        Some(Json::Object(l)) => {
            proof {
                lemma_members_view(*l, l.len() as nat);
            }
            if l.len() > 0 {
                match &l[0].1 {
                    Json::Str(s) => Some(s.clone()),
                    _ => None,
                }
            } else {
                None
            }
        },
        _ => None,
    }
}

/// The first label of an item, or `default`.
pub fn get_label_or(item: &Json, default: &str) -> (r: String)
    ensures
        r@ == label_or(item@, default@),
{
    match get_label(item) {
        Some(s) => s,
        None => default.to_owned(),
    }
}

/// The strings of the array member `k` of an item.
pub fn get_string_array(item: &Json, k: &str) -> (r: Vec<String>)
    ensures
        strings_view(r@) == string_array(item@, k@),
{
    let mut out: Vec<String> = Vec::new();
    match item.get(k) {
        Some(Json::Array(a)) => {
            proof {
                lemma_items_view(*a, a.len() as nat);
            }
            let ghost av = items_view(*a, a.len() as nat);
            let mut i: usize = 0;
            while i < a.len()
                invariant
                    i <= a.len(),
                    av.len() == a.len(),
                    forall|j: int| 0 <= j < a.len() ==> #[trigger] av[j] == a[j]@,
                    strings_view(out@) == strings_among(av, i as nat),
                decreases a.len() - i,
            {
                assert(av[i as int] == a[i as int]@);
                match &a[i] {
                    Json::Str(s) => {
                        let ghost before = out@;
                        out.push(s.clone());
                        assert(strings_view(out@) =~= strings_view(before).push(s@));
                    },
                    _ => {},
                }
                i = i + 1;
            }
        },
        _ => {
            assert(strings_view(out@) =~= string_array(item@, k@));
        },
    }
    out
}

/// The texts of `list`, separated by `, `.
pub fn join_texts(list: &Vec<String>) -> (r: String)
    ensures
        r@ == joined(strings_view(list@), list.len() as nat),
{
    let ghost lv = strings_view(list@);
    let mut out = String::new();
    let mut i: usize = 0;
    while i < list.len()
        invariant
            i <= list.len(),
            lv == strings_view(list@),
            out@ == joined(lv, i as nat),
        decreases list.len() - i,
    {
        if i > 0 {
            out.append(", ");
        }
        out.append(list[i].as_str());
        proof {
            if i == 0 {
                assert(out@ =~= joined(lv, 1));
            }
        }
        i = i + 1;
    }
    out
}

/// The length of the array member `k` of an item; zero where there is none.
pub fn get_array_len(item: &Json, k: &str) -> (r: usize)
    ensures
        r as nat == array_len(item@, k@),
{
    match item.get(k) {
        Some(Json::Array(a)) => {
            proof {
                lemma_items_view(*a, a.len() as nat);
            }
            a.len()
        },
        _ => 0,
    }
}


/// A section of the overview: a heading with the count, then a table with
/// `header` and the rows, or `empty_text` when there are no items.
pub open spec fn table_section_text(
    label: Seq<char>,
    count: nat,
    color: Seq<char>,
    empty_text: Seq<char>,
    header: Seq<char>,
    rows: Seq<char>,
) -> Seq<char> {
    section_heading_text(label, count, color) + if count == 0 {
        empty_text
    } else {
        table_open() + header + rows + table_close()
    }
}

pub open spec fn channel_row(ch: JsonV) -> Seq<char> {
    "<tr><td><code>"@ + escape(code_of(ch)) + "</code></td><td>"@ + escape(label_or(ch, dash()))
        + "</td><td>"@ + escape(joined(string_array(ch, "locales"@), string_array(ch, "locales"@).len()))
        + "</td><td>"@ + escape(
        joined(string_array(ch, "currencies"@), string_array(ch, "currencies"@).len()),
    ) + "</td><td>"@ + escape(str_field_or(ch, "category_tree"@, dash())) + "</td></tr>"@
}

pub open spec fn family_row(fam: JsonV) -> Seq<char> {
    "<tr><td><code>"@ + escape(code_of(fam)) + "</code></td><td>"@ + escape(label_or(fam, dash()))
        + "</td><td>"@ + lozenge_text(array_len(fam, "attributes"@), "Blue"@)
        + "</td><td><code>"@ + escape(str_field_or(fam, "attribute_as_label"@, dash()))
        + "</code></td><td><code>"@ + escape(str_field_or(fam, "attribute_as_image"@, dash()))
        + "</code></td></tr>"@
}

pub open spec fn attribute_row(attr: JsonV) -> Seq<char> {
    "<tr><td><code>"@ + escape(code_of(attr)) + "</code></td><td>"@ + escape(label_or(attr, dash()))
        + "</td><td><code>"@ + escape(str_field_or(attr, "type"@, dash())) + "</code></td><td>"@
        + escape(str_field_or(attr, "group"@, dash())) + "</td><td>"@ + check_icon_text(
        bool_field(attr, "scopable"@),
    ) + "</td><td>"@ + check_icon_text(bool_field(attr, "localizable"@)) + "</td></tr>"@
}

/// One `<strong>locale</strong>: text` entry per label among the first `n`;
/// a label that is no string shows a dash.
pub open spec fn label_entries_inline(l: Seq<(Seq<char>, JsonV)>, n: nat) -> Seq<char>
    decreases n,
{
    if n == 0 || n > l.len() {
        Seq::empty()
    } else {
        let entry = "<strong>"@ + escape(l[n - 1].0) + "</strong>: "@ + escape(
            match l[n - 1].1 {
                JsonV::Str(s) => s,
                _ => dash(),
            },
        );
        if n == 1 {
            entry
        } else {
            label_entries_inline(l, (n - 1) as nat) + ", "@ + entry
        }
    }
}

/// All labels of an item inline; a dash where it has no labels object.
pub open spec fn labels_inline(item: JsonV) -> Seq<char> {
    match field(item, "labels"@) {
        Some(JsonV::Object(l)) => label_entries_inline(l, l.len()),
        _ => dash(),
    }
}

pub open spec fn category_row(cat: JsonV) -> Seq<char> {
    "<tr><td><code>"@ + escape(code_of(cat)) + "</code></td><td>"@ + labels_inline(cat)
        + "</td><td>"@ + escape(str_field_or(cat, "parent"@, dash())) + "</td><td>"@ + escape(
        str_field_or(cat, "updated"@, dash()),
    ) + "</td></tr>"@
}

/// The channel rows of the first `n` items.
pub open spec fn channel_rows(items: Seq<JsonV>, n: nat) -> Seq<char>
    decreases n,
{
    if n == 0 || n > items.len() {
        Seq::empty()
    } else {
        channel_rows(items, (n - 1) as nat) + channel_row(items[n - 1])
    }
}

/// The family rows of the first `n` families of `order`.
pub open spec fn family_rows(items: Seq<JsonV>, order: Seq<usize>, n: nat) -> Seq<char>
    decreases n,
{
    if n == 0 || n > order.len() {
        Seq::empty()
    } else {
        family_rows(items, order, (n - 1) as nat) + family_row(items[order[n - 1] as int])
    }
}

/// The family names, lowercased: the keys by which families are shown.
pub open spec fn family_keys(items: Seq<JsonV>) -> Seq<Seq<char>> {
    items.map_values(|f: JsonV| lower_of(family_label(f)))
}

/// The order in which families are shown: the stable sort of their
/// lowercased names.
pub open spec fn family_order(items: Seq<JsonV>) -> Seq<usize> {
    sorted_order(family_keys(items))
}

/// The attribute rows of the first `n` items.
pub open spec fn attribute_rows(items: Seq<JsonV>, n: nat) -> Seq<char>
    decreases n,
{
    if n == 0 || n > items.len() {
        Seq::empty()
    } else {
        attribute_rows(items, (n - 1) as nat) + attribute_row(items[n - 1])
    }
}

/// The category rows of the first `n` items.
pub open spec fn category_rows(items: Seq<JsonV>, n: nat) -> Seq<char>
    decreases n,
{
    if n == 0 || n > items.len() {
        Seq::empty()
    } else {
        category_rows(items, (n - 1) as nat) + category_row(items[n - 1])
    }
}

pub open spec fn channels_section_text(items: Seq<JsonV>) -> Seq<char> {
    table_section_text(
        "Channels"@,
        items.len(),
        "Green"@,
        "<p><em>No channels.</em></p>"@,
        "<tr><th>Code</th><th>Label</th><th>Locales</th><th>Currencies</th><th>Category Tree</th></tr>"@,
        channel_rows(items, items.len()),
    )
}

pub open spec fn families_section_text(items: Seq<JsonV>) -> Seq<char> {
    table_section_text(
        "Families"@,
        items.len(),
        "Yellow"@,
        "<p><em>No families.</em></p>"@,
        "<tr><th>Code</th><th>Label</th><th>Attributes</th><th>Label Attr</th><th>Image Attr</th></tr>"@,
        family_rows(items, family_order(items), items.len()),
    )
}

pub open spec fn attributes_section_text(items: Seq<JsonV>) -> Seq<char> {
    table_section_text(
        "Attributes"@,
        items.len(),
        "Purple"@,
        "<p><em>No attributes.</em></p>"@,
        "<tr><th>Code</th><th>Label</th><th>Type</th><th>Group</th><th>Scopable</th><th>Localizable</th></tr>"@,
        attribute_rows(items, items.len()),
    )
}

pub open spec fn categories_section_text(items: Seq<JsonV>) -> Seq<char> {
    table_section_text(
        "Categories"@,
        items.len(),
        "Blue"@,
        "<p><em>No categories.</em></p>"@,
        "<tr><th>Code</th><th>Labels</th><th>Parent</th><th>Updated</th></tr>"@,
        category_rows(items, items.len()),
    )
}

fn channel_row_string(ch: &Json) -> (r: String)
    ensures
        r@ == channel_row(ch@),
{
    let label = get_label_or(ch, "\u{2014}");
    let locales = join_texts(&get_string_array(ch, "locales"));
    let currencies = join_texts(&get_string_array(ch, "currencies"));
    let mut out = "<tr><td><code>".to_owned();
    push_escaped(&mut out, get_code(ch));
    out.append("</code></td><td>");
    push_escaped(&mut out, label.as_str());
    out.append("</td><td>");
    push_escaped(&mut out, locales.as_str());
    out.append("</td><td>");
    push_escaped(&mut out, currencies.as_str());
    out.append("</td><td>");
    push_escaped(&mut out, get_str_or(ch, "category_tree", "\u{2014}"));
    out.append("</td></tr>");
    out
}

fn family_row_string(fam: &Json) -> (r: String)
    ensures
        r@ == family_row(fam@),
{
    let label = get_label_or(fam, "\u{2014}");
    let lozenge = status_lozenge(get_array_len(fam, "attributes"), "Blue");
    let mut out = "<tr><td><code>".to_owned();
    push_escaped(&mut out, get_code(fam));
    out.append("</code></td><td>");
    push_escaped(&mut out, label.as_str());
    out.append("</td><td>");
    out.append(lozenge.as_str());
    out.append("</td><td><code>");
    push_escaped(&mut out, get_str_or(fam, "attribute_as_label", "\u{2014}"));
    out.append("</code></td><td><code>");
    push_escaped(&mut out, get_str_or(fam, "attribute_as_image", "\u{2014}"));
    out.append("</code></td></tr>");
    out
}

fn attribute_row_string(attr: &Json) -> (r: String)
    ensures
        r@ == attribute_row(attr@),
{
    let label = get_label_or(attr, "\u{2014}");
    let mut out = "<tr><td><code>".to_owned();
    push_escaped(&mut out, get_code(attr));
    out.append("</code></td><td>");
    push_escaped(&mut out, label.as_str());
    out.append("</td><td><code>");
    push_escaped(&mut out, get_str_or(attr, "type", "\u{2014}"));
    out.append("</code></td><td>");
    push_escaped(&mut out, get_str_or(attr, "group", "\u{2014}"));
    out.append("</td><td>");
    out.append(check_icon(get_bool(attr, "scopable")));
    out.append("</td><td>");
    out.append(check_icon(get_bool(attr, "localizable")));
    out.append("</td></tr>");
    out
}

/// All labels of an item inline, as `labels_inline` states it.
pub fn render_labels_inline(item: &Json) -> (r: String)
    ensures
        r@ == labels_inline(item@),
{
    match item.get("labels") {
        Some(Json::Object(l)) => {
            proof {
                lemma_members_view(*l, l.len() as nat);
            }
            let ghost lv = members_view(*l, l.len() as nat);
            let mut out = String::new();
            let mut i: usize = 0;
            while i < l.len()
                invariant
                    i <= l.len(),
                    lv.len() == l.len(),
                    forall|j: int| 0 <= j < l.len() ==> #[trigger] lv[j] == (l[j].0@, l[j].1@),
                    out@ == label_entries_inline(lv, i as nat),
                decreases l.len() - i,
            {
                assert(lv[i as int] == (l[i as int].0@, l[i as int].1@));
                let mut entry = "<strong>".to_owned();
                push_escaped(&mut entry, l[i].0.as_str());
                entry.append("</strong>: ");
                let text = match &l[i].1 {
                    Json::Str(s) => s.as_str(),
                    _ => "\u{2014}",
                };
                push_escaped(&mut entry, text);
                if i > 0 {
                    out.append(", ");
                }
                out.append(entry.as_str());
                proof {
                    if i == 0 {
                        assert(out@ =~= label_entries_inline(lv, 1));
                    }
                }
                i = i + 1;
            }
            out
        },
        _ => "\u{2014}".to_owned(),
    }
}

fn category_row_string(cat: &Json) -> (r: String)
    ensures
        r@ == category_row(cat@),
{
    let labels = render_labels_inline(cat);
    let mut out = "<tr><td><code>".to_owned();
    push_escaped(&mut out, get_code(cat));
    out.append("</code></td><td>");
    out.append(labels.as_str());
    out.append("</td><td>");
    push_escaped(&mut out, get_str_or(cat, "parent", "\u{2014}"));
    out.append("</td><td>");
    push_escaped(&mut out, get_str_or(cat, "updated", "\u{2014}"));
    out.append("</td></tr>");
    out
}


/// The Channels section of the overview.
pub fn render_channels_section(items: &Vec<Json>) -> (r: String)
    ensures
        r@ == channels_section_text(jsons_view(items@)),
{
    let ghost iv = jsons_view(items@);
    let mut out = section_heading("Channels", items.len(), "Green");
    if items.len() == 0 {
        out.append("<p><em>No channels.</em></p>");
        return out;
    }
    let mut rows = String::new();
    let mut i: usize = 0;
    while i < items.len()
        invariant
            i <= items.len(),
            iv == jsons_view(items@),
            rows@ == channel_rows(iv, i as nat),
        decreases items.len() - i,
    {
        let row = channel_row_string(&items[i]);
        rows.append(row.as_str());
        i = i + 1;
    }
    out.append("<table data-layout=\"full-width\"><tbody>");
    out.append("<tr><th>Code</th><th>Label</th><th>Locales</th><th>Currencies</th><th>Category Tree</th></tr>");
    out.append(rows.as_str());
    out.append("</tbody></table>");
    out
}

/// The indices of `items` in the order families are shown.
pub fn sort_families(items: &Vec<Json>) -> (r: Vec<usize>)
    ensures
        r@ == family_order(jsons_view(items@)),
        is_stable_sort(family_keys(jsons_view(items@)), r@),
{
    let ghost iv = jsons_view(items@);
    let mut keys: Vec<String> = Vec::new();
    let mut i: usize = 0;
    while i < items.len()
        invariant
            i <= items.len(),
            iv == jsons_view(items@),
            keys.len() == i,
            forall|j: int| 0 <= j < i ==> #[trigger] keys[j]@ == lower_of(family_label(iv[j])),
        decreases items.len() - i,
    {
        let code = get_code(&items[i]);
        let label = get_label_or(&items[i], code);
        let k = to_lower(label.as_str());
        keys.push(k);
        i = i + 1;
    }
    assert(keys@.map_values(|k: String| k@) =~= family_keys(iv));
    let order = stable_sort_order(&keys);
    proof {
        lemma_sorted_order(family_keys(iv), order@);
    }
    order
}

/// The Families section of the overview, families sorted by lowercased name.
pub fn render_families_section(items: &Vec<Json>) -> (r: String)
    ensures
        r@ == families_section_text(jsons_view(items@)),
{
    let ghost iv = jsons_view(items@);
    let mut out = section_heading("Families", items.len(), "Yellow");
    if items.len() == 0 {
        out.append("<p><em>No families.</em></p>");
        return out;
    }
    let order = sort_families(items);
    let mut rows = String::new();
    let mut i: usize = 0;
    while i < order.len()
        invariant
            i <= order.len(),
            iv == jsons_view(items@),
            order@ == family_order(iv),
            is_stable_sort(family_keys(iv), order@),
            rows@ == family_rows(iv, order@, i as nat),
        decreases order.len() - i,
    {
        assert(order[i as int] < items.len());
        let row = family_row_string(&items[order[i]]);
        rows.append(row.as_str());
        i = i + 1;
    }
    out.append("<table data-layout=\"full-width\"><tbody>");
    out.append("<tr><th>Code</th><th>Label</th><th>Attributes</th><th>Label Attr</th><th>Image Attr</th></tr>");
    out.append(rows.as_str());
    out.append("</tbody></table>");
    out
}

/// The Attributes section of the overview.
pub fn render_attributes_section(items: &Vec<Json>) -> (r: String)
    ensures
        r@ == attributes_section_text(jsons_view(items@)),
{
    let ghost iv = jsons_view(items@);
    let mut out = section_heading("Attributes", items.len(), "Purple");
    if items.len() == 0 {
        out.append("<p><em>No attributes.</em></p>");
        return out;
    }
    let mut rows = String::new();
    let mut i: usize = 0;
    while i < items.len()
        invariant
            i <= items.len(),
            iv == jsons_view(items@),
            rows@ == attribute_rows(iv, i as nat),
        decreases items.len() - i,
    {
        let row = attribute_row_string(&items[i]);
        rows.append(row.as_str());
        i = i + 1;
    }
    out.append("<table data-layout=\"full-width\"><tbody>");
    out.append("<tr><th>Code</th><th>Label</th><th>Type</th><th>Group</th><th>Scopable</th><th>Localizable</th></tr>");
    out.append(rows.as_str());
    out.append("</tbody></table>");
    out
}

/// The Categories section of the overview.
pub fn render_categories_section(items: &Vec<Json>) -> (r: String)
    ensures
        r@ == categories_section_text(jsons_view(items@)),
{
    let ghost iv = jsons_view(items@);
    let mut out = section_heading("Categories", items.len(), "Blue");
    if items.len() == 0 {
        out.append("<p><em>No categories.</em></p>");
        return out;
    }
    let mut rows = String::new();
    let mut i: usize = 0;
    while i < items.len()
        invariant
            i <= items.len(),
            iv == jsons_view(items@),
            rows@ == category_rows(iv, i as nat),
        decreases items.len() - i,
    {
        let row = category_row_string(&items[i]);
        rows.append(row.as_str());
        i = i + 1;
    }
    out.append("<table data-layout=\"full-width\"><tbody>");
    out.append("<tr><th>Code</th><th>Labels</th><th>Parent</th><th>Updated</th></tr>");
    out.append(rows.as_str());
    out.append("</tbody></table>");
    out
}


pub open spec fn card_text(icon: Seq<char>, count: nat, label: Seq<char>) -> Seq<char> {
    "<td><p>"@ + icon + "</p><p><strong style=\"font-size: 24px;\">"@ + decimal(count)
        + "</strong></p><p><em>"@ + label + "</em></p></td>"@
}

/// The five counts of the overview, as a one-row table.
pub open spec fn summary_cards_text(
    channels: nat,
    families: nat,
    attributes: nat,
    categories: nat,
    attr_options: nat,
) -> Seq<char> {
    "<table data-layout=\"full-width\"><tbody><tr>"@ + card_text("\u{1F4E1}"@, channels, "Channels"@)
        + card_text("\u{1F4DA}"@, families, "Families"@) + card_text(
        "\u{2699}\u{FE0F}"@,
        attributes,
        "Attributes"@,
    ) + card_text("\u{1F4C2}"@, categories, "Categories"@) + card_text(
        "\u{1F4CB}"@,
        attr_options,
        "Attr. Options"@,
    ) + "</tr></tbody></table>"@
}

fn card_string(icon: &str, count: usize, label: &str) -> (r: String)
    ensures
        r@ == card_text(icon@, count as nat, label@),
{
    let mut out = "<td><p>".to_owned();
    out.append(icon);
    out.append("</p><p><strong style=\"font-size: 24px;\">");
    push_decimal(&mut out, count);
    out.append("</strong></p><p><em>");
    out.append(label);
    out.append("</em></p></td>");
    out
}

/// The five counts of the overview.
pub fn render_summary_cards(
    channels: usize,
    families: usize,
    attributes: usize,
    categories: usize,
    attr_options: usize,
) -> (r: String)
    ensures
        r@ == summary_cards_text(
            channels as nat,
            families as nat,
            attributes as nat,
            categories as nat,
            attr_options as nat,
        ),
{
    let mut out = "<table data-layout=\"full-width\"><tbody><tr>".to_owned();
    let c = card_string("\u{1F4E1}", channels, "Channels");
    out.append(c.as_str());
    let c = card_string("\u{1F4DA}", families, "Families");
    out.append(c.as_str());
    let c = card_string("\u{2699}\u{FE0F}", attributes, "Attributes");
    out.append(c.as_str());
    let c = card_string("\u{1F4C2}", categories, "Categories");
    out.append(c.as_str());
    let c = card_string("\u{1F4CB}", attr_options, "Attr. Options");
    out.append(c.as_str());
    out.append("</tr></tbody></table>");
    out
}

/// `x`, or the largest `usize` where `x` exceeds it.
pub open spec fn clamp_usize(x: nat) -> nat {
    if x > usize::MAX {
        usize::MAX as nat
    } else {
        x
    }
}

/// The number of options in the first `n` members whose value is an array
/// (held at the largest `usize`).
pub open spec fn options_total(m: Seq<(Seq<char>, JsonV)>, n: nat) -> nat
    decreases n,
{
    if n == 0 || n > m.len() {
        0
    } else {
        match m[n - 1].1 {
            JsonV::Array(a) => clamp_usize(options_total(m, (n - 1) as nat) + a.len()),
            _ => options_total(m, (n - 1) as nat),
        }
    }
}

/// The number of attribute options in a snapshot's options object.
pub open spec fn options_count(opt: Option<JsonV>) -> nat {
    match opt {
        Some(JsonV::Object(m)) => options_total(m, m.len()),
        _ => 0,
    }
}

pub open spec fn sort_order_of(opt: JsonV) -> Seq<char> {
    match field(opt, "sort_order"@) {
        Some(v) => json_text(v),
        None => dash(),
    }
}

pub open spec fn option_row(opt: JsonV) -> Seq<char> {
    "<tr><td><code>"@ + escape(code_of(opt)) + "</code></td><td>"@ + escape(label_or(opt, dash()))
        + "</td><td>"@ + escape(sort_order_of(opt)) + "</td></tr>"@
}

pub open spec fn option_rows(items: Seq<JsonV>, n: nat) -> Seq<char>
    decreases n,
{
    if n == 0 || n > items.len() {
        Seq::empty()
    } else {
        option_rows(items, (n - 1) as nat) + option_row(items[n - 1])
    }
}

/// The options of one attribute: a heading with the code and the count,
/// then their table.
pub open spec fn option_group_text(code: Seq<char>, items: Seq<JsonV>) -> Seq<char> {
    "<h3>Attribute: <code>"@ + escape(code) + "</code> "@ + lozenge_text(items.len(), "Grey"@)
        + "</h3>"@ + if items.len() == 0 {
        "<p><em>No options.</em></p>"@
    } else {
        table_open() + "<tr><th>Code</th><th>Label</th><th>Sort Order</th></tr>"@ + option_rows(
            items,
            items.len(),
        ) + table_close()
    }
}

/// The option groups of the first `n` members in `order`; a member whose
/// value is no array shows nothing.
pub open spec fn option_groups(m: Seq<(Seq<char>, JsonV)>, order: Seq<usize>, n: nat) -> Seq<char>
    decreases n,
{
    if n == 0 || n > order.len() {
        Seq::empty()
    } else {
        option_groups(m, order, (n - 1) as nat) + match m[order[n - 1] as int].1 {
            JsonV::Array(a) => option_group_text(m[order[n - 1] as int].0, a),
            _ => Seq::empty(),
        }
    }
}

pub open spec fn member_names(m: Seq<(Seq<char>, JsonV)>) -> Seq<Seq<char>> {
    m.map_values(|e: (Seq<char>, JsonV)| e.0)
}

/// The attribute options section, attributes in the stable sort of their
/// codes.
pub open spec fn options_section_text(opt: Option<JsonV>) -> Seq<char> {
    match opt {
        Some(JsonV::Object(m)) => section_heading_text(
            "Attribute Options"@,
            options_total(m, m.len()),
            "Yellow"@,
        ) + option_groups(m, sorted_order(member_names(m)), m.len()),
        _ => section_heading_text("Attribute Options"@, 0, "Grey"@)
            + "<p><em>No attribute options.</em></p>"@,
    }
}

/// The number of attribute options, as `options_count` states it.
pub fn count_options(options: Option<&Json>) -> (r: usize)
    ensures
        r as nat == options_count(opt_view(options)),
{
    match options {
        Some(Json::Object(m)) => {
            proof {
                lemma_members_view(*m, m.len() as nat);
            }
            let ghost mv = members_view(*m, m.len() as nat);
            let mut total: usize = 0;
            let mut i: usize = 0;
            while i < m.len()
                invariant
                    i <= m.len(),
                    mv.len() == m.len(),
                    forall|j: int| 0 <= j < m.len() ==> #[trigger] mv[j] == (m[j].0@, m[j].1@),
                    total as nat == options_total(mv, i as nat),
                decreases m.len() - i,
            {
                assert(mv[i as int] == (m[i as int].0@, m[i as int].1@));
                match &m[i].1 {
                    Json::Array(a) => {
                        proof {
                            lemma_items_view(*a, a.len() as nat);
                        }
                        total = total.saturating_add(a.len());
                    },
                    _ => {},
                }
                i = i + 1;
            }
            total
        },
        _ => 0,
    }
}

fn option_row_string(opt: &Json) -> (r: String)
    ensures
        r@ == option_row(opt@),
{
    let label = get_label_or(opt, "\u{2014}");
    let sort_order = match opt.get("sort_order") {
        Some(v) => v.to_json_text(),
        None => "\u{2014}".to_owned(),
    };
    let mut out = "<tr><td><code>".to_owned();
    push_escaped(&mut out, get_code(opt));
    out.append("</code></td><td>");
    push_escaped(&mut out, label.as_str());
    out.append("</td><td>");
    push_escaped(&mut out, sort_order.as_str());
    out.append("</td></tr>");
    out
}

fn option_group_string(code: &str, items: &Vec<Json>) -> (r: String)
    ensures
        r@ == option_group_text(code@, jsons_view(items@)),
{
    let ghost iv = jsons_view(items@);
    let mut out = "<h3>Attribute: <code>".to_owned();
    push_escaped(&mut out, code);
    out.append("</code> ");
    let lozenge = status_lozenge(items.len(), "Grey");
    out.append(lozenge.as_str());
    out.append("</h3>");
    if items.len() == 0 {
        out.append("<p><em>No options.</em></p>");
        return out;
    }
    let mut rows = String::new();
    let mut i: usize = 0;
    while i < items.len()
        invariant
            i <= items.len(),
            iv == jsons_view(items@),
            rows@ == option_rows(iv, i as nat),
        decreases items.len() - i,
    {
        let row = option_row_string(&items[i]);
        rows.append(row.as_str());
        i = i + 1;
    }
    out.append("<table data-layout=\"full-width\"><tbody>");
    out.append("<tr><th>Code</th><th>Label</th><th>Sort Order</th></tr>");
    out.append(rows.as_str());
    out.append("</tbody></table>");
    out
}

/// The attribute options section: options grouped by attribute, the
/// attributes sorted by code.
pub fn render_attribute_options_sections(options: Option<&Json>) -> (r: String)
    ensures
        r@ == options_section_text(opt_view(options)),
{
    let m = match options {
        Some(Json::Object(m)) => m,
        _ => {
            let mut out = section_heading("Attribute Options", 0, "Grey");
            out.append("<p><em>No attribute options.</em></p>");
            return out;
        },
    };
    proof {
        lemma_members_view(*m, m.len() as nat);
    }
    let ghost mv = members_view(*m, m.len() as nat);
    let total = count_options(options);
    let mut out = section_heading("Attribute Options", total, "Yellow");
    let mut names: Vec<String> = Vec::new();
    let mut i: usize = 0;
    while i < m.len()
        invariant
            i <= m.len(),
            mv.len() == m.len(),
            forall|j: int| 0 <= j < m.len() ==> #[trigger] mv[j] == (m[j].0@, m[j].1@),
            names.len() == i,
            forall|j: int| 0 <= j < i ==> #[trigger] names[j]@ == mv[j].0,
        decreases m.len() - i,
    {
        assert(mv[i as int] == (m[i as int].0@, m[i as int].1@));
        names.push(m[i].0.clone());
        i = i + 1;
    }
    assert(names@.map_values(|k: String| k@) =~= member_names(mv));
    let order = stable_sort_order(&names);
    proof {
        lemma_sorted_order(member_names(mv), order@);
    }
    let mut groups = String::new();
    let mut k: usize = 0;
    while k < order.len()
        invariant
            k <= order.len(),
            mv.len() == m.len(),
            forall|j: int| 0 <= j < m.len() ==> #[trigger] mv[j] == (m[j].0@, m[j].1@),
            is_stable_sort(member_names(mv), order@),
            groups@ == option_groups(mv, order@, k as nat),
        decreases order.len() - k,
    {
        let idx = order[k];
        assert(idx < m.len());
        assert(mv[idx as int] == (m[idx as int].0@, m[idx as int].1@));
        match &m[idx].1 {
            Json::Array(a) => {
                let g = option_group_string(m[idx].0.as_str(), a);
                groups.append(g.as_str());
                assert(jsons_view(a@) =~= items_view(*a, a.len() as nat)) by {
                    lemma_items_view(*a, a.len() as nat);
                }
            },
            _ => {
                let empty = String::new();
                groups.append(empty.as_str());
            },
        }
        k = k + 1;
    }
    out.append(groups.as_str());
    out
}


/// A rendered snapshot: the overview page and one page per family.
#[derive(Debug)]
pub struct SnapshotPageTree {
    pub root_title: String,
    pub root_body: String,
    pub children: Vec<SnapshotChildPage>,
}

/// The page of one family.
#[derive(Debug)]
pub struct SnapshotChildPage {
    pub title: String,
    pub body: String,
}

/// The body of the overview page.
pub open spec fn root_body_text(data: JsonV) -> Seq<char> {
    let channels = array_items(field(data, "channels"@));
    let families = array_items(field(data, "families"@));
    let attributes = array_items(field(data, "attributes"@));
    let categories = array_items(field(data, "categories"@));
    let options = field(data, "attribute_options"@);
    "<h1>Akeneo Model Snapshot</h1>"@
        + "<p>Overview of the PIM data model configuration \u{2014} channels, families, attributes, categories, and attribute options.</p>"@
        + "<hr/>"@ + summary_cards_text(
        channels.len(),
        families.len(),
        attributes.len(),
        categories.len(),
        options_count(options),
    ) + channels_section_text(channels) + families_section_text(families)
        + attributes_section_text(attributes) + categories_section_text(categories)
        + options_section_text(options)
}

pub open spec fn child_title(fam: JsonV) -> Seq<char> {
    "Family: "@ + family_label(fam) + " ("@ + code_of(fam) + ")"@
}

pub open spec fn no_data_text() -> Seq<char> {
    "<p><em>No data available.</em></p>"@
}

fn array_ref<'a>(data: &'a Json, k: &str, empty: &'a Vec<Json>) -> (r: &'a Vec<Json>)
    requires
        empty@.len() == 0,
    ensures
        jsons_view(r@) == array_items(field(data@, k@)),
{
    match data.get(k) {
        Some(Json::Array(a)) => {
            proof {
                lemma_items_view(*a, a.len() as nat);
                assert(jsons_view(a@) =~= items_view(*a, a.len() as nat));
            }
            a
        },
        _ => {
            assert(jsons_view(empty@) =~= Seq::<JsonV>::empty());
            empty
        },
    }
}

/// Renders a snapshot: the overview page titled `Current model`, with the
/// counts and a section per kind of entity, and one page per family. A
/// snapshot that is not an object gives a placeholder overview and no
/// family pages. The label of the snapshot does not enter the pages.
pub fn render_snapshot_pages(_label: Option<&str>, data: &Json) -> (r: SnapshotPageTree)
    ensures
        r.root_title@ == "Current model"@,
        match data@ {
            JsonV::Object(_) => {
                let families = array_items(field(data@, "families"@));
                let attributes = array_items(field(data@, "attributes"@));
                let order = family_order(families);
                &&& r.root_body@ == root_body_text(data@)
                &&& r.children.len() == families.len()
                &&& forall|i: int|
                    0 <= i < families.len() ==> #[trigger] r.children[i].title@ == child_title(
                        families[order[i] as int],
                    ) && r.children[i].body@ == family_detail_text(
                        families[order[i] as int],
                        attributes,
                    )
            },
            _ => r.root_body@ == no_data_text() && r.children.len() == 0,
        },
{
    let root_title = "Current model".to_owned();
    match data {
        Json::Object(_) => {},
        _ => {
            return SnapshotPageTree {
                root_title,
                root_body: "<p><em>No data available.</em></p>".to_owned(),
                children: Vec::new(),
            };
        },
    }
    let empty: Vec<Json> = Vec::new();
    let channels = array_ref(data, "channels", &empty);
    let families = array_ref(data, "families", &empty);
    let attributes = array_ref(data, "attributes", &empty);
    let categories = array_ref(data, "categories", &empty);
    let options = data.get("attribute_options");
    let options_total = count_options(options);
    let mut body = "<h1>Akeneo Model Snapshot</h1>".to_owned();
    body.append("<p>Overview of the PIM data model configuration \u{2014} channels, families, attributes, categories, and attribute options.</p>");
    body.append("<hr/>");
    let cards = render_summary_cards(channels.len(), families.len(), attributes.len(), categories.len(), options_total);
    body.append(cards.as_str());
    let section = render_channels_section(channels);
    body.append(section.as_str());
    let section = render_families_section(families);
    body.append(section.as_str());
    let section = render_attributes_section(attributes);
    body.append(section.as_str());
    let section = render_categories_section(categories);
    body.append(section.as_str());
    let section = render_attribute_options_sections(options);
    body.append(section.as_str());
    let ghost fv = jsons_view(families@);
    let ghost av = jsons_view(attributes@);
    let order = sort_families(families);
    let mut children: Vec<SnapshotChildPage> = Vec::new();
    let mut i: usize = 0;
    while i < order.len()
        invariant
            i <= order.len(),
            fv == jsons_view(families@),
            av == jsons_view(attributes@),
            order@ == family_order(fv),
            is_stable_sort(family_keys(fv), order@),
            children.len() == i,
            forall|j: int|
                0 <= j < i ==> #[trigger] children[j].title@ == child_title(fv[order[j] as int])
                    && children[j].body@ == family_detail_text(fv[order[j] as int], av),
        decreases order.len() - i,
    {
        assert(order[i as int] < families.len());
        let family = &families[order[i]];
        let code = get_code(family);
        let family_label = get_label_or(family, code);
        let mut title = "Family: ".to_owned();
        title.append(family_label.as_str());
        title.append(" (");
        title.append(code);
        title.append(")");
        let page_body = render_family_detail_page(family, attributes);
        children.push(SnapshotChildPage { title, body: page_body });
        i = i + 1;
    }
    SnapshotPageTree { root_title, root_body: body, children }
}

} // verus!
