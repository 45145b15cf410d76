//! The detail page of one family: its configuration, its required
//! attributes per channel, and its attributes joined with their definitions.

use vstd::prelude::*;
use crate::diff::{jsons_view, strings_view};
use crate::json::{field, items_view, lemma_items_view, lemma_members_view, members_view, opt_view, str_eq, Json, JsonV};
use crate::markup::{check_icon, check_icon_text, lozenge_text, status_lozenge};
use crate::render::{contains_text, join_escaped, joined_escaped, table_close, table_open};
use crate::snapshot::{
    array_len, bool_field, code_of, dash, get_array_len, get_bool, get_code, get_label_or, get_str_or,
    label_or, str_field_or, strings_among,
};
use crate::text::{decimal, escape, is_stable_sort, lemma_sorted_order, lower_of, sorted_order, push_decimal, push_escaped, stable_sort_order, to_lower};

verus! {

/// A family's label, or its code where it has none.
pub open spec fn family_label(f: JsonV) -> Seq<char> {
    label_or(f, code_of(f))
}

pub open spec fn config_table_text(f: JsonV) -> Seq<char> {
    table_open() + "<tr>"@ + "<td><strong>Family Code</strong><br/><code>"@ + escape(code_of(f))
        + "</code></td>"@ + "<td><strong>Label</strong><br/>"@ + escape(family_label(f)) + "</td>"@
        + "<td><strong>Parent</strong><br/>"@ + escape(
        str_field_or(f, "parent"@, "\u{2014} No parent"@),
    ) + "</td>"@ + "</tr><tr>"@ + "<td><strong>Attribute as Label</strong><br/><code>"@ + escape(
        str_field_or(f, "attribute_as_label"@, dash()),
    ) + "</code></td>"@ + "<td><strong>Attribute as Image</strong><br/><code>"@ + escape(
        str_field_or(f, "attribute_as_image"@, dash()),
    ) + "</code></td>"@
        + "<td><strong>Total Attributes</strong><br/><strong style=\"font-size: 24px;\">"@
        + decimal(array_len(f, "attributes"@)) + "</strong></td>"@ + "</tr></tbody></table>"@
}

/// The channel-to-required-attributes object of a family.
pub open spec fn requirements(f: JsonV) -> Seq<(Seq<char>, JsonV)> {
    match field(f, "attribute_requirements"@) {
        Some(JsonV::Object(m)) => m,
        _ => Seq::empty(),
    }
}

/// The first `n` texts as escaped `<code>` elements, separated by `, `.
pub open spec fn code_list(list: Seq<Seq<char>>, n: nat) -> Seq<char>
    decreases n,
{
    if n == 0 || n > list.len() {
        Seq::empty()
    } else {
        let tag = "<code>"@ + escape(list[n - 1]) + "</code>"@;
        if n == 1 {
            tag
        } else {
            code_list(list, (n - 1) as nat) + ", "@ + tag
        }
    }
}

/// The required attributes of one channel: the strings of an array as
/// code elements; a dash for any other value.
pub open spec fn required_cell(v: JsonV) -> Seq<char> {
    match v {
        JsonV::Array(a) => code_list(strings_among(a, a.len()), strings_among(a, a.len()).len()),
        _ => dash(),
    }
}

pub open spec fn requirement_row(channel: Seq<char>, v: JsonV) -> Seq<char> {
    "<tr><td><strong>"@ + escape(channel) + "</strong></td><td>"@ + required_cell(v) + "</td></tr>"@
}

pub open spec fn requirement_rows(m: Seq<(Seq<char>, JsonV)>, order: Seq<usize>, n: nat) -> Seq<char>
    decreases n,
{
    if n == 0 || n > order.len() {
        Seq::empty()
    } else {
        requirement_rows(m, order, (n - 1) as nat) + requirement_row(
            m[order[n - 1] as int].0,
            m[order[n - 1] as int].1,
        )
    }
}

/// The channel names, lowercased: the keys by which channels are listed.
pub open spec fn channel_keys(m: Seq<(Seq<char>, JsonV)>) -> Seq<Seq<char>> {
    m.map_values(|e: (Seq<char>, JsonV)| lower_of(e.0))
}

/// The requirements table, channels in the stable sort of their
/// lowercased names.
pub open spec fn requirements_text(f: JsonV) -> Seq<char> {
    let m = requirements(f);
    let order = sorted_order(channel_keys(m));
    if m.len() > 0 {
        table_open() + "<tr><th>Channel</th><th>Required Attributes</th></tr>"@ + requirement_rows(
            m,
            order,
            order.len(),
        ) + table_close()
    } else {
        "<p><em>No attribute requirements defined.</em></p>"@
    }
}

/// The last of the first `n` attribute definitions whose code is `code`.
pub open spec fn find_attribute(attrs: Seq<JsonV>, code: Seq<char>, n: nat) -> Option<JsonV>
    decreases n,
{
    if n == 0 || n > attrs.len() {
        None
    } else if field(attrs[n - 1], "code"@) == Some(JsonV::Str(code)) {
        Some(attrs[n - 1])
    } else {
        find_attribute(attrs, code, (n - 1) as nat)
    }
}

/// The channels among the first `n` requirements whose list names `code`.
pub open spec fn required_channels(m: Seq<(Seq<char>, JsonV)>, code: Seq<char>, n: nat) -> Seq<Seq<char>>
    decreases n,
{
    if n == 0 || n > m.len() {
        Seq::empty()
    } else {
        let rest = required_channels(m, code, (n - 1) as nat);
        match m[n - 1].1 {
            JsonV::Array(a) => if strings_among(a, a.len()).contains(code) {
                rest.push(m[n - 1].0)
            } else {
                rest
            },
            _ => rest,
        }
    }
}

/// A member of the definition of an attribute, or `default` where there
/// is no definition or no such member.
pub open spec fn meta_str(def: Option<JsonV>, k: Seq<char>) -> Seq<char> {
    match def {
        Some(d) => str_field_or(d, k, dash()),
        None => dash(),
    }
}

pub open spec fn meta_bool(def: Option<JsonV>, k: Seq<char>) -> bool {
    match def {
        Some(d) => bool_field(d, k),
        None => false,
    }
}

pub open spec fn required_text(list: Seq<Seq<char>>) -> Seq<char> {
    if list.len() == 0 {
        dash()
    } else {
        joined_escaped(list, list.len())
    }
}

/// One attribute of a family, joined with its definition and the channels
/// that require it.
pub open spec fn family_attribute_row(
    v: JsonV,
    attrs: Seq<JsonV>,
    reqs: Seq<(Seq<char>, JsonV)>,
) -> Seq<char> {
    let code = match v {
        JsonV::Str(s) => s,
        _ => "unknown"@,
    };
    let def = find_attribute(attrs, code, attrs.len());
    "<tr><td><code>"@ + escape(code) + "</code></td><td><code>"@ + escape(meta_str(def, "type"@))
        + "</code></td><td>"@ + escape(meta_str(def, "group"@)) + "</td><td>"@ + check_icon_text(
        meta_bool(def, "scopable"@),
    ) + "</td><td>"@ + check_icon_text(meta_bool(def, "localizable"@)) + "</td><td>"@
        + required_text(required_channels(reqs, code, reqs.len())) + "</td></tr>"@
}

pub open spec fn family_attribute_rows(
    items: Seq<JsonV>,
    attrs: Seq<JsonV>,
    reqs: Seq<(Seq<char>, JsonV)>,
    n: nat,
) -> Seq<char>
    decreases n,
{
    if n == 0 || n > items.len() {
        Seq::empty()
    } else {
        family_attribute_rows(items, attrs, reqs, (n - 1) as nat) + family_attribute_row(
            items[n - 1],
            attrs,
            reqs,
        )
    }
}

/// The attributes table of a family, or a note where it has none.
pub open spec fn family_attributes_text(f: JsonV, attrs: Seq<JsonV>) -> Seq<char> {
    match field(f, "attributes"@) {
        Some(JsonV::Array(a)) => if a.len() > 0 {
            table_open()
                + "<tr><th>Attribute Code</th><th>Type</th><th>Group</th><th>Scopable</th><th>Localizable</th><th>Required</th></tr>"@
                + family_attribute_rows(a, attrs, requirements(f), a.len()) + table_close()
        } else {
            "<p><em>No attributes in this family.</em></p>"@
        },
        _ => "<p><em>No attributes in this family.</em></p>"@,
    }
}

/// The detail page of a family.
pub open spec fn family_detail_text(f: JsonV, attrs: Seq<JsonV>) -> Seq<char> {
    "<h1>"@ + escape(family_label(f)) + "</h1>"@ + "<p><code>"@ + escape(code_of(f))
        + "</code> \u{2014} Family configuration and associated attributes from the Akeneo PIM snapshot.</p>"@
        + "<hr/>"@ + "<h2>Family Configuration</h2>"@ + config_table_text(f)
        + "<h2>Attribute Requirements</h2>"@ + requirements_text(f) + "<h2>Family Attributes "@
        + lozenge_text(array_len(f, "attributes"@), "Purple"@) + "</h2>"@ + family_attributes_text(
        f,
        attrs,
    )
}


fn config_table_string(family: &Json) -> (r: String)
    ensures
        r@ == config_table_text(family@),
{
    let code = get_code(family);
    let label = get_label_or(family, code);
    let mut out = "<table data-layout=\"full-width\"><tbody>".to_owned();
    out.append("<tr>");
    out.append("<td><strong>Family Code</strong><br/><code>");
    push_escaped(&mut out, code);
    out.append("</code></td>");
    out.append("<td><strong>Label</strong><br/>");
    push_escaped(&mut out, label.as_str());
    out.append("</td>");
    out.append("<td><strong>Parent</strong><br/>");
    push_escaped(&mut out, get_str_or(family, "parent", "\u{2014} No parent"));
    out.append("</td>");
    out.append("</tr><tr>");
    out.append("<td><strong>Attribute as Label</strong><br/><code>");
    push_escaped(&mut out, get_str_or(family, "attribute_as_label", "\u{2014}"));
    out.append("</code></td>");
    out.append("<td><strong>Attribute as Image</strong><br/><code>");
    push_escaped(&mut out, get_str_or(family, "attribute_as_image", "\u{2014}"));
    out.append("</code></td>");
    out.append("<td><strong>Total Attributes</strong><br/><strong style=\"font-size: 24px;\">");
    push_decimal(&mut out, get_array_len(family, "attributes"));
    out.append("</strong></td>");
    out.append("</tr></tbody></table>");
    out
}

/// The strings among the items of an array.
fn strings_of(a: &Vec<Json>) -> (r: Vec<String>)
    ensures
        strings_view(r@) == strings_among(jsons_view(a@), a.len() as nat),
{
    let ghost av = jsons_view(a@);
    let mut out: Vec<String> = Vec::new();
    let mut i: usize = 0;
    while i < a.len()
        invariant
            i <= a.len(),
            av == jsons_view(a@),
            strings_view(out@) == strings_among(av, i as nat),
        decreases a.len() - i,
    {
        match &a[i] {
            Json::Str(s) => {
                let ghost before = out@;
                out.push(s.clone());
                assert(strings_view(out@) =~= strings_view(before).push(s@));
            },
            _ => {},
        }
        i = i + 1;
    }
    out
}

fn required_cell_string(v: &Json) -> (r: String)
    ensures
        r@ == required_cell(v@),
{
    match v {
        Json::Array(a) => {
            proof {
                lemma_items_view(*a, a.len() as nat);
                assert(jsons_view(a@) =~= items_view(*a, a.len() as nat));
            }
            let list = strings_of(a);
            let ghost lv = strings_view(list@);
            let mut out = String::new();
            let mut i: usize = 0;
            while i < list.len()
                invariant
                    i <= list.len(),
                    lv == strings_view(list@),
                    out@ == code_list(lv, i as nat),
                decreases list.len() - i,
            {
                let mut tag = "<code>".to_owned();
                push_escaped(&mut tag, list[i].as_str());
                tag.append("</code>");
                if i > 0 {
                    out.append(", ");
                }
                out.append(tag.as_str());
                proof {
                    if i == 0 {
                        assert(out@ =~= code_list(lv, 1));
                    }
                }
                i = i + 1;
            }
            out
        },
        _ => "\u{2014}".to_owned(),
    }
}

/// The members of a family's requirements object.
fn requirements_of(family: &Json) -> (r: Option<&Vec<(String, Json)>>)
    ensures
        match r {
            Some(m) => requirements(family@) == members_view(*m, m.len() as nat),
            None => requirements(family@) == Seq::<(Seq<char>, JsonV)>::empty(),
        },
{
    match family.get("attribute_requirements") {
        Some(Json::Object(m)) => Some(m),
        _ => None,
    }
}

/// The requirements table of a family, channels sorted by lowercased name.
pub fn render_requirements(family: &Json) -> (r: String)
    ensures
        r@ == requirements_text(family@),
{
    let m = match requirements_of(family) {
        Some(m) => m,
        None => {
            let r = "<p><em>No attribute requirements defined.</em></p>".to_owned();
            return r;
        },
    };
    proof {
        lemma_members_view(*m, m.len() as nat);
    }
    let ghost mv = members_view(*m, m.len() as nat);
    let mut keys: Vec<String> = Vec::new();
    let mut i: usize = 0;
    while i < m.len()
        invariant
            i <= m.len(),
            mv.len() == m.len(),
            forall|j: int| 0 <= j < m.len() ==> #[trigger] mv[j] == (m[j].0@, m[j].1@),
            keys.len() == i,
            forall|j: int| 0 <= j < i ==> #[trigger] keys[j]@ == lower_of(mv[j].0),
        decreases m.len() - i,
    {
        assert(mv[i as int] == (m[i as int].0@, m[i as int].1@));
        let k = to_lower(m[i].0.as_str());
        keys.push(k);
        i = i + 1;
    }
    assert(keys@.map_values(|k: String| k@) =~= channel_keys(mv));
    let order = stable_sort_order(&keys);
    proof {
        lemma_sorted_order(channel_keys(mv), order@);
    }
    if m.len() == 0 {
        return "<p><em>No attribute requirements defined.</em></p>".to_owned();
    }
    let mut rows = String::new();
    let mut k: usize = 0;
    while k < order.len()
        invariant
            k <= order.len(),
            mv.len() == m.len(),
            forall|j: int| 0 <= j < m.len() ==> #[trigger] mv[j] == (m[j].0@, m[j].1@),
            is_stable_sort(channel_keys(mv), order@),
            mv == requirements(family@),
            rows@ == requirement_rows(mv, order@, k as nat),
        decreases order.len() - k,
    {
        let idx = order[k];
        assert(idx < m.len());
        assert(mv[idx as int] == (m[idx as int].0@, m[idx as int].1@));
        let mut row = "<tr><td><strong>".to_owned();
        push_escaped(&mut row, m[idx].0.as_str());
        row.append("</strong></td><td>");
        let cell = required_cell_string(&m[idx].1);
        row.append(cell.as_str());
        row.append("</td></tr>");
        rows.append(row.as_str());
        k = k + 1;
    }
    let mut out = "<table data-layout=\"full-width\"><tbody>".to_owned();
    out.append("<tr><th>Channel</th><th>Required Attributes</th></tr>");
    out.append(rows.as_str());
    out.append("</tbody></table>");
    assert(out@ == requirements_text(family@));
    out
}

/// The definition of the attribute `code`: the last one that carries it.
pub fn find_attribute_def<'a>(attrs: &'a Vec<Json>, code: &str) -> (r: Option<&'a Json>)
    ensures
        opt_view(r) == find_attribute(jsons_view(attrs@), code@, attrs.len() as nat),
{
    let ghost av = jsons_view(attrs@);
    let mut i: usize = attrs.len();
    while i > 0
        invariant
            i <= attrs.len(),
            av == jsons_view(attrs@),
            find_attribute(av, code@, attrs.len() as nat) == find_attribute(av, code@, i as nat),
        decreases i,
    {
        match attrs[i - 1].get("code") {
            Some(Json::Str(c)) => {
                if str_eq(c.as_str(), code) {
                    return Some(&attrs[i - 1]);
                }
            },
            _ => {},
        }
        i = i - 1;
    }
    None
}

/// The channels whose required list names `code`, in requirement order.
fn channels_requiring(reqs: &Vec<(String, Json)>, code: &str) -> (r: Vec<String>)
    ensures
        strings_view(r@) == required_channels(members_view(*reqs, reqs.len() as nat), code@, reqs.len() as nat),
{
    proof {
        lemma_members_view(*reqs, reqs.len() as nat);
    }
    let ghost mv = members_view(*reqs, reqs.len() as nat);
    let mut out: Vec<String> = Vec::new();
    let mut i: usize = 0;
    while i < reqs.len()
        invariant
            i <= reqs.len(),
            mv.len() == reqs.len(),
            forall|j: int| 0 <= j < reqs.len() ==> #[trigger] mv[j] == (reqs[j].0@, reqs[j].1@),
            strings_view(out@) == required_channels(mv, code@, i as nat),
        decreases reqs.len() - i,
    {
        assert(mv[i as int] == (reqs[i as int].0@, reqs[i as int].1@));
        match &reqs[i].1 {
            Json::Array(a) => {
                proof {
                    lemma_items_view(*a, a.len() as nat);
                    assert(jsons_view(a@) =~= items_view(*a, a.len() as nat));
                }
                let list = strings_of(a);
                if contains_text(&list, code) {
                    let ghost before = out@;
                    out.push(reqs[i].0.clone());
                    assert(strings_view(out@) =~= strings_view(before).push(mv[i as int].0));
                }
            },
            _ => {},
        }
        i = i + 1;
    }
    out
}

fn family_attribute_row_string(v: &Json, attrs: &Vec<Json>, family: &Json) -> (r: String)
    ensures
        r@ == family_attribute_row(v@, jsons_view(attrs@), requirements(family@)),
{
    let code = match v {
        Json::Str(s) => s.as_str(),
        _ => "unknown",
    };
    let def = find_attribute_def(attrs, code);
    let (attr_type, group, scopable, localizable) = match def {
        Some(d) => (get_str_or(d, "type", "\u{2014}"), get_str_or(d, "group", "\u{2014}"), get_bool(d, "scopable"), get_bool(d, "localizable")),
        None => ("\u{2014}", "\u{2014}", false, false),
    };
    let required = match requirements_of(family) {
        Some(m) => {
            proof {
                lemma_members_view(*m, m.len() as nat);
            }
            channels_requiring(m, code)
        },
        None => {
            let none: Vec<String> = Vec::new();
            assert(strings_view(none@) =~= required_channels(requirements(family@), code@, 0));
            none
        },
    };
    let required_display = if required.len() == 0 {
        "\u{2014}".to_owned()
    } else {
        join_escaped(&required)
    };
    let ghost cv = match v@ {
        JsonV::Str(s) => s,
        _ => "unknown"@,
    };
    assert(code@ == cv);
    let ghost dv = find_attribute(jsons_view(attrs@), cv, attrs.len() as nat);
    assert(attr_type@ == meta_str(dv, "type"@));
    assert(group@ == meta_str(dv, "group"@));
    assert(scopable == meta_bool(dv, "scopable"@));
    assert(localizable == meta_bool(dv, "localizable"@));
    assert(strings_view(required@) == required_channels(requirements(family@), cv, requirements(family@).len()));
    assert(required_display@ == required_text(strings_view(required@)));
    let mut out = "<tr><td><code>".to_owned();
    push_escaped(&mut out, code);
    out.append("</code></td><td><code>");
    push_escaped(&mut out, attr_type);
    out.append("</code></td><td>");
    push_escaped(&mut out, group);
    out.append("</td><td>");
    out.append(check_icon(scopable));
    out.append("</td><td>");
    out.append(check_icon(localizable));
    out.append("</td><td>");
    out.append(required_display.as_str());
    out.append("</td></tr>");
    out
}


fn family_attributes_string(family: &Json, attrs: &Vec<Json>) -> (r: String)
    ensures
        r@ == family_attributes_text(family@, jsons_view(attrs@)),
{
    let a = match family.get("attributes") {
        Some(Json::Array(a)) => a,
        _ => return "<p><em>No attributes in this family.</em></p>".to_owned(),
    };
    proof {
        lemma_items_view(*a, a.len() as nat);
        assert(jsons_view(a@) =~= items_view(*a, a.len() as nat));
    }
    if a.len() == 0 {
        return "<p><em>No attributes in this family.</em></p>".to_owned();
    }
    let ghost items = jsons_view(a@);
    let mut rows = String::new();
    let mut i: usize = 0;
    while i < a.len()
        invariant
            i <= a.len(),
            items == jsons_view(a@),
            rows@ == family_attribute_rows(items, jsons_view(attrs@), requirements(family@), i as nat),
        decreases a.len() - i,
    {
        let row = family_attribute_row_string(&a[i], attrs, family);
        rows.append(row.as_str());
        i = i + 1;
    }
    let mut out = "<table data-layout=\"full-width\"><tbody>".to_owned();
    out.append("<tr><th>Attribute Code</th><th>Type</th><th>Group</th><th>Scopable</th><th>Localizable</th><th>Required</th></tr>");
    out.append(rows.as_str());
    out.append("</tbody></table>");
    out
}

/// The detail page of a family: title and code, a configuration table,
/// the required attributes per channel (channels sorted by lowercased
/// name), and the family's attributes joined with their definitions in
/// `all_attributes`. A code without a definition shows dashes.
pub fn render_family_detail_page(family: &Json, all_attributes: &Vec<Json>) -> (r: String)
    ensures
        r@ == family_detail_text(family@, jsons_view(all_attributes@)),
{
    let code = get_code(family);
    let label = get_label_or(family, code);
    let mut out = "<h1>".to_owned();
    push_escaped(&mut out, label.as_str());
    out.append("</h1>");
    out.append("<p><code>");
    push_escaped(&mut out, code);
    out.append("</code> \u{2014} Family configuration and associated attributes from the Akeneo PIM snapshot.</p>");
    out.append("<hr/>");
    out.append("<h2>Family Configuration</h2>");
    let config = config_table_string(family);
    out.append(config.as_str());
    out.append("<h2>Attribute Requirements</h2>");
    let reqs = render_requirements(family);
    out.append(reqs.as_str());
    out.append("<h2>Family Attributes ");
    let lozenge = status_lozenge(get_array_len(family, "attributes"), "Purple");
    out.append(lozenge.as_str());
    out.append("</h2>");
    let attrs = family_attributes_string(family, all_attributes);
    out.append(attrs.as_str());
    out
}

} // verus!
