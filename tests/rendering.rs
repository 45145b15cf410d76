use pim_docs::diff::{parse_diff_data, DiffReport};
use pim_docs::json::Json;
use pim_docs::markup::{check_icon, info_panel, section_heading, status_badge, status_lozenge};
use pim_docs::render::{render_changed_section, render_diff_header, render_diff_page, render_item_table};
use pim_docs::text::{capitalize, escape_html};

fn s(v: &str) -> Json {
    Json::Str(v.to_string())
}

fn obj(members: Vec<(&str, Json)>) -> Json {
    Json::Object(members.into_iter().map(|(k, v)| (k.to_string(), v)).collect())
}

fn arr(items: Vec<Json>) -> Json {
    Json::Array(items)
}

fn lozenge(count: &str, color: &str) -> String {
    format!(
        "<ac:structured-macro ac:name=\"status\"><ac:parameter ac:name=\"title\">{}</ac:parameter><ac:parameter ac:name=\"colour\">{}</ac:parameter></ac:structured-macro>",
        count, color
    )
}

#[test]
fn item_table_unites_columns_and_fills_gaps() {
    let items = vec![
        obj(vec![("code", s("a")), ("type", s("text"))]),
        obj(vec![("code", s("b")), ("group", s("g"))]),
    ];
    let table = render_item_table(&items);
    let expected = "<table data-layout=\"full-width\"><tbody>\
        <tr><th>Code</th><th>Type</th><th>Group</th></tr>\
        <tr><td><code>a</code></td><td>text</td><td>\u{2014}</td></tr>\
        <tr><td><code>b</code></td><td>\u{2014}</td><td>g</td></tr>\
        </tbody></table>";
    assert_eq!(table, expected);
}

#[test]
fn sections_follow_case_insensitive_name_order() {
    let empty = || obj(vec![]);
    let root = obj(vec![("Zebra", empty()), ("apple", empty()), ("Mango", empty())]);
    let report: DiffReport = parse_diff_data(&root).unwrap();
    let (title, body) = render_diff_page(None, Some("v2"), &report);
    assert_eq!(title, "Diff: before \u{2192} v2");
    let apple = body.find("<h2>Apple</h2>").unwrap();
    let mango = body.find("<h2>Mango</h2>").unwrap();
    let zebra = body.find("<h2>Zebra</h2>").unwrap();
    assert!(apple < mango && mango < zebra);
    let summary_apple = body.find("<tr><td><strong>Apple</strong></td>").unwrap();
    let summary_zebra = body.find("<tr><td><strong>Zebra</strong></td>").unwrap();
    assert!(summary_apple < summary_zebra && summary_zebra < apple);
}

#[test]
fn diff_page_has_header_summary_and_sections() {
    let root = obj(vec![(
        "attributes",
        obj(vec![
            ("added", arr(vec![obj(vec![("code", s("color"))])])),
            (
                "changed",
                arr(vec![obj(vec![
                    ("code", s("size")),
                    ("changes", obj(vec![("type", obj(vec![("old", s("a")), ("new", s("b"))]))])),
                ])]),
            ),
        ]),
    )]);
    let report = parse_diff_data(&root).unwrap();
    let (_, body) = render_diff_page(Some("v1"), Some("v2"), &report);
    let expected = format!(
        "{}{}{}{}",
        render_diff_header("v1", "v2"),
        format!(
            "<h2>Summary</h2><table data-layout=\"full-width\"><tbody><tr><th>Category</th><th>Added</th><th>Removed</th><th>Changed</th></tr><tr><td><strong>Attributes</strong></td><td>{}</td><td>{}</td><td>{}</td></tr></tbody></table>",
            status_badge("Added", 1, "Green"),
            status_badge("Removed", 0, "Red"),
            status_badge("Changed", 1, "Yellow")
        ),
        format!(
            "<h2>Attributes</h2><h3>{} Added</h3><table data-layout=\"full-width\"><tbody><tr><th>Code</th></tr><tr><td><code>color</code></td></tr></tbody></table><h3>{} Removed</h3><p><em>No removals.</em></p>",
            lozenge("1", "Green"),
            lozenge("0", "Red")
        ),
        render_changed_section(&report.categories[0].1.changed)
    );
    assert_eq!(body, expected);
}

#[test]
fn changed_section_lists_fields_and_list_sides() {
    let root = obj(vec![(
        "families",
        obj(vec![(
            "changed",
            arr(vec![obj(vec![
                ("code", s("shoes")),
                (
                    "changes",
                    obj(vec![
                        ("label", obj(vec![("old", s("<a>")), ("new", s("b&c"))])),
                        ("attributes", obj(vec![("added", arr(vec![s("x"), s("y")])), ("removed", arr(vec![s("z")]))])),
                    ]),
                ),
            ])]),
        )]),
    )]);
    let report = parse_diff_data(&root).unwrap();
    let section = render_changed_section(&report.categories[0].1.changed);
    let expected = format!(
        "<h3>{} Changed</h3><table data-layout=\"full-width\"><tbody><tr><th>Code</th><th>Field</th><th>Old Value</th><th>New Value</th></tr>\
         <tr><td><code>shoes</code></td><td><code>label</code></td><td><span style=\"color: red;\">&lt;a&gt;</span></td><td><span style=\"color: green;\">b&amp;c</span></td></tr>\
         <tr><td><code>shoes</code></td><td><code>attributes.added</code></td><td></td><td><span style=\"color: green;\">x, y</span></td></tr>\
         <tr><td><code>shoes</code></td><td><code>attributes.removed</code></td><td><span style=\"color: red;\">z</span></td><td></td></tr>\
         </tbody></table>",
        lozenge("1", "Yellow")
    );
    assert_eq!(section, expected);
}

#[test]
fn empty_changed_section_says_so() {
    let section = render_changed_section(&Vec::new());
    assert_eq!(section, format!("<h3>{} Changed</h3><p><em>No changes.</em></p>", lozenge("0", "Yellow")));
}

#[test]
fn badge_is_grey_for_zero() {
    assert_eq!(
        status_badge("Added", 0, "Green"),
        "<ac:structured-macro ac:name=\"status\"><ac:parameter ac:name=\"title\">Added: 0</ac:parameter><ac:parameter ac:name=\"colour\">Grey</ac:parameter></ac:structured-macro>"
    );
    assert_eq!(status_badge("A&B", 12, "Green"), lozenge("A&amp;B: 12", "Green"));
}

#[test]
fn lozenge_shows_the_decimal_count() {
    assert_eq!(status_lozenge(120, "Blue"), lozenge("120", "Blue"));
    assert_eq!(status_lozenge(0, "Grey"), lozenge("0", "Grey"));
    assert_eq!(status_lozenge(18446744073709551615, "Red"), lozenge("18446744073709551615", "Red"));
}

#[test]
fn escaping_covers_the_four_characters() {
    assert_eq!(escape_html("a<b>&\"c'"), "a&lt;b&gt;&amp;&quot;c'");
    assert_eq!(escape_html(""), "");
}

#[test]
fn capitalize_first_character() {
    assert_eq!(capitalize("attributes"), "Attributes");
    assert_eq!(capitalize("\u{e9}t\u{e9}"), "\u{c9}t\u{e9}");
    assert_eq!(capitalize("\u{df}x"), "SSx");
    assert_eq!(capitalize(""), "");
}

#[test]
fn heading_is_upper_case() {
    assert_eq!(section_heading("Attr. Options", 3, "Yellow"), format!("<h2>ATTR. OPTIONS {}</h2>", lozenge("3", "Yellow")));
}

#[test]
fn panel_and_icons() {
    assert_eq!(
        info_panel("<b>x</b>"),
        "<ac:structured-macro ac:name=\"info\"><ac:rich-text-body><p><b>x</b></p></ac:rich-text-body></ac:structured-macro>"
    );
    assert_eq!(check_icon(true), "\u{2705}");
    assert_eq!(check_icon(false), "\u{274C}");
}

#[test]
fn header_escapes_labels() {
    assert_eq!(
        render_diff_header("a<b", "c"),
        format!("{}<hr/>", info_panel("<strong>Before:</strong> a&lt;b<br/><strong>After:</strong> c"))
    );
}

#[test]
fn equal_lowercase_names_keep_payload_order() {
    let empty = || obj(vec![]);
    let with_item = obj(vec![("added", arr(vec![obj(vec![("code", s("x"))])]))]);
    let root = obj(vec![("b", empty()), ("apple", with_item), ("Apple", empty())]);
    let report = parse_diff_data(&root).unwrap();
    let (_, body) = render_diff_page(None, None, &report);
    let first = body.find("<h2>Apple</h2>").unwrap();
    let second = body[first + 1..].find("<h2>Apple</h2>").unwrap() + first + 1;
    let item = body.find("<td><code>x</code></td>").unwrap();
    let b = body.find("<h2>B</h2>").unwrap();
    assert!(first < item && item < second && second < b);
}
