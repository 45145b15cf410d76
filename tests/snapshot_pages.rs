use pim_docs::family::render_family_detail_page;
use pim_docs::json::Json;
use pim_docs::snapshot::{render_attribute_options_sections, render_snapshot_pages, render_summary_cards};

fn s(v: &str) -> Json {
    Json::Str(v.to_string())
}

fn n(v: &str) -> Json {
    Json::Number(v.to_string())
}

fn obj(members: Vec<(&str, Json)>) -> Json {
    Json::Object(members.into_iter().map(|(k, v)| (k.to_string(), v)).collect())
}

fn arr(items: Vec<Json>) -> Json {
    Json::Array(items)
}

fn lozenge(count: &str, color: &str) -> String {
    format!(
        "<ac:structured-macro ac:name=\"status\"><ac:parameter ac:name=\"title\">{}</ac:parameter><ac:parameter ac:name=\"colour\">{}</ac:parameter></ac:structured-macro>",
        count, color
    )
}

#[test]
fn non_object_snapshot_gives_placeholder() {
    let tree = render_snapshot_pages(Some("x"), &arr(vec![]));
    assert_eq!(tree.root_title, "Current model");
    assert_eq!(tree.root_body, "<p><em>No data available.</em></p>");
    assert!(tree.children.is_empty());
}

#[test]
fn child_pages_follow_family_name_order() {
    let data = obj(vec![
        (
            "families",
            arr(vec![
                obj(vec![("code", s("shoes")), ("labels", obj(vec![("en_US", s("Shoes"))]))]),
                obj(vec![("code", s("bags"))]),
                obj(vec![]),
            ]),
        ),
        ("attributes", arr(vec![])),
    ]);
    let tree = render_snapshot_pages(None, &data);
    let titles: Vec<&str> = tree.children.iter().map(|c| c.title.as_str()).collect();
    assert_eq!(titles, vec!["Family: bags (bags)", "Family: Shoes (shoes)", "Family: unknown (unknown)"]);
    assert!(tree.root_body.starts_with("<h1>Akeneo Model Snapshot</h1>"));
    assert!(tree.root_body.contains(&format!("<h2>FAMILIES {}</h2>", lozenge("3", "Yellow"))));
    assert!(tree.root_body.contains("<p><em>No channels.</em></p>"));
    let bags = tree.root_body.find("<tr><td><code>bags</code>").unwrap();
    let shoes = tree.root_body.find("<tr><td><code>shoes</code>").unwrap();
    let unknown = tree.root_body.find("<tr><td><code>unknown</code>").unwrap();
    assert!(bags < shoes && shoes < unknown);
}

#[test]
fn summary_cards_show_counts() {
    let cards = render_summary_cards(1, 2, 3, 4, 5);
    assert!(cards.starts_with("<table data-layout=\"full-width\"><tbody><tr><td><p>\u{1F4E1}</p><p><strong style=\"font-size: 24px;\">1</strong></p><p><em>Channels</em></p></td>"));
    assert!(cards.ends_with("<td><p>\u{1F4CB}</p><p><strong style=\"font-size: 24px;\">5</strong></p><p><em>Attr. Options</em></p></td></tr></tbody></table>"));
}

#[test]
fn options_grouped_and_sorted_by_attribute() {
    let options = obj(vec![
        ("size", arr(vec![obj(vec![("code", s("xl")), ("sort_order", n("2"))])])),
        ("color", arr(vec![])),
        ("broken", s("x")),
    ]);
    let text = render_attribute_options_sections(Some(&options));
    let expected = format!(
        "<h2>ATTRIBUTE OPTIONS {}</h2><h3>Attribute: <code>color</code> {}</h3><p><em>No options.</em></p><h3>Attribute: <code>size</code> {}</h3><table data-layout=\"full-width\"><tbody><tr><th>Code</th><th>Label</th><th>Sort Order</th></tr><tr><td><code>xl</code></td><td>\u{2014}</td><td>2</td></tr></tbody></table>",
        lozenge("1", "Yellow"),
        lozenge("0", "Grey"),
        lozenge("1", "Grey")
    );
    assert_eq!(text, expected);
    let none = render_attribute_options_sections(None);
    assert_eq!(none, format!("<h2>ATTRIBUTE OPTIONS {}</h2><p><em>No attribute options.</em></p>", lozenge("0", "Grey")));
}

#[test]
fn family_page_joins_attribute_definitions() {
    let family = obj(vec![
        ("code", s("shoes")),
        ("attributes", arr(vec![s("sku"), s("ghost")])),
        (
            "attribute_requirements",
            obj(vec![("mobile", arr(vec![s("sku")])), ("Ecommerce", arr(vec![s("sku"), n("1")]))]),
        ),
    ]);
    let attributes = vec![obj(vec![
        ("code", s("sku")),
        ("type", s("identifier")),
        ("group", s("general")),
        ("scopable", Json::Bool(true)),
    ])];
    let page = render_family_detail_page(&family, &attributes);
    assert!(page.starts_with("<h1>shoes</h1><p><code>shoes</code> \u{2014} Family configuration"));
    assert!(page.contains("<td><strong>Parent</strong><br/>\u{2014} No parent</td>"));
    assert!(page.contains("<strong style=\"font-size: 24px;\">2</strong>"));
    let requirements = "<tr><td><strong>Ecommerce</strong></td><td><code>sku</code></td></tr><tr><td><strong>mobile</strong></td><td><code>sku</code></td></tr>";
    assert!(page.contains(requirements));
    assert!(page.contains("<tr><td><code>sku</code></td><td><code>identifier</code></td><td>general</td><td>\u{2705}</td><td>\u{274C}</td><td>mobile, Ecommerce</td></tr>"));
    assert!(page.contains("<tr><td><code>ghost</code></td><td><code>\u{2014}</code></td><td>\u{2014}</td><td>\u{274C}</td><td>\u{274C}</td><td>\u{2014}</td></tr>"));
}

#[test]
fn family_without_requirements_or_attributes() {
    let page = render_family_detail_page(&obj(vec![("code", s("f"))]), &Vec::new());
    assert!(page.contains("<p><em>No attribute requirements defined.</em></p>"));
    assert!(page.ends_with("<p><em>No attributes in this family.</em></p>"));
}

#[test]
fn overview_tables_render_rows() {
    let data = obj(vec![
        (
            "channels",
            arr(vec![obj(vec![
                ("code", s("web")),
                ("locales", arr(vec![s("en_US"), s("de_DE")])),
                ("currencies", arr(vec![s("EUR")])),
            ])]),
        ),
        ("categories", arr(vec![obj(vec![("code", s("root")), ("labels", obj(vec![("en_US", s("Root")), ("de_DE", Json::Null)]))])])),
        ("attribute_options", obj(vec![("a", arr(vec![obj(vec![]), obj(vec![])])), ("b", arr(vec![obj(vec![])]))])),
    ]);
    let tree = render_snapshot_pages(None, &data);
    assert!(tree.root_body.contains("<tr><td><code>web</code></td><td>\u{2014}</td><td>en_US, de_DE</td><td>EUR</td><td>\u{2014}</td></tr>"));
    assert!(tree.root_body.contains("<tr><td><code>root</code></td><td><strong>en_US</strong>: Root, <strong>de_DE</strong>: \u{2014}</td><td>\u{2014}</td><td>\u{2014}</td></tr>"));
    assert!(tree.root_body.contains("<strong style=\"font-size: 24px;\">3</strong></p><p><em>Attr. Options</em>"));
}
