//! The storage-format building blocks that every page uses: status
//! lozenges, info panels, section headings and check marks.

use vstd::prelude::*;
use crate::text::{decimal, escape, push_decimal, push_escaped, to_upper, upper_text};

verus! {

pub open spec fn lozenge_text(count: nat, color: Seq<char>) -> Seq<char> {
    "<ac:structured-macro ac:name=\"status\"><ac:parameter ac:name=\"title\">"@ + decimal(count)
        + "</ac:parameter><ac:parameter ac:name=\"colour\">"@ + color
        + "</ac:parameter></ac:structured-macro>"@
}

/// A lozenge titled `label: count`, grey when the count is zero.
pub open spec fn badge_text(label: Seq<char>, count: nat, color: Seq<char>) -> Seq<char> {
    "<ac:structured-macro ac:name=\"status\"><ac:parameter ac:name=\"title\">"@ + escape(
        label + ": "@ + decimal(count),
    ) + "</ac:parameter><ac:parameter ac:name=\"colour\">"@ + (if count == 0 {
        "Grey"@
    } else {
        color
    }) + "</ac:parameter></ac:structured-macro>"@
}

pub open spec fn info_panel_text(body: Seq<char>) -> Seq<char> {
    "<ac:structured-macro ac:name=\"info\"><ac:rich-text-body><p>"@ + body
        + "</p></ac:rich-text-body></ac:structured-macro>"@
}

pub open spec fn section_heading_text(label: Seq<char>, count: nat, color: Seq<char>) -> Seq<char> {
    "<h2>"@ + escape(upper_text(label)) + " "@ + lozenge_text(count, color) + "</h2>"@
}

pub open spec fn check_icon_text(val: bool) -> Seq<char> {
    if val {
        "\u{2705}"@
    } else {
        "\u{274C}"@
    }
}

/// A status lozenge that shows a count.
pub fn status_lozenge(count: usize, color: &str) -> (r: String)
    ensures
        r@ == lozenge_text(count as nat, color@),
{
    let mut out = "<ac:structured-macro ac:name=\"status\"><ac:parameter ac:name=\"title\">".to_owned();
    push_decimal(&mut out, count);
    out.append("</ac:parameter><ac:parameter ac:name=\"colour\">");
    out.append(color);
    out.append("</ac:parameter></ac:structured-macro>");
    out
}

/// A status lozenge titled `label: count`, in `color`, or grey for a zero count.
pub fn status_badge(label: &str, count: usize, color: &str) -> (r: String)
    ensures
        r@ == badge_text(label@, count as nat, color@),
{
    let mut title = label.to_owned();
    title.append(": ");
    push_decimal(&mut title, count);
    let mut out = "<ac:structured-macro ac:name=\"status\"><ac:parameter ac:name=\"title\">".to_owned();
    push_escaped(&mut out, title.as_str());
    out.append("</ac:parameter><ac:parameter ac:name=\"colour\">");
    if count == 0 {
        out.append("Grey");
    } else {
        out.append(color);
    }
    out.append("</ac:parameter></ac:structured-macro>");
    out
}

/// An info panel around a body that is already markup.
pub fn info_panel(body_html: &str) -> (r: String)
    ensures
        r@ == info_panel_text(body_html@),
{
    let mut out = "<ac:structured-macro ac:name=\"info\"><ac:rich-text-body><p>".to_owned();
    out.append(body_html);
    out.append("</p></ac:rich-text-body></ac:structured-macro>");
    out
}

/// A second-level heading: the label in upper case and a count lozenge.
pub fn section_heading(label: &str, count: usize, color: &str) -> (r: String)
    ensures
        r@ == section_heading_text(label@, count as nat, color@),
{
    let upper = to_upper(label);
    let mut out = "<h2>".to_owned();
    push_escaped(&mut out, upper.as_str());
    out.append(" ");
    let lozenge = status_lozenge(count, color);
    out.append(lozenge.as_str());
    out.append("</h2>");
    out
}

/// A check mark for `true`, a cross for `false`.
pub fn check_icon(val: bool) -> (r: &'static str)
    ensures
        r@ == check_icon_text(val),
{
    if val {
        "\u{2705}"
    } else {
        "\u{274C}"
    }
}

} // verus!
