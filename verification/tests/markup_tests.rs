use rnaf::draw::{DrawOp, StyleAttr, TextStyle};
use rnaf::markup::render_markup;

const TERM: (u16, u16) = (80, 24);

fn printed_text(ops: &[DrawOp]) -> String {
    let mut s = String::new();
    for op in ops {
        match op {
            DrawOp::Print(t) => s.push_str(t),
            DrawOp::PrintStyled(t, _) => s.push_str(t),
            _ => {}
        }
    }
    s
}

fn styled_prints(ops: &[DrawOp]) -> Vec<(String, TextStyle)> {
    let mut v = Vec::new();
    for op in ops {
        if let DrawOp::PrintStyled(t, st) = op {
            v.push((t.clone(), *st));
        }
    }
    v
}

#[test]
fn bold_roundtrip_emits_exactly_bold_x() {
    let out = render_markup("<b>x</b>", TERM, 6);
    assert_eq!(
        out.ops,
        vec![
            DrawOp::MoveTo(0, 6),
            DrawOp::SetStyle(StyleAttr::Bold),
            DrawOp::Print(String::from("x")),
            DrawOp::SetStyle(StyleAttr::NoBold),
            DrawOp::ResetStyle,
        ]
    );
    assert!(out.links.is_empty());
}

#[test]
fn strong_toggles_bold_too() {
    let out = render_markup("<strong>y</strong>", TERM, 6);
    assert_eq!(
        out.ops,
        vec![
            DrawOp::MoveTo(0, 6),
            DrawOp::SetStyle(StyleAttr::Bold),
            DrawOp::Print(String::from("y")),
            DrawOp::SetStyle(StyleAttr::NoBold),
            DrawOp::ResetStyle,
        ]
    );
}

#[test]
fn two_links_numbered_in_document_order() {
    let body = "<a href=\"http://one\">first</a> mid <a href=\"http://two\">second</a>";
    let out = render_markup(body, TERM, 6);
    let styled = styled_prints(&out.ops);
    assert_eq!(
        styled,
        vec![
            (String::from("[1] "), TextStyle::Accent),
            (String::from("[2] "), TextStyle::Accent),
        ]
    );
    assert_eq!(
        out.links,
        vec![String::from("http://one"), String::from("http://two")]
    );
}

#[test]
fn anchor_toggles_underline() {
    let out = render_markup("<a href=\"u\">t</a>", TERM, 6);
    assert_eq!(
        out.ops,
        vec![
            DrawOp::MoveTo(0, 6),
            DrawOp::PrintStyled(String::from("[1] "), TextStyle::Accent),
            DrawOp::SetStyle(StyleAttr::Underline),
            DrawOp::Print(String::from("t")),
            DrawOp::SetStyle(StyleAttr::NoUnderline),
            DrawOp::ResetStyle,
        ]
    );
    assert_eq!(out.links, vec![String::from("u")]);
}

#[test]
fn anchor_without_quoted_target_degrades_to_empty_link() {
    let out = render_markup("<a href=unquoted>t</a>", TERM, 6);
    let styled = styled_prints(&out.ops);
    assert_eq!(styled, vec![(String::from("[1] "), TextStyle::Accent)]);
    assert_eq!(out.links, vec![String::new()]);
}

#[test]
fn word_wrap_chunks_reconstruct_text() {
    // Width 21 leaves 11 columns for text; 25 characters wrap as 11+11+3.
    let text = "abcdefghijklmnopqrstuvwxy";
    let out = render_markup(text, (21, 24), 6);
    assert_eq!(
        out.ops,
        vec![
            DrawOp::MoveTo(0, 6),
            DrawOp::Print(String::from("abcdefghijk")),
            DrawOp::Print(String::from("lmnopqrstuv")),
            DrawOp::Print(String::from("wxy")),
            DrawOp::ResetStyle,
        ]
    );
    assert_eq!(printed_text(&out.ops), text);
}

#[test]
fn short_text_is_one_chunk() {
    let out = render_markup("short", (21, 24), 6);
    assert_eq!(
        out.ops,
        vec![
            DrawOp::MoveTo(0, 6),
            DrawOp::Print(String::from("short")),
            DrawOp::ResetStyle,
        ]
    );
}

#[test]
fn code_span_switches_color() {
    let out = render_markup("<code>k</code>", TERM, 6);
    assert_eq!(
        out.ops,
        vec![
            DrawOp::MoveTo(0, 6),
            DrawOp::SetStyle(StyleAttr::CodeColor),
            DrawOp::Print(String::from("k")),
            DrawOp::SetStyle(StyleAttr::DefaultColor),
            DrawOp::ResetStyle,
        ]
    );
}

#[test]
fn list_item_emits_bullet_on_new_line() {
    let out = render_markup("<ul><li>a</li></ul>", TERM, 6);
    assert_eq!(
        out.ops,
        vec![
            DrawOp::MoveTo(0, 6),
            DrawOp::MoveTo(0, 7),
            DrawOp::Print(String::from("- ")),
            DrawOp::Print(String::from("a")),
            DrawOp::ResetStyle,
        ]
    );
}

#[test]
fn paragraph_moves_to_next_line() {
    let out = render_markup("<p>a", TERM, 6);
    assert_eq!(
        out.ops,
        vec![
            DrawOp::MoveTo(0, 6),
            DrawOp::MoveTo(0, 7),
            DrawOp::Print(String::from("a")),
            DrawOp::ResetStyle,
        ]
    );
}

#[test]
fn newline_breaks_line() {
    let out = render_markup("a\nz", TERM, 6);
    assert_eq!(
        out.ops,
        vec![
            DrawOp::MoveTo(0, 6),
            DrawOp::Print(String::from("a")),
            DrawOp::MoveTo(0, 7),
            DrawOp::Print(String::from("z")),
            DrawOp::ResetStyle,
        ]
    );
}

#[test]
fn preformatted_moves_to_column_zero() {
    let out = render_markup("<pre>c</pre>", TERM, 6);
    assert_eq!(
        out.ops,
        vec![
            DrawOp::MoveTo(0, 6),
            DrawOp::MoveTo(0, 6),
            DrawOp::Print(String::from("c")),
            DrawOp::ResetStyle,
        ]
    );
}

#[test]
fn unknown_tag_degrades_to_literal_text() {
    let out = render_markup("<div>", TERM, 6);
    assert_eq!(
        out.ops,
        vec![
            DrawOp::MoveTo(0, 6),
            DrawOp::Print(String::from("div")),
            DrawOp::ResetStyle,
        ]
    );
}

#[test]
fn unbalanced_delimiter_degrades_to_text() {
    let out = render_markup("x<yy", TERM, 6);
    assert_eq!(
        out.ops,
        vec![
            DrawOp::MoveTo(0, 6),
            DrawOp::Print(String::from("x")),
            DrawOp::Print(String::from("yy")),
            DrawOp::ResetStyle,
        ]
    );
}

#[test]
fn empty_body_only_moves_and_resets() {
    let out = render_markup("", TERM, 6);
    assert_eq!(out.ops, vec![DrawOp::MoveTo(0, 6), DrawOp::ResetStyle]);
    assert!(out.links.is_empty());
}

#[test]
fn closing_tags_without_effect_are_dropped() {
    let out = render_markup("a</p></li></pre></ul>z", TERM, 6);
    assert_eq!(
        out.ops,
        vec![
            DrawOp::MoveTo(0, 6),
            DrawOp::Print(String::from("a")),
            DrawOp::Print(String::from("z")),
            DrawOp::ResetStyle,
        ]
    );
}
