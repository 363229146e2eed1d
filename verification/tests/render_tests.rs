use rnaf::draw::{DrawOp, TextStyle};
use rnaf::model::{item_counts, Feed, Item};
use rnaf::nav::TuiState;
use rnaf::ui::{render, split_lines, Tui};

fn item(title: Option<&str>, desc: Option<&str>) -> Item {
    Item {
        title: title.map(String::from),
        author: None,
        link: None,
        description: desc.map(String::from),
    }
}

fn feed(title: &str, items: Vec<Item>) -> Feed {
    Feed { title: String::from(title), items }
}

fn printed_lines(ops: &[DrawOp]) -> Vec<String> {
    let mut v = Vec::new();
    for op in ops {
        if let DrawOp::Print(t) = op {
            v.push(t.clone());
        }
    }
    v
}

#[test]
fn allfeeds_renders_header_and_highlighted_row() {
    let feeds = vec![feed("Feed One", vec![]), feed("Feed Two", vec![])];
    let out = render(&TuiState::AllFeeds(1), &feeds, (80, 24));
    assert_eq!(
        out.ops,
        vec![
            DrawOp::MoveTo(0, 0),
            DrawOp::PrintStyled(String::from("rnaf - All Feeds"), TextStyle::Accent),
            DrawOp::MoveTo(4, 1),
            DrawOp::Print(String::from("Feed One")),
            DrawOp::MoveTo(4, 2),
            DrawOp::PrintStyled(String::from("Feed Two"), TextStyle::Highlight),
        ]
    );
    assert!(out.links.is_empty());
}

#[test]
fn feedview_names_feed_and_marks_selection() {
    let feeds = vec![feed(
        "News",
        vec![item(Some("First"), None), item(None, None)],
    )];
    let out = render(&TuiState::Feed(0, 0), &feeds, (80, 24));
    assert_eq!(
        out.ops,
        vec![
            DrawOp::MoveTo(0, 0),
            DrawOp::PrintStyled(String::from("rnaf - Feed: News"), TextStyle::Accent),
            DrawOp::MoveTo(4, 1),
            DrawOp::PrintStyled(String::from("First"), TextStyle::Highlight),
            DrawOp::MoveTo(4, 2),
            DrawOp::Print(String::from("unkwn")),
        ]
    );
}

#[test]
fn feedview_truncates_rows_to_viewport() {
    // Height 4 leaves rows 1..=3 under the header: three of the five items.
    let items = (0..5).map(|k| item(Some(&format!("t{}", k)), None)).collect();
    let feeds = vec![feed("N", items)];
    let out = render(&TuiState::Feed(0, 0), &feeds, (80, 4));
    let row_moves = out
        .ops
        .iter()
        .filter(|op| matches!(op, DrawOp::MoveTo(4, _)))
        .count();
    assert_eq!(row_moves, 3);
}

#[test]
fn article_renders_metadata_with_fallbacks() {
    let feeds = vec![feed("N", vec![item(None, Some("body"))])];
    let out = render(&TuiState::Article(0, 0, 0), &feeds, (80, 24));
    let lines = printed_lines(&out.ops);
    assert_eq!(lines[0], "title: unknown");
    assert_eq!(lines[1], "author: unknown");
    assert_eq!(lines[2], "link: unknown");
    assert_eq!(lines[3], "body");
}

#[test]
fn article_scroll_shows_window_of_lines() {
    // Three body lines in a viewport of height 10: all three render from
    // line 0; after one scroll step the render starts at line 1 and shows
    // the remaining two.
    let feeds = vec![feed("N", vec![item(Some("T"), Some("l1\nl2\nl3"))])];
    let out0 = render(&TuiState::Article(0, 0, 0), &feeds, (80, 10));
    let body0: Vec<String> = printed_lines(&out0.ops)[3..].to_vec();
    assert_eq!(body0, vec!["l1", "l2", "l3"]);
    let out1 = render(&TuiState::Article(0, 0, 1), &feeds, (80, 10));
    let body1: Vec<String> = printed_lines(&out1.ops)[3..].to_vec();
    assert_eq!(body1, vec!["l2", "l3"]);
}

#[test]
fn article_body_bound_by_viewport_height() {
    // Height 2 shows only the first two source lines of the body.
    let feeds = vec![feed("N", vec![item(Some("T"), Some("l1\nl2\nl3"))])];
    let out = render(&TuiState::Article(0, 0, 0), &feeds, (80, 2));
    let body: Vec<String> = printed_lines(&out.ops)[3..].to_vec();
    assert_eq!(body, vec!["l1", "l2"]);
}

#[test]
fn article_returns_link_table() {
    let feeds = vec![feed(
        "N",
        vec![item(Some("T"), Some("see <a href=\"http://x\">x</a>"))],
    )];
    let out = render(&TuiState::Article(0, 0, 0), &feeds, (80, 24));
    assert_eq!(out.links, vec![String::from("http://x")]);
}

#[test]
fn stale_feed_index_is_clamped() {
    let feeds = vec![feed("Only", vec![item(Some("I"), Some("d"))])];
    let out = render(&TuiState::Feed(7, 0), &feeds, (80, 24));
    assert_eq!(
        out.ops[1],
        DrawOp::PrintStyled(String::from("rnaf - Feed: Only"), TextStyle::Accent)
    );
    let out2 = render(&TuiState::Article(7, 9, 0), &feeds, (80, 24));
    let lines = printed_lines(&out2.ops);
    assert_eq!(lines[0], "title: I");
}

#[test]
fn empty_model_renders_placeholder_feedview() {
    let feeds: Vec<Feed> = vec![];
    let out = render(&TuiState::Feed(0, 0), &feeds, (80, 24));
    assert_eq!(
        out.ops,
        vec![
            DrawOp::MoveTo(0, 0),
            DrawOp::PrintStyled(String::from("rnaf - Feed: unknown"), TextStyle::Accent),
        ]
    );
}

#[test]
fn helpmenu_renders_static_reference() {
    let feeds: Vec<Feed> = vec![];
    let state = TuiState::HelpMenu(Box::new(TuiState::Article(0, 0, 0)));
    let out = render(&state, &feeds, (80, 24));
    assert_eq!(
        out.ops,
        vec![
            DrawOp::MoveTo(0, 0),
            DrawOp::PrintStyled(String::from("rnaf - Help"), TextStyle::Accent),
            DrawOp::MoveTo(0, 2),
            DrawOp::Print(String::from("Keybindings:")),
            DrawOp::MoveTo(0, 3),
            DrawOp::Print(String::from("?            - Show this menu")),
            DrawOp::MoveTo(0, 4),
            DrawOp::Print(String::from("j/down, k/up - Scroll up and down")),
            DrawOp::MoveTo(0, 5),
            DrawOp::Print(String::from("Enter        - Enter/Confirm selection")),
            DrawOp::MoveTo(0, 6),
            DrawOp::Print(String::from("q/ESC        - Back/Quit")),
        ]
    );
}

#[test]
fn tui_starts_at_feed_list_top() {
    let tui = Tui::new((80, 24));
    assert!(matches!(tui.state, TuiState::AllFeeds(0)));
    assert_eq!(tui.termsize, (80, 24));
    let feeds = vec![feed("A", vec![])];
    let out = tui.draw(&feeds);
    assert_eq!(
        out.ops[1],
        DrawOp::PrintStyled(String::from("rnaf - All Feeds"), TextStyle::Accent)
    );
}

#[test]
fn item_counts_reports_each_feed() {
    let feeds = vec![
        feed("A", vec![item(None, None), item(None, None)]),
        feed("B", vec![]),
    ];
    assert_eq!(item_counts(&feeds), vec![2usize, 0usize]);
}

#[test]
fn split_lines_matches_source_lines() {
    let empty: Vec<String> = vec![];
    assert_eq!(split_lines(""), empty);
    assert_eq!(split_lines("a\nb"), vec!["a", "b"]);
    assert_eq!(split_lines("a\nb\n"), vec!["a", "b"]);
    assert_eq!(split_lines("a\r\nb"), vec!["a", "b"]);
    assert_eq!(split_lines("\n"), vec![""]);
}
