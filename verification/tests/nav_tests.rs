use rnaf::nav::{transition, InputEvent, TuiState};

const TERM: (u16, u16) = (80, 30);

#[test]
fn down_saturates_at_last_feed() {
    // Two feeds, selection starts at 0; two presses of down stop at index 1.
    let counts = vec![3usize, 4usize];
    let t1 = transition(TuiState::AllFeeds(0), InputEvent::Down, &counts, TERM);
    assert!(!t1.exit);
    assert!(matches!(t1.next, TuiState::AllFeeds(1)));
    let t2 = transition(t1.next, InputEvent::Down, &counts, TERM);
    assert!(matches!(t2.next, TuiState::AllFeeds(1)));
}

#[test]
fn up_saturates_at_zero() {
    let counts = vec![3usize, 4usize];
    let t = transition(TuiState::AllFeeds(0), InputEvent::Up, &counts, TERM);
    assert!(matches!(t.next, TuiState::AllFeeds(0)));
}

#[test]
fn down_on_empty_feed_list_stays_zero() {
    let counts: Vec<usize> = vec![];
    let t = transition(TuiState::AllFeeds(0), InputEvent::Down, &counts, TERM);
    assert!(matches!(t.next, TuiState::AllFeeds(0)));
}

#[test]
fn confirm_from_allfeeds_resets_item_cursor() {
    let counts = vec![3usize, 4usize];
    let t = transition(TuiState::AllFeeds(1), InputEvent::Confirm, &counts, TERM);
    assert!(matches!(t.next, TuiState::Feed(1, 0)));
}

#[test]
fn confirm_from_feed_resets_scroll() {
    let counts = vec![5usize];
    let t = transition(TuiState::Feed(0, 2), InputEvent::Confirm, &counts, TERM);
    assert!(matches!(t.next, TuiState::Article(0, 2, 0)));
}

#[test]
fn back_from_feed_forgets_parent_selection() {
    let counts = vec![5usize, 5usize];
    let t = transition(TuiState::Feed(1, 3), InputEvent::Back, &counts, TERM);
    assert!(matches!(t.next, TuiState::AllFeeds(0)));
}

#[test]
fn back_from_article_keeps_item_selection() {
    let counts = vec![5usize];
    let t = transition(TuiState::Article(0, 3, 7), InputEvent::Back, &counts, TERM);
    assert!(matches!(t.next, TuiState::Feed(0, 3)));
}

#[test]
fn back_from_allfeeds_marks_exit() {
    let counts = vec![2usize];
    let t = transition(TuiState::AllFeeds(0), InputEvent::Back, &counts, TERM);
    assert!(t.exit);
    assert!(matches!(t.next, TuiState::AllFeeds(0)));
}

#[test]
fn help_then_back_restores_article_state() {
    let counts = vec![5usize];
    let t1 = transition(TuiState::Article(0, 1, 5), InputEvent::Help, &counts, TERM);
    match &t1.next {
        TuiState::HelpMenu(prev) => assert!(matches!(**prev, TuiState::Article(0, 1, 5))),
        _ => panic!("help did not open the help menu"),
    }
    let t2 = transition(t1.next, InputEvent::Back, &counts, TERM);
    assert!(matches!(t2.next, TuiState::Article(0, 1, 5)));
}

#[test]
fn help_from_feed_is_noop() {
    let counts = vec![5usize];
    let t = transition(TuiState::Feed(0, 2), InputEvent::Help, &counts, TERM);
    assert!(matches!(t.next, TuiState::Feed(0, 2)));
}

#[test]
fn article_scroll_down_and_up() {
    let counts = vec![5usize];
    let t1 = transition(TuiState::Article(0, 0, 0), InputEvent::Down, &counts, TERM);
    assert!(matches!(t1.next, TuiState::Article(0, 0, 1)));
    let t2 = transition(t1.next, InputEvent::Up, &counts, TERM);
    assert!(matches!(t2.next, TuiState::Article(0, 0, 0)));
    let t3 = transition(t2.next, InputEvent::Up, &counts, TERM);
    assert!(matches!(t3.next, TuiState::Article(0, 0, 0)));
}

#[test]
fn feed_down_saturates_at_last_item() {
    let counts = vec![2usize];
    let t = transition(TuiState::Feed(0, 1), InputEvent::Down, &counts, TERM);
    assert!(matches!(t.next, TuiState::Feed(0, 1)));
}

#[test]
fn feed_down_clamped_by_viewport() {
    // Height 5 leaves rows 1..=3 for items: the selection cannot pass index 3
    // even with ten items.
    let counts = vec![10usize];
    let t = transition(TuiState::Feed(0, 3), InputEvent::Down, &counts, (80, 5));
    assert!(matches!(t.next, TuiState::Feed(0, 3)));
    let t2 = transition(TuiState::Feed(0, 2), InputEvent::Down, &counts, (80, 5));
    assert!(matches!(t2.next, TuiState::Feed(0, 3)));
}

#[test]
fn unmapped_key_is_noop() {
    let counts = vec![2usize];
    let t = transition(TuiState::AllFeeds(1), InputEvent::Other, &counts, TERM);
    assert!(!t.exit);
    assert!(matches!(t.next, TuiState::AllFeeds(1)));
}
