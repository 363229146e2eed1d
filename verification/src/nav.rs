//! Navigation state machine: which view is active, where its cursor sits,
//! and how a symbolic input event moves between views.
//!
//! `transition` is a pure function from the current state, one event and the
//! live collection sizes to the next state; invalid events are no-ops and all
//! index fields are clamped against the collections, so a well-formed state
//! can never acquire an out-of-range index.

use vstd::prelude::*;

verus! {

/// The symbolic input alphabet. Any two physical keys that the shell maps to
/// the same symbol are equivalent; pointer and resize events have no symbol.
#[derive(Clone, Copy, PartialEq, Eq, Structural, Debug)]
pub enum InputEvent {
    Back,
    Down,
    Up,
    Confirm,
    Help,
    Other,
}

/// Which menu the user is currently viewing.
pub enum TuiState {
    /// Feed list; the payload is the selected feed index.
    AllFeeds(usize),
    /// One feed's item list: feed index, selected item index.
    Feed(usize, usize),
    /// One article: feed index, item index, scroll offset in body lines.
    Article(usize, usize, usize),
    /// Keybinding help; the payload is the state to restore on exit.
    /// Reachable only from `Article`, so help never nests.
    HelpMenu(Box<TuiState>),
}

/// Outcome of one handled input event: the replacement state, and whether the
/// event asked the process to exit (back/quit pressed on the feed list).
pub struct Transition {
    pub next: TuiState,
    pub exit: bool,
}

/// An index into a collection of `n` elements is well formed when it is in
/// range, or pinned to `0` for an empty collection.
pub open spec fn index_wf(i: usize, n: nat) -> bool {
    if n == 0 {
        i == 0
    } else {
        i < n
    }
}

/// Number of items in feed `f`, or `0` when `f` is out of range.
pub open spec fn item_count(counts: Seq<usize>, f: usize) -> nat {
    if f < counts.len() {
        counts[f as int] as nat
    } else {
        0
    }
}

/// State invariant: every index field is within its collection (or `0` when
/// the collection is empty), and help holds exactly one article state.
pub open spec fn state_wf(s: TuiState, counts: Seq<usize>) -> bool
    decreases s,
{
    match s {
        TuiState::AllFeeds(sel) => index_wf(sel, counts.len()),
        TuiState::Feed(f, sel) => index_wf(f, counts.len()) && index_wf(
            sel,
            item_count(counts, f),
        ),
        TuiState::Article(f, i, _sc) => index_wf(f, counts.len()) && index_wf(
            i,
            item_count(counts, f),
        ),
        TuiState::HelpMenu(prev) => *prev is Article && state_wf(*prev, counts),
    }
}

/// Selection after one `down` step in a list of `n` entries: saturates at the
/// last index, collapses to `0` for an empty list.
pub open spec fn down_index(sel: usize, n: usize) -> usize {
    if n == 0 {
        0
    } else if sel < n - 1 {
        (sel + 1) as usize
    } else {
        (n - 1) as usize
    }
}

/// Selection after one `up` step: saturates at `0`.
pub open spec fn up_index(sel: usize) -> usize {
    if sel > 0 {
        (sel - 1) as usize
    } else {
        0
    }
}

/// Largest item row index the feed view can show in a terminal of height `h`:
/// row `0` carries the header, item `i` sits on row `i + 1`.
pub open spec fn feed_rows_limit(h: u16) -> usize {
    if h >= 2 {
        (h - 2) as usize
    } else {
        0
    }
}

/// Scroll offset after one `down` step: unbounded above except by the machine
/// word (the renderer clamps against content length when drawing).
pub open spec fn scroll_down(sc: usize) -> usize {
    if sc < usize::MAX {
        (sc + 1) as usize
    } else {
        sc
    }
}

pub open spec fn min_usize(a: usize, b: usize) -> usize {
    if a < b {
        a
    } else {
        b
    }
}

/// The transition table. `counts` gives each feed's item count (its length is
/// the feed count); `h` is the viewport height, which bounds the feed view's
/// selection to rows that are actually drawn.
pub open spec fn spec_transition(
    s: TuiState,
    ev: InputEvent,
    counts: Seq<usize>,
    h: u16,
) -> Transition {
    match s {
        TuiState::AllFeeds(sel) => match ev {
            InputEvent::Back => Transition { next: TuiState::AllFeeds(sel), exit: true },
            InputEvent::Down => Transition {
                next: TuiState::AllFeeds(down_index(sel, counts.len() as usize)),
                exit: false,
            },
            InputEvent::Up => Transition { next: TuiState::AllFeeds(up_index(sel)), exit: false },
            InputEvent::Confirm => Transition { next: TuiState::Feed(sel, 0), exit: false },
            _ => Transition { next: TuiState::AllFeeds(sel), exit: false },
        },
        TuiState::Feed(f, sel) => match ev {
            InputEvent::Back => Transition { next: TuiState::AllFeeds(0), exit: false },
            InputEvent::Down => Transition {
                next: TuiState::Feed(
                    f,
                    min_usize(
                        down_index(sel, item_count(counts, f) as usize),
                        feed_rows_limit(h),
                    ),
                ),
                exit: false,
            },
            InputEvent::Up => Transition { next: TuiState::Feed(f, up_index(sel)), exit: false },
            InputEvent::Confirm => Transition { next: TuiState::Article(f, sel, 0), exit: false },
            _ => Transition { next: TuiState::Feed(f, sel), exit: false },
        },
        TuiState::Article(f, i, sc) => match ev {
            InputEvent::Back => Transition { next: TuiState::Feed(f, i), exit: false },
            InputEvent::Down => Transition {
                next: TuiState::Article(f, i, scroll_down(sc)),
                exit: false,
            },
            InputEvent::Up => Transition { next: TuiState::Article(f, i, up_index(sc)), exit: false },
            InputEvent::Help => Transition {
                next: TuiState::HelpMenu(Box::new(TuiState::Article(f, i, sc))),
                exit: false,
            },
            _ => Transition { next: TuiState::Article(f, i, sc), exit: false },
        },
        TuiState::HelpMenu(prev) => match ev {
            InputEvent::Back => Transition { next: *prev, exit: false },
            _ => Transition { next: TuiState::HelpMenu(prev), exit: false },
        },
    }
}

/// Any single handled event keeps the state invariant: no transition can
/// produce an out-of-range index or a nested help view.
pub proof fn lemma_transition_preserves_wf(
    s: TuiState,
    ev: InputEvent,
    counts: Seq<usize>,
    h: u16,
)
    requires
        state_wf(s, counts),
    ensures
        state_wf(spec_transition(s, ev, counts, h).next, counts),
{
}

/// The state a well-formed starting state reaches after a whole sequence of
/// events, delivered one at a time.
pub open spec fn run_events(
    s: TuiState,
    evs: Seq<InputEvent>,
    counts: Seq<usize>,
    h: u16,
) -> TuiState
    decreases evs.len(),
{
    if evs.len() == 0 {
        s
    } else {
        run_events(
            spec_transition(s, evs[0], counts, h).next,
            evs.subrange(1, evs.len() as int),
            counts,
            h,
        )
    }
}

/// Law: for every valid state and every event sequence — in particular any
/// `down`/`up` sequence of any length — every cursor and index field of the
/// resulting state stays within `[0, collectionSize - 1]`, or stays `0` for
/// an empty collection.
pub proof fn lemma_cursor_never_escapes(
    s: TuiState,
    evs: Seq<InputEvent>,
    counts: Seq<usize>,
    h: u16,
)
    requires
        state_wf(s, counts),
    ensures
        state_wf(run_events(s, evs, counts, h), counts),
    decreases evs.len(),
{
    if evs.len() > 0 {
        lemma_transition_preserves_wf(s, evs[0], counts, h);
        lemma_cursor_never_escapes(
            spec_transition(s, evs[0], counts, h).next,
            evs.subrange(1, evs.len() as int),
            counts,
            h,
        );
    }
}

/// Law: `down` and `up` only move the cursor of the active view; they never
/// change which view is active, nor the feed/item an inner view points at.
pub proof fn lemma_down_up_keeps_view(s: TuiState, ev: InputEvent, counts: Seq<usize>, h: u16)
    requires
        ev == InputEvent::Down || ev == InputEvent::Up,
    ensures
        s is AllFeeds ==> spec_transition(s, ev, counts, h).next is AllFeeds,
        s matches TuiState::Feed(f, _) ==> spec_transition(s, ev, counts, h).next matches
            TuiState::Feed(f2, _) && f2 == f,
        s matches TuiState::Article(f, i, _) ==> spec_transition(s, ev, counts, h).next matches
            TuiState::Article(f2, i2, _) && f2 == f && i2 == i,
        s is HelpMenu ==> spec_transition(s, ev, counts, h).next == s,
{
}

/// Law: `confirm` always enters the deeper view with that view's own cursor
/// reset to the top: the feed list opens `Feed(sel, 0)`, a feed opens
/// `Article(f, sel, 0)`.
pub proof fn lemma_confirm_resets_inner_cursor(
    s: TuiState,
    counts: Seq<usize>,
    h: u16,
)
    ensures
        s matches TuiState::AllFeeds(sel) ==> spec_transition(
            s,
            InputEvent::Confirm,
            counts,
            h,
        ).next == TuiState::Feed(sel, 0),
        s matches TuiState::Feed(f, sel) ==> spec_transition(
            s,
            InputEvent::Confirm,
            counts,
            h,
        ).next == TuiState::Article(f, sel, 0),
{
}

/// Law: `back` from a feed's item list always lands on `AllFeeds(0)` — the
/// parent view's selection is reset, not restored (forgetful back).
pub proof fn lemma_back_from_feed_forgets(f: usize, sel: usize, counts: Seq<usize>, h: u16)
    ensures
        spec_transition(TuiState::Feed(f, sel), InputEvent::Back, counts, h).next
            == TuiState::AllFeeds(0),
{
}

/// Law: `help` followed by `back` restores exactly the article state that was
/// active before help was opened, whatever its indices and scroll offset.
pub proof fn lemma_help_back_roundtrip(
    f: usize,
    i: usize,
    sc: usize,
    counts: Seq<usize>,
    h: u16,
)
    ensures
        spec_transition(
            spec_transition(TuiState::Article(f, i, sc), InputEvent::Help, counts, h).next,
            InputEvent::Back,
            counts,
            h,
        ).next == TuiState::Article(f, i, sc),
{
}

fn down_index_exec(sel: usize, n: usize) -> (r: usize)
    ensures
        r == down_index(sel, n),
{
    if n == 0 {
        0
    } else if sel < n - 1 {
        sel + 1
    } else {
        n - 1
    }
}

fn up_index_exec(sel: usize) -> (r: usize)
    ensures
        r == up_index(sel),
{
    if sel > 0 {
        sel - 1
    } else {
        0
    }
}

fn feed_rows_limit_exec(h: u16) -> (r: usize)
    ensures
        r == feed_rows_limit(h),
{
    if h >= 2 {
        (h - 2) as usize
    } else {
        0
    }
}

/// One handled input event: pure, total, and invariant-preserving. `counts`
/// holds each feed's item count; `termsize` is `(columns, rows)`.
pub fn transition(s: TuiState, ev: InputEvent, counts: &Vec<usize>, termsize: (u16, u16)) -> (t:
    Transition)
    ensures
        t == spec_transition(s, ev, counts@, termsize.1),
        state_wf(s, counts@) ==> state_wf(t.next, counts@),
{
    proof {
        if state_wf(s, counts@) {
            lemma_transition_preserves_wf(s, ev, counts@, termsize.1);
        }
    }
    match s {
        TuiState::AllFeeds(sel) => match ev {
            InputEvent::Back => Transition { next: TuiState::AllFeeds(sel), exit: true },
            InputEvent::Down => Transition {
                next: TuiState::AllFeeds(down_index_exec(sel, counts.len())),
                exit: false,
            },
            InputEvent::Up => Transition { next: TuiState::AllFeeds(up_index_exec(sel)), exit: false },
            InputEvent::Confirm => Transition { next: TuiState::Feed(sel, 0), exit: false },
            _ => Transition { next: TuiState::AllFeeds(sel), exit: false },
        },
        TuiState::Feed(f, sel) => match ev {
            InputEvent::Back => Transition { next: TuiState::AllFeeds(0), exit: false },
            InputEvent::Down => {
                let count: usize = if f < counts.len() {
                    counts[f]
                } else {
                    0
                };
                let stepped = down_index_exec(sel, count);
                let limit = feed_rows_limit_exec(termsize.1);
                let clamped = if stepped < limit {
                    stepped
                } else {
                    limit
                };
                Transition { next: TuiState::Feed(f, clamped), exit: false }
            },
            InputEvent::Up => Transition { next: TuiState::Feed(f, up_index_exec(sel)), exit: false },
            InputEvent::Confirm => Transition { next: TuiState::Article(f, sel, 0), exit: false },
            _ => Transition { next: TuiState::Feed(f, sel), exit: false },
        },
        TuiState::Article(f, i, sc) => match ev {
            InputEvent::Back => Transition { next: TuiState::Feed(f, i), exit: false },
            InputEvent::Down => {
                let stepped: usize = if sc < usize::MAX {
                    sc + 1
                } else {
                    sc
                };
                Transition { next: TuiState::Article(f, i, stepped), exit: false }
            },
            InputEvent::Up => Transition {
                next: TuiState::Article(f, i, up_index_exec(sc)),
                exit: false,
            },
            InputEvent::Help => Transition {
                next: TuiState::HelpMenu(Box::new(TuiState::Article(f, i, sc))),
                exit: false,
            },
            _ => Transition { next: TuiState::Article(f, i, sc), exit: false },
        },
        TuiState::HelpMenu(prev) => match ev {
            InputEvent::Back => Transition { next: *prev, exit: false },
            _ => Transition { next: TuiState::HelpMenu(prev), exit: false },
        },
    }
}

} // verus!
