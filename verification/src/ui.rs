//! View renderer: turns the current navigation state and the feed model into
//! the full-screen draw-operation sequence for one of the four views.
//!
//! Rendering is pure and total: a stale index in the state is clamped to the
//! nearest valid one and absent fields fall back to literal placeholder text,
//! so the renderer never fails on any state and model.

use vstd::prelude::*;
use vstd::string::*;

use crate::draw::{ops_view, DrawOp, DrawOpS, TextStyle};
use crate::markup::{markup_links, markup_ops, render_markup, strs_view};
use crate::model::{feeds_view, opt_view, Feed, FeedS, ItemS};
use crate::nav::{feed_rows_limit, TuiState};

verus! {

/// Line-splitter accumulator: lines finished so far and the line still open.
pub ghost struct LineAcc {
    pub lines: Seq<Seq<char>>,
    pub cur: Seq<char>,
}

pub open spec fn line_init() -> LineAcc {
    LineAcc { lines: Seq::empty(), cur: Seq::empty() }
}

pub open spec fn line_step(acc: LineAcc, c: char) -> LineAcc {
    if c == '\n' {
        LineAcc { lines: acc.lines.push(acc.cur), cur: Seq::empty() }
    } else {
        LineAcc { lines: acc.lines, cur: acc.cur.push(c) }
    }
}

/// Accumulator state after the first `i` characters of `s`.
pub open spec fn line_state(s: Seq<char>, i: int) -> LineAcc
    decreases i,
{
    if i <= 0 {
        line_init()
    } else {
        line_step(line_state(s, i - 1), s[i - 1])
    }
}

/// `s` split at every newline, the trailing piece included.
pub open spec fn raw_lines(s: Seq<char>) -> Seq<Seq<char>> {
    let st = line_state(s, s.len() as int);
    st.lines.push(st.cur)
}

/// A line without its trailing carriage return, if it carries one.
pub open spec fn strip_cr(l: Seq<char>) -> Seq<char> {
    if l.len() > 0 && l.last() == '\r' {
        l.drop_last()
    } else {
        l
    }
}

/// The lines of a body, as the source shows them: split at newlines, a final
/// empty piece dropped, and a trailing carriage return stripped from each.
pub open spec fn lines_of(s: Seq<char>) -> Seq<Seq<char>> {
    let raw = raw_lines(s);
    let trimmed = if raw.last().len() == 0 {
        raw.drop_last()
    } else {
        raw
    };
    trimmed.map_values(|l: Seq<char>| strip_cr(l))
}

/// Splits a body into its lines.
pub fn split_lines(s: &str) -> (v: Vec<String>)
    ensures
        strs_view(v@) == lines_of(s@),
{
    let slen = s.unicode_len();
    let mut raw: Vec<String> = Vec::new();
    let mut start: usize = 0;
    let mut i: usize = 0;
    while i < slen
        invariant
            start <= i <= slen,
            slen == s@.len(),
            strs_view(raw@) == line_state(s@, i as int).lines,
            line_state(s@, i as int).cur == s@.subrange(start as int, i as int),
        decreases slen - i,
    {
        let c = s.get_char(i);
        if c == '\n' {
            raw.push(String::from_str(s.substring_char(start, i)));
            start = i + 1;
            proof {
                assert(strs_view(raw@) =~= line_state(s@, i + 1).lines);
                assert(line_state(s@, i + 1).cur =~= s@.subrange(start as int, i + 1));
            }
        } else {
            proof {
                assert(strs_view(raw@) =~= line_state(s@, i + 1).lines);
                assert(line_state(s@, i + 1).cur =~= s@.subrange(start as int, i + 1));
            }
        }
        i += 1;
    }
    raw.push(String::from_str(s.substring_char(start, slen)));
    proof {
        assert(strs_view(raw@) =~= raw_lines(s@));
    }
    let ghost graw = raw_lines(s@);
    let lastlen = raw[raw.len() - 1].as_str().unicode_len();
    if lastlen == 0 {
        raw.pop();
        proof {
            assert(strs_view(raw@) =~= graw.drop_last());
        }
    }
    let ghost trimmed = if graw.last().len() == 0 {
        graw.drop_last()
    } else {
        graw
    };
    let mut out: Vec<String> = Vec::new();
    let mut j: usize = 0;
    while j < raw.len()
        invariant
            j <= raw@.len(),
            strs_view(raw@) == trimmed,
            out@.len() == j,
            forall|k: int| 0 <= k < j ==> out@[k]@ == strip_cr(trimmed[k]),
        decreases raw@.len() - j,
    {
        let l = &raw[j];
        proof {
            assert(l@ == strs_view(raw@)[j as int]);
        }
        let ll = l.as_str().unicode_len();
        if ll > 0 && l.as_str().get_char(ll - 1) == '\r' {
            proof {
                assert(l@.subrange(0, ll - 1) =~= l@.drop_last());
            }
            out.push(String::from_str(l.as_str().substring_char(0, ll - 1)));
            proof {
                assert(out@[j as int]@ == strip_cr(trimmed[j as int]));
            }
        } else {
            out.push(l.clone());
            proof {
                assert(out@[j as int]@ == strip_cr(trimmed[j as int]));
            }
        }
        j += 1;
    }
    proof {
        assert(strs_view(out@) =~= lines_of(s@));
    }
    out
}

/// The lines `[from, to)` of a body, each closed with a newline, as one
/// string handed to the markup renderer.
pub open spec fn window_concat(lines: Seq<Seq<char>>, from: int, to: int) -> Seq<char>
    decreases to - from,
{
    if from >= to {
        Seq::empty()
    } else {
        window_concat(lines, from, to - 1) + lines[to - 1] + seq!['\n']
    }
}

/// The visible window of a body: its lines from the scroll offset on, bounded
/// by the viewport height. Lines before the offset and lines at or past the
/// height are not rendered.
pub open spec fn cropped_body(desc: Seq<char>, scroll: usize, h: u16) -> Seq<char> {
    let lines = lines_of(desc);
    let hi = if lines.len() <= h as nat {
        lines.len() as int
    } else {
        h as int
    };
    window_concat(lines, scroll as int, hi)
}

#[verifier::loop_isolation(false)]
fn crop_body(desc: &str, scroll: usize, h: u16) -> (r: String)
    ensures
        r@ == cropped_body(desc@, scroll, h),
{
    let lines = split_lines(desc);
    let ghost glines = lines_of(desc@);
    let hi: usize = if lines.len() <= h as usize {
        lines.len()
    } else {
        h as usize
    };
    let mut out = String::new();
    let mut k: usize = scroll;
    while k < hi
        invariant
            strs_view(lines@) == glines,
            hi <= lines@.len(),
            k >= scroll,
            k <= hi || k == scroll,
            out@ == window_concat(glines, scroll as int, k as int),
        decreases hi - k,
    {
        proof {
            assert(lines@[k as int]@ == strs_view(lines@)[k as int]);
        }
        out.append(lines[k].as_str());
        out.append("\n");
        proof {
            reveal_strlit("\n");
            assert("\n"@ =~= seq!['\n']);
            assert(window_concat(glines, scroll as int, k + 1) == window_concat(
                glines,
                scroll as int,
                k as int,
            ) + glines[k as int] + seq!['\n']);
            assert(out@ =~= window_concat(glines, scroll as int, k + 1));
        }
        k += 1;
    }
    proof {
        assert(glines.len() == lines@.len());
        if scroll > hi {
            assert(window_concat(glines, scroll as int, k as int) == Seq::<char>::empty());
            assert(window_concat(glines, scroll as int, hi as int) == Seq::<char>::empty());
        }
        assert(out@ == window_concat(glines, scroll as int, hi as int));
        assert(out@ == cropped_body(desc@, scroll, h));
    }
    out
}

/// The top bar: an accent-styled title on row 0.
pub open spec fn header_ops(title: Seq<char>) -> Seq<DrawOpS> {
    seq![DrawOpS::MoveTo(0, 0), DrawOpS::PrintStyled(title, TextStyle::Accent)]
}

/// One row of the feed list: the title at column 4, highlighted when it is
/// the selected row.
pub open spec fn feed_row_ops(feeds: Seq<FeedS>, sel: usize, i: int) -> Seq<DrawOpS> {
    if i == sel {
        seq![
            DrawOpS::MoveTo(4, (i + 1) as usize),
            DrawOpS::PrintStyled(feeds[i].title, TextStyle::Highlight),
        ]
    } else {
        seq![DrawOpS::MoveTo(4, (i + 1) as usize), DrawOpS::Print(feeds[i].title)]
    }
}

pub open spec fn feed_rows(feeds: Seq<FeedS>, sel: usize, n: int) -> Seq<DrawOpS>
    decreases n,
{
    if n <= 0 {
        Seq::empty()
    } else {
        feed_rows(feeds, sel, n - 1) + feed_row_ops(feeds, sel, n - 1)
    }
}

/// The feed list: header, then one row per feed. The list is not paginated:
/// every feed gets a row, whatever the viewport height.
pub open spec fn render_allfeeds(feeds: Seq<FeedS>, sel: usize) -> Seq<DrawOpS> {
    header_ops("rnaf - All Feeds"@) + feed_rows(feeds, sel, feeds.len() as int)
}

/// An item's title, or the placeholder for an untitled item.
pub open spec fn item_title(it: ItemS) -> Seq<char> {
    match it.title {
        Some(t) => t,
        None => "unkwn"@,
    }
}

pub open spec fn item_row_ops(items: Seq<ItemS>, sel: usize, i: int) -> Seq<DrawOpS> {
    if i == sel {
        seq![
            DrawOpS::MoveTo(4, (i + 1) as usize),
            DrawOpS::PrintStyled(item_title(items[i]), TextStyle::Highlight),
        ]
    } else {
        seq![DrawOpS::MoveTo(4, (i + 1) as usize), DrawOpS::Print(item_title(items[i]))]
    }
}

pub open spec fn item_rows(items: Seq<ItemS>, sel: usize, n: int) -> Seq<DrawOpS>
    decreases n,
{
    if n <= 0 {
        Seq::empty()
    } else {
        item_rows(items, sel, n - 1) + item_row_ops(items, sel, n - 1)
    }
}

/// A stale index clamped to the nearest valid one.
pub open spec fn clamp_index(i: usize, n: nat) -> int
    recommends
        n > 0,
{
    if (i as nat) < n {
        i as int
    } else {
        n - 1
    }
}

/// How many item rows the feed view shows: at most the rows that fit under
/// the header, the rest are truncated.
pub open spec fn shown_items(len: nat, h: u16) -> int {
    if len <= feed_rows_limit(h) + 1 {
        len as int
    } else {
        feed_rows_limit(h) as int + 1
    }
}

/// One feed's item list: header naming the feed, then one row per item up to
/// the viewport bound. An empty model renders the header alone, with a
/// placeholder name.
pub open spec fn render_feedview(feeds: Seq<FeedS>, f: usize, sel: usize, h: u16) -> Seq<
    DrawOpS,
> {
    if feeds.len() == 0 {
        header_ops("rnaf - Feed: "@ + "unknown"@)
    } else {
        let fd = feeds[clamp_index(f, feeds.len())];
        header_ops("rnaf - Feed: "@ + fd.title) + item_rows(
            fd.items,
            sel,
            shown_items(fd.items.len(), h),
        )
    }
}

pub open spec fn empty_item() -> ItemS {
    ItemS { title: None, author: None, link: None, description: None }
}

/// The item an article state points at, its indices clamped; a placeholder
/// item when the model has no item there at all.
pub open spec fn article_item(feeds: Seq<FeedS>, f: usize, i: usize) -> ItemS {
    if feeds.len() == 0 {
        empty_item()
    } else {
        let fd = feeds[clamp_index(f, feeds.len())];
        if fd.items.len() == 0 {
            empty_item()
        } else {
            fd.items[clamp_index(i, fd.items.len())]
        }
    }
}

pub open spec fn opt_or(o: Option<Seq<char>>, d: Seq<char>) -> Seq<char> {
    match o {
        Some(s) => s,
        None => d,
    }
}

/// The row the article body starts on, under the header and three metadata
/// rows.
pub open spec fn body_start_row() -> usize {
    6
}

/// One article: header with the title, three metadata rows, then the body's
/// markup rendered from the scroll offset on.
pub open spec fn render_article(
    feeds: Seq<FeedS>,
    f: usize,
    i: usize,
    scroll: usize,
    ts: (u16, u16),
) -> Seq<DrawOpS> {
    let it = article_item(feeds, f, i);
    let title = opt_or(it.title, "unknown"@);
    let author = opt_or(it.author, "unknown"@);
    let link = opt_or(it.link, "unknown"@);
    let desc = opt_or(it.description, "unknown"@);
    header_ops("rnaf - Article: "@ + title) + seq![
        DrawOpS::MoveTo(2, 1),
        DrawOpS::Print("title: "@ + title),
        DrawOpS::MoveTo(2, 2),
        DrawOpS::Print("author: "@ + author),
        DrawOpS::MoveTo(2, 3),
        DrawOpS::Print("link: "@ + link),
    ] + markup_ops(cropped_body(desc, scroll, ts.1), ts.0, body_start_row())
}

/// The link table of an article render, in marker order.
pub open spec fn article_links(
    feeds: Seq<FeedS>,
    f: usize,
    i: usize,
    scroll: usize,
    ts: (u16, u16),
) -> Seq<Seq<char>> {
    let it = article_item(feeds, f, i);
    let desc = opt_or(it.description, "unknown"@);
    markup_links(cropped_body(desc, scroll, ts.1), ts.0, body_start_row())
}

/// The fixed keybinding reference of the help view.
pub open spec fn help_ops() -> Seq<DrawOpS> {
    seq![
        DrawOpS::MoveTo(0, 0),
        DrawOpS::PrintStyled("rnaf - Help"@, TextStyle::Accent),
        DrawOpS::MoveTo(0, 2),
        DrawOpS::Print("Keybindings:"@),
        DrawOpS::MoveTo(0, 3),
        DrawOpS::Print("?            - Show this menu"@),
        DrawOpS::MoveTo(0, 4),
        DrawOpS::Print("j/down, k/up - Scroll up and down"@),
        DrawOpS::MoveTo(0, 5),
        DrawOpS::Print("Enter        - Enter/Confirm selection"@),
        DrawOpS::MoveTo(0, 6),
        DrawOpS::Print("q/ESC        - Back/Quit"@),
    ]
}

/// The whole screen for one state: which view is active decides the layout.
pub open spec fn spec_render(state: TuiState, feeds: Seq<FeedS>, ts: (u16, u16)) -> Seq<
    DrawOpS,
> {
    match state {
        TuiState::AllFeeds(sel) => render_allfeeds(feeds, sel),
        TuiState::Feed(f, sel) => render_feedview(feeds, f, sel, ts.1),
        TuiState::Article(f, i, sc) => render_article(feeds, f, i, sc, ts),
        TuiState::HelpMenu(_) => help_ops(),
    }
}

/// The link table for one state: only an article render records links.
pub open spec fn spec_render_links(state: TuiState, feeds: Seq<FeedS>, ts: (u16, u16)) -> Seq<
    Seq<char>,
> {
    match state {
        TuiState::Article(f, i, sc) => article_links(feeds, f, i, sc, ts),
        _ => Seq::empty(),
    }
}

/// Result of one full-screen render: the draw operations, and the body's
/// link targets in marker order (empty outside the article view).
pub struct RenderOut {
    pub ops: Vec<DrawOp>,
    pub links: Vec<String>,
}

fn opt_or_exec(o: &Option<String>, d: &str) -> (r: String)
    ensures
        r@ == opt_or(opt_view(*o), d@),
{
    match o {
        Some(s) => s.clone(),
        None => String::from_str(d),
    }
}

/// Renders one state against the feed model for a viewport of `termsize`
/// columns and rows. The width must leave room for the body's wrap margin;
/// the shell validates the minimum viewport before driving the core.
#[verifier::loop_isolation(false)]
#[verifier::rlimit(100)]
pub fn render(state: &TuiState, feeds: &Vec<Feed>, termsize: (u16, u16)) -> (out: RenderOut)
    requires
        termsize.0 >= 11,
    ensures
        ops_view(out.ops@) == spec_render(*state, feeds_view(feeds@), termsize),
        strs_view(out.links@) == spec_render_links(*state, feeds_view(feeds@), termsize),
{
    let ghost gfeeds = feeds_view(feeds@);
    match state {
        TuiState::AllFeeds(sel) => {
            let mut ops: Vec<DrawOp> = Vec::new();
            ops.push(DrawOp::MoveTo(0, 0));
            ops.push(
                DrawOp::PrintStyled(String::from_str("rnaf - All Feeds"), TextStyle::Accent),
            );
            proof {
                assert(ops_view(ops@) =~= header_ops("rnaf - All Feeds"@));
                assert(header_ops("rnaf - All Feeds"@) + feed_rows(gfeeds, *sel, 0)
                    =~= header_ops("rnaf - All Feeds"@));
            }
            let mut i: usize = 0;
            while i < feeds.len()
                invariant
                    gfeeds == feeds_view(feeds@),
                    i <= feeds@.len(),
                    ops_view(ops@) == header_ops("rnaf - All Feeds"@) + feed_rows(
                        gfeeds,
                        *sel,
                        i as int,
                    ),
                decreases feeds@.len() - i,
            {
                ops.push(DrawOp::MoveTo(4, i + 1));
                let title = feeds[i].title.clone();
                proof {
                    assert(gfeeds[i as int] == feeds@[i as int]@);
                    assert(title@ == gfeeds[i as int].title);
                    assert(feed_rows(gfeeds, *sel, i + 1) == feed_rows(gfeeds, *sel, i as int)
                        + feed_row_ops(gfeeds, *sel, i as int));
                }
                if i == *sel {
                    ops.push(DrawOp::PrintStyled(title, TextStyle::Highlight));
                } else {
                    ops.push(DrawOp::Print(title));
                }
                proof {
                    let hdr = header_ops("rnaf - All Feeds"@);
                    let pre = hdr + feed_rows(gfeeds, *sel, i as int);
                    let row = feed_row_ops(gfeeds, *sel, i as int);
                    assert(ops_view(ops@) =~= pre + row);
                    assert(pre + row =~= hdr + feed_rows(gfeeds, *sel, i + 1));
                    assert(ops_view(ops@) == hdr + feed_rows(gfeeds, *sel, i + 1));
                }
                i += 1;
            }
            let links: Vec<String> = Vec::new();
            proof {
                assert(strs_view(links@) =~= Seq::<Seq<char>>::empty());
            }
            RenderOut { ops, links }
        },
        TuiState::Feed(f, sel) => {
            let mut ops: Vec<DrawOp> = Vec::new();
            if feeds.len() == 0 {
                let mut t = String::from_str("rnaf - Feed: ");
                t.append("unknown");
                ops.push(DrawOp::MoveTo(0, 0));
                ops.push(DrawOp::PrintStyled(t, TextStyle::Accent));
                proof {
                    assert(ops_view(ops@) =~= header_ops("rnaf - Feed: "@ + "unknown"@));
                }
                let links: Vec<String> = Vec::new();
                proof {
                    assert(strs_view(links@) =~= Seq::<Seq<char>>::empty());
                }
                RenderOut { ops, links }
            } else {
                let fidx = if *f < feeds.len() {
                    *f
                } else {
                    feeds.len() - 1
                };
                let fd = &feeds[fidx];
                let ghost gitems = gfeeds[fidx as int].items;
                let mut t = String::from_str("rnaf - Feed: ");
                t.append(fd.title.as_str());
                ops.push(DrawOp::MoveTo(0, 0));
                ops.push(DrawOp::PrintStyled(t, TextStyle::Accent));
                proof {
                    assert(ops_view(ops@) =~= header_ops("rnaf - Feed: "@ + gfeeds[
                        clamp_index(*f, gfeeds.len())
                    ].title));
                }
                let limit: usize = if termsize.1 >= 2 {
                    (termsize.1 - 2) as usize
                } else {
                    0
                };
                let shown: usize = if fd.items.len() <= limit + 1 {
                    fd.items.len()
                } else {
                    limit + 1
                };
                let ghost ghdr = header_ops("rnaf - Feed: "@ + gfeeds[
                    clamp_index(*f, gfeeds.len())
                ].title);
                proof {
                    assert(ghdr + item_rows(gitems, *sel, 0) =~= ghdr);
                }
                let mut i: usize = 0;
                while i < shown
                    invariant
                        gfeeds == feeds_view(feeds@),
                        0 < gfeeds.len() == feeds@.len(),
                        fidx < feeds@.len(),
                        fidx == clamp_index(*f, gfeeds.len()),
                        gitems == gfeeds[fidx as int].items,
                        fd@.items == gitems,
                        i <= shown,
                        shown == shown_items(gitems.len(), termsize.1),
                        shown <= fd.items@.len(),
                        ops_view(ops@) == ghdr + item_rows(gitems, *sel, i as int),
                        ghdr == header_ops("rnaf - Feed: "@ + gfeeds[
                            clamp_index(*f, gfeeds.len())
                        ].title),
                    decreases shown - i,
                {
                    let it = &fd.items[i];
                    let title = opt_or_exec(&it.title, "unkwn");
                    proof {
                        assert(it@ == fd@.items[i as int]);
                        assert(title@ == item_title(gitems[i as int]));
                        assert(item_rows(gitems, *sel, i + 1) == item_rows(
                            gitems,
                            *sel,
                            i as int,
                        ) + item_row_ops(gitems, *sel, i as int));
                    }
                    ops.push(DrawOp::MoveTo(4, i + 1));
                    if i == *sel {
                        ops.push(DrawOp::PrintStyled(title, TextStyle::Highlight));
                    } else {
                        ops.push(DrawOp::Print(title));
                    }
                    proof {
                        let pre = ghdr + item_rows(gitems, *sel, i as int);
                        let row = item_row_ops(gitems, *sel, i as int);
                        assert(ops_view(ops@) =~= pre + row);
                        assert(pre + row =~= ghdr + item_rows(gitems, *sel, i + 1));
                        assert(ops_view(ops@) == ghdr + item_rows(gitems, *sel, i + 1));
                    }
                    i += 1;
                }
                let links: Vec<String> = Vec::new();
                proof {
                    assert(strs_view(links@) =~= Seq::<Seq<char>>::empty());
                    assert(ops_view(ops@) =~= render_feedview(
                        gfeeds,
                        *f,
                        *sel,
                        termsize.1,
                    ));
                }
                RenderOut { ops, links }
            }
        },
        TuiState::Article(f, i, sc) => {
            let title: String;
            let author: String;
            let link: String;
            let desc: String;
            if feeds.len() == 0 {
                title = String::from_str("unknown");
                author = String::from_str("unknown");
                link = String::from_str("unknown");
                desc = String::from_str("unknown");
            } else {
                let fidx = if *f < feeds.len() {
                    *f
                } else {
                    feeds.len() - 1
                };
                let fd = &feeds[fidx];
                if fd.items.len() == 0 {
                    title = String::from_str("unknown");
                    author = String::from_str("unknown");
                    link = String::from_str("unknown");
                    desc = String::from_str("unknown");
                } else {
                    let iidx = if *i < fd.items.len() {
                        *i
                    } else {
                        fd.items.len() - 1
                    };
                    let it = &fd.items[iidx];
                    proof {
                        assert(fd@.items[iidx as int] == it@);
                        assert(article_item(gfeeds, *f, *i) == it@);
                    }
                    title = opt_or_exec(&it.title, "unknown");
                    author = opt_or_exec(&it.author, "unknown");
                    link = opt_or_exec(&it.link, "unknown");
                    desc = opt_or_exec(&it.description, "unknown");
                }
            }
            let ghost git = article_item(gfeeds, *f, *i);
            proof {
                assert(title@ == opt_or(git.title, "unknown"@));
                assert(author@ == opt_or(git.author, "unknown"@));
                assert(link@ == opt_or(git.link, "unknown"@));
                assert(desc@ == opt_or(git.description, "unknown"@));
            }
            let mut ops: Vec<DrawOp> = Vec::new();
            let mut ht = String::from_str("rnaf - Article: ");
            ht.append(title.as_str());
            ops.push(DrawOp::MoveTo(0, 0));
            ops.push(DrawOp::PrintStyled(ht, TextStyle::Accent));
            let mut m1 = String::from_str("title: ");
            m1.append(title.as_str());
            ops.push(DrawOp::MoveTo(2, 1));
            ops.push(DrawOp::Print(m1));
            let mut m2 = String::from_str("author: ");
            m2.append(author.as_str());
            ops.push(DrawOp::MoveTo(2, 2));
            ops.push(DrawOp::Print(m2));
            let mut m3 = String::from_str("link: ");
            m3.append(link.as_str());
            ops.push(DrawOp::MoveTo(2, 3));
            ops.push(DrawOp::Print(m3));
            let ghost pre_ops = ops@;
            let cropped = crop_body(desc.as_str(), *sc, termsize.1);
            let mut mk = render_markup(cropped.as_str(), termsize, 6);
            ops.append(&mut mk.ops);
            proof {
                let gdesc = opt_or(git.description, "unknown"@);
                assert(ops_view(pre_ops) =~= header_ops("rnaf - Article: "@ + opt_or(
                    git.title,
                    "unknown"@,
                )) + seq![
                    DrawOpS::MoveTo(2, 1),
                    DrawOpS::Print("title: "@ + opt_or(git.title, "unknown"@)),
                    DrawOpS::MoveTo(2, 2),
                    DrawOpS::Print("author: "@ + opt_or(git.author, "unknown"@)),
                    DrawOpS::MoveTo(2, 3),
                    DrawOpS::Print("link: "@ + opt_or(git.link, "unknown"@)),
                ]);
                assert(ops_view(ops@) =~= ops_view(pre_ops) + markup_ops(
                    cropped_body(gdesc, *sc, termsize.1),
                    termsize.0,
                    body_start_row(),
                ));
                assert(ops_view(ops@) =~= render_article(gfeeds, *f, *i, *sc, termsize));
                assert(strs_view(mk.links@) =~= article_links(gfeeds, *f, *i, *sc, termsize));
            }
            RenderOut { ops, links: mk.links }
        },
        TuiState::HelpMenu(_) => {
            let mut ops: Vec<DrawOp> = Vec::new();
            ops.push(DrawOp::MoveTo(0, 0));
            ops.push(DrawOp::PrintStyled(String::from_str("rnaf - Help"), TextStyle::Accent));
            ops.push(DrawOp::MoveTo(0, 2));
            ops.push(DrawOp::Print(String::from_str("Keybindings:")));
            ops.push(DrawOp::MoveTo(0, 3));
            ops.push(DrawOp::Print(String::from_str("?            - Show this menu")));
            ops.push(DrawOp::MoveTo(0, 4));
            ops.push(DrawOp::Print(String::from_str("j/down, k/up - Scroll up and down")));
            ops.push(DrawOp::MoveTo(0, 5));
            ops.push(DrawOp::Print(String::from_str("Enter        - Enter/Confirm selection")));
            ops.push(DrawOp::MoveTo(0, 6));
            ops.push(DrawOp::Print(String::from_str("q/ESC        - Back/Quit")));
            proof {
                assert(ops_view(ops@) =~= help_ops());
            }
            let links: Vec<String> = Vec::new();
            proof {
                assert(strs_view(links@) =~= Seq::<Seq<char>>::empty());
            }
            RenderOut { ops, links }
        },
    }
}

/// The terminal session: the active navigation state and the terminal size
/// the adapter measured.
pub struct Tui {
    pub state: TuiState,
    pub termsize: (u16, u16),
}

impl Tui {
    /// A fresh session starts at the top of the feed list.
    pub fn new(termsize: (u16, u16)) -> (t: Tui)
        ensures
            t.state == TuiState::AllFeeds(0),
            t.termsize == termsize,
    {
        Tui { state: TuiState::AllFeeds(0), termsize }
    }

    /// Full-screen render of the current state against the feed model.
    pub fn draw(&self, feeds: &Vec<Feed>) -> (out: RenderOut)
        requires
            self.termsize.0 >= 11,
        ensures
            ops_view(out.ops@) == spec_render(self.state, feeds_view(feeds@), self.termsize),
            strs_view(out.links@) == spec_render_links(
                self.state,
                feeds_view(feeds@),
                self.termsize,
            ),
    {
        render(&self.state, feeds, self.termsize)
    }
}

} // verus!
