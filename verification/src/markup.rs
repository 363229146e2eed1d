//! Markup renderer: one left-to-right pass over an article body's markup,
//! emitting positioned draw operations with word wrap, numbered link markers
//! and style toggles.
//!
//! The dialect is deliberately flat: the delimiters `<`, `>` and the newline
//! split the body into tokens, and every token is judged by its content
//! alone. Tokens the dialect does not know are printed as literal text, and
//! unbalanced delimiters degrade to literal text for the unmatched portion;
//! rendering never fails.

use vstd::prelude::*;
use vstd::string::*;

use crate::draw::{ops_view, DrawOp, DrawOpS, StyleAttr, TextStyle};
use crate::text::{
    dec_rep, dec_str, contains_sub, find_sub, spec_contains, spec_find, starts_with_char, str_eq,
};

verus! {

/// One token of the body: a run of characters between delimiters, or the
/// line break that stands for a literal newline in the source.
pub enum Token {
    Piece(String),
    Break,
}

/// Mathematical form of a token.
pub ghost enum Tok {
    Piece(Seq<char>),
    Break,
}

impl View for Token {
    type V = Tok;

    open spec fn view(&self) -> Tok {
        match self {
            Token::Piece(s) => Tok::Piece(s@),
            Token::Break => Tok::Break,
        }
    }
}

/// View of a token list.
pub open spec fn toks_view(ts: Seq<Token>) -> Seq<Tok> {
    ts.map_values(|t: Token| t@)
}

/// View of a link table.
pub open spec fn strs_view(ss: Seq<String>) -> Seq<Seq<char>> {
    ss.map_values(|s: String| s@)
}

/// Tokenizer accumulator: tokens finished so far and the run of characters
/// still open.
pub ghost struct TokAcc {
    pub toks: Seq<Tok>,
    pub cur: Seq<char>,
}

pub open spec fn tok_init() -> TokAcc {
    TokAcc { toks: Seq::empty(), cur: Seq::empty() }
}

/// One character of input: `<` and `>` close the open run; a newline closes
/// it and adds the line-break token; anything else extends it.
pub open spec fn tok_step(acc: TokAcc, c: char) -> TokAcc {
    if c == '<' || c == '>' {
        TokAcc { toks: acc.toks.push(Tok::Piece(acc.cur)), cur: Seq::empty() }
    } else if c == '\n' {
        TokAcc { toks: acc.toks.push(Tok::Piece(acc.cur)).push(Tok::Break), cur: Seq::empty() }
    } else {
        TokAcc { toks: acc.toks, cur: acc.cur.push(c) }
    }
}

/// Accumulator state after the first `i` characters of `s`.
pub open spec fn tok_state(s: Seq<char>, i: int) -> TokAcc
    decreases i,
{
    if i <= 0 {
        tok_init()
    } else {
        tok_step(tok_state(s, i - 1), s[i - 1])
    }
}

/// The whole token stream of a body: all delimited runs, in order, with the
/// run still open at the end closed as the final token.
pub open spec fn spec_tokenize(s: Seq<char>) -> Seq<Tok> {
    let st = tok_state(s, s.len() as int);
    st.toks.push(Tok::Piece(st.cur))
}

/// Splits a body into its token stream.
pub fn tokenize_text(s: &str) -> (toks: Vec<Token>)
    ensures
        toks_view(toks@) == spec_tokenize(s@),
{
    let slen = s.unicode_len();
    let mut toks: Vec<Token> = Vec::new();
    let mut start: usize = 0;
    let mut i: usize = 0;
    while i < slen
        invariant
            start <= i <= slen,
            slen == s@.len(),
            toks_view(toks@) == tok_state(s@, i as int).toks,
            tok_state(s@, i as int).cur == s@.subrange(start as int, i as int),
        decreases slen - i,
    {
        let c = s.get_char(i);
        if c == '<' || c == '>' {
            toks.push(Token::Piece(String::from_str(s.substring_char(start, i))));
            start = i + 1;
            proof {
                assert(toks_view(toks@) =~= tok_state(s@, i + 1).toks);
                assert(tok_state(s@, i + 1).cur =~= s@.subrange(start as int, i + 1));
            }
        } else if c == '\n' {
            toks.push(Token::Piece(String::from_str(s.substring_char(start, i))));
            toks.push(Token::Break);
            start = i + 1;
            proof {
                assert(toks_view(toks@) =~= tok_state(s@, i + 1).toks);
                assert(tok_state(s@, i + 1).cur =~= s@.subrange(start as int, i + 1));
            }
        } else {
            proof {
                assert(toks_view(toks@) =~= tok_state(s@, i + 1).toks);
                assert(tok_state(s@, i + 1).cur =~= s@.subrange(start as int, i + 1));
            }
        }
        i += 1;
    }
    toks.push(Token::Piece(String::from_str(s.substring_char(start, slen))));
    proof {
        assert(toks_view(toks@) =~= spec_tokenize(s@));
    }
    toks
}

/// What a token means to the renderer.
#[derive(Clone, Copy, PartialEq, Eq, Structural, Debug)]
pub enum TokClass {
    /// Anchor tag carrying an `href` attribute.
    Anchor,
    /// The line-break marker token.
    LineBreak,
    CodeOn,
    CodeOff,
    PreOpen,
    BoldOn,
    BoldOff,
    /// List item: new line with a bullet prefix.
    Bullet,
    /// Paragraph open: new line.
    Para,
    UnderlineOff,
    /// Recognized tag with no rendering effect, or an empty token.
    Nop,
    /// Literal text to wrap and print.
    Text,
}

/// An anchor token: begins with `a` and carries an `href` attribute.
pub open spec fn is_anchor(p: Seq<char>) -> bool {
    p.len() > 0 && p[0] == 'a' && spec_contains(p, "href="@)
}

/// Judges one token by its content. The order of the tests mirrors the
/// renderer: the anchor test comes first, then the tag names of the dialect,
/// and whatever is left is literal text (an empty token does nothing).
pub open spec fn classify(p: Seq<char>) -> TokClass {
    if is_anchor(p) {
        TokClass::Anchor
    } else if p == "RNAFNL"@ {
        TokClass::LineBreak
    } else if p == "code"@ {
        TokClass::CodeOn
    } else if p == "/code"@ {
        TokClass::CodeOff
    } else if p == "pre"@ {
        TokClass::PreOpen
    } else if p == "/pre"@ {
        TokClass::Nop
    } else if p == "strong"@ || p == "b"@ {
        TokClass::BoldOn
    } else if p == "/strong"@ || p == "/b"@ {
        TokClass::BoldOff
    } else if p == "ul"@ || p == "/ul"@ {
        TokClass::Nop
    } else if p == "li"@ {
        TokClass::Bullet
    } else if p == "p"@ {
        TokClass::Para
    } else if p == "/li"@ {
        TokClass::Nop
    } else if p == "/p"@ {
        TokClass::Nop
    } else if p == "/a"@ {
        TokClass::UnderlineOff
    } else if p.len() == 0 {
        TokClass::Nop
    } else {
        TokClass::Text
    }
}

fn classify_exec(p: &str) -> (c: TokClass)
    ensures
        c == classify(p@),
{
    if starts_with_char(p, 'a') && contains_sub(p, "href=") {
        TokClass::Anchor
    } else if str_eq(p, "RNAFNL") {
        TokClass::LineBreak
    } else if str_eq(p, "code") {
        TokClass::CodeOn
    } else if str_eq(p, "/code") {
        TokClass::CodeOff
    } else if str_eq(p, "pre") {
        TokClass::PreOpen
    } else if str_eq(p, "/pre") {
        TokClass::Nop
    } else if str_eq(p, "strong") || str_eq(p, "b") {
        TokClass::BoldOn
    } else if str_eq(p, "/strong") || str_eq(p, "/b") {
        TokClass::BoldOff
    } else if str_eq(p, "ul") || str_eq(p, "/ul") {
        TokClass::Nop
    } else if str_eq(p, "li") {
        TokClass::Bullet
    } else if str_eq(p, "p") {
        TokClass::Para
    } else if str_eq(p, "/li") {
        TokClass::Nop
    } else if str_eq(p, "/p") {
        TokClass::Nop
    } else if str_eq(p, "/a") {
        TokClass::UnderlineOff
    } else if p.unicode_len() == 0 {
        TokClass::Nop
    } else {
        TokClass::Text
    }
}

/// The link target carried by an anchor token: the characters between the
/// first pair of double quotes after the first `href=` (bounded by a second
/// `href=` if one follows). Degrades to the unclosed remainder, or to the
/// empty string, when the quotes are incomplete.
pub open spec fn url_of(p: Seq<char>) -> Seq<char> {
    let h = "href="@;
    let q = "\""@;
    match spec_find(p, h) {
        None => Seq::empty(),
        Some(i) => {
            let after = p.subrange(i + h.len(), p.len() as int);
            let seg = match spec_find(after, h) {
                Some(j) => after.take(j),
                None => after,
            };
            match spec_find(seg, q) {
                None => Seq::empty(),
                Some(q1) => {
                    let rest = seg.subrange(q1 + 1, seg.len() as int);
                    match spec_find(rest, q) {
                        Some(q2) => rest.take(q2),
                        None => rest,
                    }
                },
            }
        },
    }
}

/// Extracts an anchor token's link target.
fn extract_url(p: &str) -> (r: String)
    ensures
        r@ == url_of(p@),
{
    proof {
        reveal_strlit("\"");
    }
    let hlen = "href=".unicode_len();
    let plen = p.unicode_len();
    match find_sub(p, "href=") {
        None => String::new(),
        Some(i) => {
            let after = p.substring_char(i + hlen, plen);
            let seg = match find_sub(after, "href=") {
                Some(j) => after.substring_char(0, j),
                None => after,
            };
            let seglen = seg.unicode_len();
            match find_sub(seg, "\"") {
                None => String::new(),
                Some(q1) => {
                    let rest = seg.substring_char(q1 + 1, seglen);
                    let restlen = rest.unicode_len();
                    match find_sub(rest, "\"") {
                        Some(q2) => String::from_str(rest.substring_char(0, q2)),
                        None => String::from_str(rest),
                    }
                },
            }
        },
    }
}

/// The bracketed marker printed for the `n`-th link of a render call.
pub open spec fn marker_text(n: int) -> Seq<char> {
    "["@ + dec_rep(n) + "] "@
}

/// Columns available to one wrapped line of literal text: the viewport width
/// minus a reserved right margin of 10 columns.
pub open spec fn wrap_width(w: u16) -> int {
    w - 10
}

/// Splits a text run into chunks of at most `w` characters: full chunks of
/// exactly `w`, then whatever remains.
pub open spec fn chunks(t: Seq<char>, w: int) -> Seq<Seq<char>>
    decreases t.len(),
{
    if w < 1 {
        seq![t]
    } else if t.len() <= w {
        seq![t]
    } else {
        seq![t.take(w)] + chunks(t.skip(w), w)
    }
}

/// Law: word wrap splits a text run into chunks each no longer than the wrap
/// width, and the concatenation of the chunks reconstructs the run exactly.
pub proof fn lemma_wrap_chunks_exact(t: Seq<char>, w: int)
    requires
        w >= 1,
    ensures
        forall|k: int| 0 <= k < chunks(t, w).len() ==> #[trigger] chunks(t, w)[k].len() <= w,
        chunks(t, w).flatten() == t,
    decreases t.len(),
{
    if t.len() <= w {
        assert(chunks(t, w) == seq![t]);
        seq![t].lemma_flatten_one_element();
    } else {
        lemma_wrap_chunks_exact(t.skip(w), w);
        let rest = chunks(t.skip(w), w);
        let whole = seq![t.take(w)] + rest;
        assert(chunks(t, w) == whole);
        assert(whole.drop_first() =~= rest);
        assert(whole.flatten() == t.take(w) + rest.flatten());
        assert(t.take(w) + t.skip(w) =~= t);
    }
}

/// The chunks of one text run as print operations.
pub open spec fn print_ops(cs: Seq<Seq<char>>) -> Seq<DrawOpS> {
    cs.map_values(|c: Seq<char>| DrawOpS::Print(c))
}

/// Renderer state: the cursor row, the link table, and the operations
/// emitted so far.
pub ghost struct MarkupSt {
    pub row: usize,
    pub links: Seq<Seq<char>>,
    pub ops: Seq<DrawOpS>,
}

/// The cursor row below `r`, saturating at the machine word.
pub open spec fn inc_row(r: usize) -> usize {
    if r < usize::MAX {
        (r + 1) as usize
    } else {
        r
    }
}

pub open spec fn markup_init(start_row: usize) -> MarkupSt {
    MarkupSt { row: start_row, links: Seq::empty(), ops: seq![DrawOpS::MoveTo(0, start_row)] }
}

/// Move to column 0 of the next line.
pub open spec fn break_line(st: MarkupSt) -> MarkupSt {
    MarkupSt {
        row: inc_row(st.row),
        links: st.links,
        ops: st.ops.push(DrawOpS::MoveTo(0, inc_row(st.row))),
    }
}

pub open spec fn push_op(st: MarkupSt, op: DrawOpS) -> MarkupSt {
    MarkupSt { row: st.row, links: st.links, ops: st.ops.push(op) }
}

/// Effect of one token on the renderer state.
pub open spec fn markup_step(st: MarkupSt, t: Tok, w: u16) -> MarkupSt {
    match t {
        Tok::Break => break_line(st),
        Tok::Piece(p) => match classify(p) {
            TokClass::Anchor => MarkupSt {
                row: st.row,
                links: st.links.push(url_of(p)),
                ops: st.ops + seq![
                    DrawOpS::PrintStyled(marker_text(st.links.len() as int + 1), TextStyle::Accent),
                    DrawOpS::SetStyle(StyleAttr::Underline),
                ],
            },
            TokClass::LineBreak => break_line(st),
            TokClass::CodeOn => push_op(st, DrawOpS::SetStyle(StyleAttr::CodeColor)),
            TokClass::CodeOff => push_op(st, DrawOpS::SetStyle(StyleAttr::DefaultColor)),
            TokClass::PreOpen => push_op(st, DrawOpS::MoveTo(0, st.row)),
            TokClass::BoldOn => push_op(st, DrawOpS::SetStyle(StyleAttr::Bold)),
            TokClass::BoldOff => push_op(st, DrawOpS::SetStyle(StyleAttr::NoBold)),
            TokClass::Bullet => MarkupSt {
                row: inc_row(st.row),
                links: st.links,
                ops: st.ops + seq![
                    DrawOpS::MoveTo(0, inc_row(st.row)),
                    DrawOpS::Print("- "@),
                ],
            },
            TokClass::Para => break_line(st),
            TokClass::UnderlineOff => push_op(st, DrawOpS::SetStyle(StyleAttr::NoUnderline)),
            TokClass::Nop => st,
            TokClass::Text => MarkupSt {
                row: st.row,
                links: st.links,
                ops: st.ops + print_ops(chunks(p, wrap_width(w))),
            },
        },
    }
}

/// Renderer state after the first `i` tokens.
pub open spec fn markup_state(toks: Seq<Tok>, i: int, w: u16, start_row: usize) -> MarkupSt
    decreases i,
{
    if i <= 0 {
        markup_init(start_row)
    } else {
        markup_step(markup_state(toks, i - 1, w, start_row), toks[i - 1], w)
    }
}

/// The draw operations of one whole markup render: an initial move to the
/// start row, one pass over the tokens, and a final style reset.
pub open spec fn markup_ops(text: Seq<char>, w: u16, start_row: usize) -> Seq<DrawOpS> {
    markup_state(
        spec_tokenize(text),
        spec_tokenize(text).len() as int,
        w,
        start_row,
    ).ops.push(DrawOpS::ResetStyle)
}

/// The link table of one whole markup render, in document order.
pub open spec fn markup_links(text: Seq<char>, w: u16, start_row: usize) -> Seq<Seq<char>> {
    markup_state(spec_tokenize(text), spec_tokenize(text).len() as int, w, start_row).links
}

/// A styled print: the form every link marker takes.
pub open spec fn is_styled_print(o: DrawOpS) -> bool {
    o is PrintStyled
}

/// The styled print operations of an operation list, in order. Within one
/// markup render these are exactly the link markers: nothing else the
/// renderer emits is a styled print.
pub open spec fn styled_prints(ops: Seq<DrawOpS>) -> Seq<DrawOpS> {
    ops.filter(|o: DrawOpS| is_styled_print(o))
}

proof fn lemma_styled_push(s: Seq<DrawOpS>, x: DrawOpS)
    ensures
        styled_prints(s.push(x)) == if is_styled_print(x) {
            styled_prints(s).push(x)
        } else {
            styled_prints(s)
        },
{
    reveal(Seq::filter);
    assert(s.push(x).drop_last() =~= s);
    assert(s.push(x).last() == x);
}

proof fn lemma_styled_add(s: Seq<DrawOpS>, t: Seq<DrawOpS>)
    ensures
        styled_prints(s + t) == styled_prints(s) + styled_prints(t),
    decreases t.len(),
{
    reveal(Seq::filter);
    if t.len() == 0 {
        assert(s + t =~= s);
        assert(styled_prints(s) + styled_prints(t) =~= styled_prints(s));
    } else {
        lemma_styled_add(s, t.drop_last());
        assert((s + t).drop_last() =~= s + t.drop_last());
        assert((s + t).last() == t.last());
        if is_styled_print(t.last()) {
            assert(styled_prints(s) + styled_prints(t) =~= (styled_prints(s) + styled_prints(
                t.drop_last(),
            )).push(t.last()));
        } else {
            assert(styled_prints(s) + styled_prints(t) =~= styled_prints(s) + styled_prints(
                t.drop_last(),
            ));
        }
    }
}

proof fn lemma_styled_print_ops(cs: Seq<Seq<char>>)
    ensures
        styled_prints(print_ops(cs)) == Seq::<DrawOpS>::empty(),
    decreases cs.len(),
{
    reveal(Seq::filter);
    if cs.len() == 0 {
        assert(print_ops(cs) =~= Seq::<DrawOpS>::empty());
    } else {
        lemma_styled_print_ops(cs.drop_last());
        assert(print_ops(cs).drop_last() =~= print_ops(cs.drop_last()));
        assert(print_ops(cs).last() == DrawOpS::Print(cs.last()));
    }
}

/// The numbering the markers of the first `n` links form.
pub open spec fn marker_ops(n: int) -> Seq<DrawOpS> {
    Seq::new(n as nat, |k: int| DrawOpS::PrintStyled(marker_text(k + 1), TextStyle::Accent))
}

proof fn lemma_markers_numbered_state(toks: Seq<Tok>, i: int, w: u16, start_row: usize)
    requires
        0 <= i,
    ensures
        styled_prints(markup_state(toks, i, w, start_row).ops) == marker_ops(
            markup_state(toks, i, w, start_row).links.len() as int,
        ),
    decreases i,
{
    reveal(Seq::filter);
    if i == 0 {
        assert(markup_init(start_row).ops =~= Seq::<DrawOpS>::empty().push(
            DrawOpS::MoveTo(0, start_row),
        ));
        lemma_styled_push(Seq::<DrawOpS>::empty(), DrawOpS::MoveTo(0, start_row));
        assert(styled_prints(markup_init(start_row).ops) =~= marker_ops(0));
    } else {
        lemma_markers_numbered_state(toks, i - 1, w, start_row);
        let st = markup_state(toks, i - 1, w, start_row);
        let st2 = markup_state(toks, i, w, start_row);
        assert(st2 == markup_step(st, toks[i - 1], w));
        match toks[i - 1] {
            Tok::Break => {
                lemma_styled_push(st.ops, DrawOpS::MoveTo(0, inc_row(st.row)));
            },
            Tok::Piece(p) => {
                match classify(p) {
                    TokClass::Anchor => {
                        let m = DrawOpS::PrintStyled(
                            marker_text(st.links.len() as int + 1),
                            TextStyle::Accent,
                        );
                        let u = DrawOpS::SetStyle(StyleAttr::Underline);
                        assert(st.ops + seq![m, u] =~= st.ops.push(m).push(u));
                        lemma_styled_push(st.ops, m);
                        lemma_styled_push(st.ops.push(m), u);
                        assert(styled_prints(st2.ops) =~= marker_ops(
                            st2.links.len() as int,
                        ));
                    },
                    TokClass::LineBreak => {
                        lemma_styled_push(st.ops, DrawOpS::MoveTo(0, inc_row(st.row)));
                    },
                    TokClass::CodeOn => {
                        lemma_styled_push(st.ops, DrawOpS::SetStyle(StyleAttr::CodeColor));
                    },
                    TokClass::CodeOff => {
                        lemma_styled_push(st.ops, DrawOpS::SetStyle(StyleAttr::DefaultColor));
                    },
                    TokClass::PreOpen => {
                        lemma_styled_push(st.ops, DrawOpS::MoveTo(0, st.row));
                    },
                    TokClass::BoldOn => {
                        lemma_styled_push(st.ops, DrawOpS::SetStyle(StyleAttr::Bold));
                    },
                    TokClass::BoldOff => {
                        lemma_styled_push(st.ops, DrawOpS::SetStyle(StyleAttr::NoBold));
                    },
                    TokClass::Bullet => {
                        let a = DrawOpS::MoveTo(0, inc_row(st.row));
                        let b = DrawOpS::Print("- "@);
                        assert(st.ops + seq![a, b] =~= st.ops.push(a).push(b));
                        lemma_styled_push(st.ops, a);
                        lemma_styled_push(st.ops.push(a), b);
                    },
                    TokClass::Para => {
                        lemma_styled_push(st.ops, DrawOpS::MoveTo(0, inc_row(st.row)));
                    },
                    TokClass::UnderlineOff => {
                        lemma_styled_push(st.ops, DrawOpS::SetStyle(StyleAttr::NoUnderline));
                    },
                    TokClass::Nop => {
                    },
                    TokClass::Text => {
                        lemma_styled_add(st.ops, print_ops(chunks(p, wrap_width(w))));
                        lemma_styled_print_ops(chunks(p, wrap_width(w)));
                        assert(styled_prints(st.ops) + Seq::<DrawOpS>::empty() =~= styled_prints(
                            st.ops,
                        ));
                    },
                }
            },
        }
    }
}

/// Law: the styled prints a markup render emits are exactly the link
/// markers, numbered `[1] `, `[2] `, ... in document order, one per entry of
/// the returned link table, whatever the anchor text or the rest of the body
/// holds.
pub proof fn lemma_link_markers_numbered(text: Seq<char>, w: u16, start_row: usize)
    ensures
        styled_prints(markup_ops(text, w, start_row)) == marker_ops(
            markup_links(text, w, start_row).len() as int,
        ),
{
    let toks = spec_tokenize(text);
    lemma_markers_numbered_state(toks, toks.len() as int, w, start_row);
    lemma_styled_push(
        markup_state(toks, toks.len() as int, w, start_row).ops,
        DrawOpS::ResetStyle,
    );
}

/// Result of one markup render: the draw operations, and the link targets in
/// the order their markers were printed.
pub struct MarkupOut {
    pub ops: Vec<DrawOp>,
    pub links: Vec<String>,
}

fn inc_row_exec(r: usize) -> (n: usize)
    ensures
        n == inc_row(r),
{
    if r < usize::MAX {
        r + 1
    } else {
        r
    }
}

/// Renders a body's markup into draw operations for a viewport `termsize`
/// columns wide, starting at row `start_row`.
pub fn render_markup(text: &str, termsize: (u16, u16), start_row: usize) -> (out: MarkupOut)
    requires
        termsize.0 >= 11,
    ensures
        ops_view(out.ops@) == markup_ops(text@, termsize.0, start_row),
        strs_view(out.links@) == markup_links(text@, termsize.0, start_row),
{
    let toks = tokenize_text(text);
    let ghost gtoks = spec_tokenize(text@);
    let wchunk: usize = (termsize.0 - 10) as usize;
    let mut ops: Vec<DrawOp> = Vec::new();
    let mut links: Vec<String> = Vec::new();
    let mut row: usize = start_row;
    ops.push(DrawOp::MoveTo(0, start_row));
    proof {
        assert(ops_view(ops@) =~= markup_init(start_row).ops);
        assert(strs_view(links@) =~= markup_init(start_row).links);
    }
    let mut k: usize = 0;
    while k < toks.len()
        invariant
            toks_view(toks@) == gtoks,
            gtoks == spec_tokenize(text@),
            k <= toks@.len(),
            termsize.0 >= 11,
            wchunk == termsize.0 - 10,
            links@.len() <= k,
            ops_view(ops@) == markup_state(gtoks, k as int, termsize.0, start_row).ops,
            strs_view(links@) == markup_state(gtoks, k as int, termsize.0, start_row).links,
            row == markup_state(gtoks, k as int, termsize.0, start_row).row,
        decreases toks@.len() - k,
    {
        let ghost st_pre = markup_state(gtoks, k as int, termsize.0, start_row);
        let ghost st_post = markup_state(gtoks, k as int + 1, termsize.0, start_row);
        proof {
            assert(gtoks[k as int] == toks@[k as int]@);
            assert(st_post == markup_step(st_pre, gtoks[k as int], termsize.0));
        }
        let t = &toks[k];
        match t {
            Token::Break => {
                row = inc_row_exec(row);
                ops.push(DrawOp::MoveTo(0, row));
                proof {
                    assert(ops_view(ops@) =~= st_post.ops);
                }
            },
            Token::Piece(p) => {
                let cls = classify_exec(p.as_str());
                match cls {
                    TokClass::Anchor => {
                        let n = links.len() + 1;
                        let num = dec_str(n);
                        let mut marker = String::from_str("[");
                        marker.append(num.as_str());
                        marker.append("] ");
                        proof {
                            assert(marker@ == marker_text(n as int));
                        }
                        ops.push(DrawOp::PrintStyled(marker, TextStyle::Accent));
                        ops.push(DrawOp::SetStyle(StyleAttr::Underline));
                        links.push(extract_url(p.as_str()));
                        proof {
                            assert(ops_view(ops@) =~= st_post.ops);
                            assert(strs_view(links@) =~= st_post.links);
                        }
                    },
                    TokClass::LineBreak => {
                        row = inc_row_exec(row);
                        ops.push(DrawOp::MoveTo(0, row));
                        proof {
                            assert(ops_view(ops@) =~= st_post.ops);
                        }
                    },
                    TokClass::CodeOn => {
                        ops.push(DrawOp::SetStyle(StyleAttr::CodeColor));
                        proof {
                            assert(ops_view(ops@) =~= st_post.ops);
                        }
                    },
                    TokClass::CodeOff => {
                        ops.push(DrawOp::SetStyle(StyleAttr::DefaultColor));
                        proof {
                            assert(ops_view(ops@) =~= st_post.ops);
                        }
                    },
                    TokClass::PreOpen => {
                        ops.push(DrawOp::MoveTo(0, row));
                        proof {
                            assert(ops_view(ops@) =~= st_post.ops);
                        }
                    },
                    TokClass::BoldOn => {
                        ops.push(DrawOp::SetStyle(StyleAttr::Bold));
                        proof {
                            assert(ops_view(ops@) =~= st_post.ops);
                        }
                    },
                    TokClass::BoldOff => {
                        ops.push(DrawOp::SetStyle(StyleAttr::NoBold));
                        proof {
                            assert(ops_view(ops@) =~= st_post.ops);
                        }
                    },
                    TokClass::Bullet => {
                        row = inc_row_exec(row);
                        ops.push(DrawOp::MoveTo(0, row));
                        ops.push(DrawOp::Print(String::from_str("- ")));
                        proof {
                            assert(ops_view(ops@) =~= st_post.ops);
                        }
                    },
                    TokClass::Para => {
                        row = inc_row_exec(row);
                        ops.push(DrawOp::MoveTo(0, row));
                        proof {
                            assert(ops_view(ops@) =~= st_post.ops);
                        }
                    },
                    TokClass::UnderlineOff => {
                        ops.push(DrawOp::SetStyle(StyleAttr::NoUnderline));
                        proof {
                            assert(ops_view(ops@) =~= st_post.ops);
                        }
                    },
                    TokClass::Nop => {
                        proof {
                            assert(st_post == st_pre);
                        }
                    },
                    TokClass::Text => {
                        let pl = p.as_str().unicode_len();
                        let mut startc: usize = 0;
                        let ghost base_ops = ops@;
                        proof {
                            assert(p@.skip(0) =~= p@);
                        }
                        while pl - startc > wchunk
                            invariant
                                startc < pl,
                                pl == p@.len(),
                                wchunk >= 1,
                                ops_view(base_ops) + print_ops(chunks(p@, wchunk as int))
                                    == ops_view(ops@) + print_ops(
                                    chunks(p@.skip(startc as int), wchunk as int),
                                ),
                            decreases pl - startc,
                        {
                            let piece = p.as_str().substring_char(startc, startc + wchunk);
                            ops.push(DrawOp::Print(String::from_str(piece)));
                            proof {
                                let w = wchunk as int;
                                let rem = p@.skip(startc as int);
                                assert(chunks(rem, w) == seq![rem.take(w)] + chunks(
                                    rem.skip(w),
                                    w,
                                ));
                                assert(rem.take(w) =~= p@.subrange(
                                    startc as int,
                                    startc as int + w,
                                ));
                                assert(rem.skip(w) =~= p@.skip(startc as int + w));
                                assert(print_ops(seq![rem.take(w)] + chunks(rem.skip(w), w)) =~= seq![
                                    DrawOpS::Print(rem.take(w)),
                                ] + print_ops(chunks(rem.skip(w), w)));
                                assert(ops_view(base_ops) + print_ops(chunks(p@, wchunk as int))
                                    =~= ops_view(ops@) + print_ops(
                                    chunks(p@.skip(startc as int + w), wchunk as int),
                                ));
                            }
                            startc += wchunk;
                        }
                        let piece = p.as_str().substring_char(startc, pl);
                        ops.push(DrawOp::Print(String::from_str(piece)));
                        proof {
                            let w = wchunk as int;
                            let rem = p@.skip(startc as int);
                            assert(chunks(rem, w) == seq![rem]);
                            assert(rem =~= p@.subrange(startc as int, pl as int));
                            assert(print_ops(seq![rem]) =~= seq![DrawOpS::Print(rem)]);
                            assert(ops_view(ops@) =~= ops_view(base_ops) + print_ops(
                                chunks(p@, wchunk as int),
                            ));
                            assert(ops_view(ops@) =~= st_post.ops);
                        }
                    },
                }
            },
        }
        k += 1;
    }
    ops.push(DrawOp::ResetStyle);
    proof {
        assert(gtoks.len() == toks@.len());
        assert(ops_view(ops@) =~= markup_ops(text@, termsize.0, start_row));
    }
    MarkupOut { ops, links }
}

} // verus!
