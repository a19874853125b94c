use vstd::prelude::*;
use crate::grid::{Window, put};

verus! {

broadcast use vstd::std_specs::vec::axiom_vec_index_decreases;

/// Largest magnitude of a clip bound handed to `show`; offsets past it are saturated.
pub const REACH: i64 = 0x100_0000_0000;

pub open spec fn bound_ok(x: int) -> bool {
    -REACH <= x <= REACH
}

pub open spec fn clamp_spec(x: int) -> int {
    if x < -REACH { -REACH as int } else if x > REACH { REACH as int } else { x }
}

pub fn clamp(x: i64) -> (r: i64)
    ensures
        r == clamp_spec(x as int),
{
    if x < -REACH { -REACH } else if x > REACH { REACH } else { x }
}

pub open spec fn min_spec(a: int, b: int) -> int {
    if a <= b { a } else { b }
}

pub open spec fn max_spec(a: int, b: int) -> int {
    if a >= b { a } else { b }
}

/// Weight of the box-drawing glyphs round a button or a block.
#[derive(PartialEq, Eq, Structural, Clone, Copy, Debug)]
pub enum Border {
    Slim,
    Bold,
}

/// The six glyphs of a frame: corners top-left, top-right, bottom-left,
/// bottom-right, then the horizontal and the vertical edge.
pub open spec fn glyphs(b: Border) -> (char, char, char, char, char, char) {
    match b {
        Border::Slim => ('╭', '╮', '╰', '╯', '─', '│'),
        Border::Bold => ('┏', '┓', '┗', '┛', '━', '┃'),
    }
}

fn border_glyphs(b: Border) -> (g: (char, char, char, char, char, char))
    ensures
        g == glyphs(b),
{
    match b {
        Border::Slim => ('╭', '╮', '╰', '╯', '─', '│'),
        Border::Bold => ('┏', '┓', '┗', '┛', '━', '┃'),
    }
}

/// `l`, then `n` copies of `fill`, then `rt`.
pub open spec fn bar(l: char, fill: char, rt: char, n: int) -> Seq<char> {
    seq![l] + Seq::new(n as nat, |i: int| fill) + seq![rt]
}

fn make_bar(l: char, fill: char, rt: char, n: usize) -> (out: Vec<char>)
    ensures
        out@ == bar(l, fill, rt, n as int),
{
    let mut out: Vec<char> = Vec::new();
    out.push(l);
    let mut i: usize = 0;
    while i < n
        invariant
            i <= n,
            out@ == seq![l] + Seq::new(i as nat, |k: int| fill),
        decreases n - i,
    {
        out.push(fill);
        i = i + 1;
        assert(out@ =~= seq![l] + Seq::new(i as nat, |k: int| fill));
    }
    out.push(rt);
    out
}

/// `v`, `p` spaces, `label`, `p` spaces, `v`.
pub open spec fn label_line(v: char, p: int, label: Seq<char>) -> Seq<char> {
    seq![v] + Seq::new(p as nat, |i: int| ' ') + label + Seq::new(p as nat, |i: int| ' ') + seq![v]
}

fn make_label_line(v: char, p: usize, label: &Vec<char>) -> (out: Vec<char>)
    ensures
        out@ == label_line(v, p as int, label@),
{
    let mut out: Vec<char> = Vec::new();
    out.push(v);
    let mut i: usize = 0;
    while i < p
        invariant
            i <= p,
            out@ == seq![v] + Seq::new(i as nat, |k: int| ' '),
        decreases p - i,
    {
        out.push(' ');
        i = i + 1;
        assert(out@ =~= seq![v] + Seq::new(i as nat, |k: int| ' '));
    }
    let mut k: usize = 0;
    while k < label.len()
        invariant
            k <= label@.len(),
            out@ == seq![v] + Seq::new(p as nat, |q: int| ' ') + label@.subrange(0, k as int),
        decreases label@.len() - k,
    {
        out.push(label[k]);
        k = k + 1;
        assert(out@ =~= seq![v] + Seq::new(p as nat, |q: int| ' ') + label@.subrange(0, k as int));
    }
    assert(label@.subrange(0, label@.len() as int) =~= label@);
    let mut j: usize = 0;
    while j < p
        invariant
            j <= p,
            out@ == seq![v] + Seq::new(p as nat, |q: int| ' ') + label@ + Seq::new(j as nat, |q: int| ' '),
        decreases p - j,
    {
        out.push(' ');
        j = j + 1;
        assert(out@ =~= seq![v] + Seq::new(p as nat, |q: int| ' ') + label@ + Seq::new(j as nat, |q: int| ' '));
    }
    out.push(v);
    out
}

/// One clipped write: `text` at absolute `row`, `col`, kept within rows
/// `[min_r, max_r)` and columns `[min_c, max_c)`.
pub ghost struct Stroke {
    pub text: Seq<char>,
    pub row: int,
    pub col: int,
    pub min_r: int,
    pub max_r: int,
    pub min_c: int,
    pub max_c: int,
}

/// The grid after the strokes, applied in order.
pub open spec fn paint(g: Seq<Seq<char>>, s: Seq<Stroke>) -> Seq<Seq<char>>
    decreases s.len(),
{
    if s.len() == 0 {
        g
    } else {
        let l = s.last();
        put(paint(g, s.drop_last()), l.text, l.row, l.col, l.min_r, l.max_r, l.min_c, l.max_c)
    }
}

pub open spec fn stroke_ok(s: Stroke) -> bool {
    &&& -0x10_0000_0000_0000 <= s.row <= 0x10_0000_0000_0000
    &&& -0x10_0000_0000_0000 <= s.col <= 0x10_0000_0000_0000
    &&& -0x10_0000_0000_0000 <= s.min_r <= 0x10_0000_0000_0000
    &&& -0x10_0000_0000_0000 <= s.max_r <= 0x10_0000_0000_0000
    &&& -0x10_0000_0000_0000 <= s.min_c <= 0x10_0000_0000_0000
    &&& -0x10_0000_0000_0000 <= s.max_c <= 0x10_0000_0000_0000
}

pub struct ExStroke {
    pub text: Vec<char>,
    pub row: i64,
    pub col: i64,
    pub min_r: i64,
    pub max_r: i64,
    pub min_c: i64,
    pub max_c: i64,
}

impl ExStroke {
    pub open spec fn view(&self) -> Stroke {
        Stroke {
            text: self.text@,
            row: self.row as int,
            col: self.col as int,
            min_r: self.min_r as int,
            max_r: self.max_r as int,
            min_c: self.min_c as int,
            max_c: self.max_c as int,
        }
    }
}

pub open spec fn strokes_view(v: Seq<ExStroke>) -> Seq<Stroke> {
    v.map_values(|s: ExStroke| s.view())
}

pub open spec fn all_ok(s: Seq<Stroke>) -> bool {
    forall|k: int| 0 <= k < s.len() ==> stroke_ok(#[trigger] s[k])
}

/// Applies the strokes to the window, in order.
fn apply(wnd: &mut Window, strokes: &Vec<ExStroke>)
    requires
        old(wnd).wf(),
        all_ok(strokes_view(strokes@)),
    ensures
        final(wnd).wf(),
        final(wnd).spec_width() == old(wnd).spec_width(),
        final(wnd).spec_height() == old(wnd).spec_height(),
        final(wnd).cells() == paint(old(wnd).cells(), strokes_view(strokes@)),
{
    let ghost g0 = wnd.cells();
    let mut i: usize = 0;
    while i < strokes.len()
        invariant
            i <= strokes@.len(),
            wnd.wf(),
            wnd.spec_width() == old(wnd).spec_width(),
            wnd.spec_height() == old(wnd).spec_height(),
            g0 == old(wnd).cells(),
            all_ok(strokes_view(strokes@)),
            wnd.cells() == paint(g0, strokes_view(strokes@.subrange(0, i as int))),
        decreases strokes@.len() - i,
    {
        let s = &strokes[i];
        assert(stroke_ok(strokes_view(strokes@)[i as int]));
        wnd.show_string(&s.text, s.row - s.min_r, s.col - s.min_c, s.min_r, s.max_r, s.min_c, s.max_c);
        assert(strokes_view(strokes@.subrange(0, i + 1)).drop_last() =~= strokes_view(
            strokes@.subrange(0, i as int),
        ));
        i = i + 1;
    }
    assert(strokes@.subrange(0, strokes@.len() as int) =~= strokes@);
}

/// The clip rectangle and origin shared by the strokes of one widget.
pub ghost struct Clip {
    pub min_r: int,
    pub max_r: int,
    pub min_c: int,
    pub max_c: int,
}

pub open spec fn at(k: Clip, t: Seq<char>, row: int, col: int) -> Stroke {
    Stroke { text: t, row, col, min_r: k.min_r, max_r: k.max_r, min_c: k.min_c, max_c: k.max_c }
}

/// `to - from` strokes of `text`, one per row from `from`, all at column `col`.
pub open spec fn rows(k: Clip, text: Seq<char>, from: int, to: int, col: int) -> Seq<Stroke> {
    Seq::new((if to > from { to - from } else { 0 }) as nat, |i: int| at(k, text, from + i, col))
}

pub open spec fn clip_of(min_r: i64, max_r: i64, min_c: i64, max_c: i64) -> Clip {
    Clip { min_r: min_r as int, max_r: max_r as int, min_c: min_c as int, max_c: max_c as int }
}

fn push_rows(
    out: &mut Vec<ExStroke>,
    text: &Vec<char>,
    from: i64,
    to: i64,
    col: i64,
    min_r: i64,
    max_r: i64,
    min_c: i64,
    max_c: i64,
)
    requires
        -0x1_0000_0000_0000 <= from <= 0x1_0000_0000_0000,
        -0x1_0000_0000_0000 <= to <= 0x1_0000_0000_0000,
    ensures
        strokes_view(final(out)@) == strokes_view(old(out)@) + rows(clip_of(min_r, max_r, min_c, max_c), text@, from as int, to as int, col as int),
{
    let ghost k = clip_of(min_r, max_r, min_c, max_c);
    let ghost base = strokes_view(old(out)@);
    let mut rr: i64 = from;
    while rr < to
        invariant
            from <= rr,
            rr <= to || rr == from,
            -0x1_0000_0000_0000 <= to <= 0x1_0000_0000_0000,
            k == clip_of(min_r, max_r, min_c, max_c),
            strokes_view(out@) == base + rows(k, text@, from as int, rr as int, col as int),
        decreases to - rr,
    {
        let t = text.clone();
        assert(t@ == text@);
        let ghost prev = out@;
        out.push(ExStroke { text: t, row: rr, col, min_r, max_r, min_c, max_c });
        assert(strokes_view(out@) =~= strokes_view(prev).push(out@.last().view()));
        rr = rr + 1;
        assert(strokes_view(out@) =~= base + rows(k, text@, from as int, rr as int, col as int));
    }
}

/// Width between the side edges of a frame round `len` characters with `p` of padding
/// on each side, saturated at the largest `usize`.
pub open spec fn inner_width(len: int, p: int) -> int {
    if len + 2 * p > usize::MAX { usize::MAX as int } else { len + 2 * p }
}

fn make_inner_width(len: usize, p: u16) -> (n: usize)
    ensures
        n == inner_width(len as int, p as int),
{
    let pp: usize = 2 * (p as usize);
    if len > usize::MAX - pp { usize::MAX } else { len + pp }
}

/// A single line of text at a relative position.
pub struct Text {
    pub text: Vec<char>,
    pub r: i16,
    pub c: i16,
    pub id: String,
}

/// A framed label that fires when a line equal to `command` comes in.
pub struct Button {
    /// Names the callback that a match runs; the host keeps the callbacks.
    pub key: u64,
    pub border: Border,
    pub padding: u16,
    pub command: String,
    pub text: Vec<char>,
    pub id: String,
    pub r: i16,
    pub c: i16,
}

/// A framed, titled panel that holds other elements.
pub struct Block {
    pub width: u16,
    pub height: u16,
    pub border: Border,
    pub padding: u16,
    pub name: Vec<char>,
    pub c: i16,
    pub r: i16,
    pub id: String,
    pub elements: Vec<Element>,
}

/// A node of the element tree.
pub enum Element {
    Text(Text),
    Button(Button),
    Block(Block),
}

/// The strokes of a button whose container's origin is `org_r`, `org_c`: top edge,
/// the padding rows, the label row, the padding rows, bottom edge.
pub open spec fn button_strokes(b: Button, org_r: int, org_c: int, k: Clip) -> Seq<Stroke> {
    let (tl, tr, bl, br, hz, vt) = glyphs(b.border);
    let r = b.r + org_r;
    let c = b.c + org_c;
    let p = b.padding as int;
    let n = inner_width(b.text@.len() as int, p);
    let col = c - 1 - p;
    let side = bar(vt, ' ', vt, n);
    seq![at(k, bar(tl, hz, tr, n), r - 1 - p, col)]
        + rows(k, side, r - p, r, col)
        + seq![at(k, label_line(vt, p, b.text@), r, col)]
        + rows(k, side, r + 1, r + 1 + p, col)
        + seq![at(k, bar(bl, hz, br, n), r + 1 + p, col)]
}

/// Half of `d`, rounded down.
pub open spec fn half_floor(d: int) -> int {
    if d >= 0 { d / 2 } else { -((-d + 1) / 2) }
}

/// Longest title length taken into account when centring a title.
pub const TITLE_CAP: i64 = 0x1_0000_0000;

/// The first column of a block's title: centred over the frame, whose outer edges are
/// columns `c - 1 - p` and `c + w + p`.
pub open spec fn title_col(c: int, w: int, p: int, len: int) -> int {
    let l = if len > TITLE_CAP { TITLE_CAP as int } else { len };
    c - 1 - p + half_floor(w + 2 * p + 2 - l)
}

/// The strokes of a block's frame and of its title, which is centred on the row above
/// the top edge and cut to the frame's width and to the block's clip rectangle.
pub open spec fn block_strokes(b: Block, org_r: int, org_c: int, k: Clip) -> Seq<Stroke> {
    let (tl, tr, bl, br, hz, vt) = glyphs(b.border);
    let r = b.r + org_r;
    let c = b.c + org_c;
    let p = b.padding as int;
    let h = b.height as int;
    let w = b.width as int;
    let n = w + 2 * p;
    let col = c - 1 - p;
    seq![at(k, bar(tl, hz, tr, n), r - 1 - p, col)]
        + rows(k, bar(vt, ' ', vt, n), r - p, r + h + p, col)
        + seq![at(k, bar(bl, hz, br, n), r + h + p, col)]
        + seq![Stroke {
            text: b.name@,
            row: r - p - 2,
            col: title_col(c, w, p, b.name@.len() as int),
            min_r: k.min_r,
            max_r: k.max_r,
            min_c: max_spec(k.min_c, c - 1 - p),
            max_c: min_spec(k.max_c, c + w + p + 1),
        }]
}

proof fn lemma_all_ok_concat(a: Seq<Stroke>, b: Seq<Stroke>)
    requires
        all_ok(a),
        all_ok(b),
    ensures
        all_ok(a + b),
{
    assert forall|k: int| 0 <= k < (a + b).len() implies stroke_ok(#[trigger] (a + b)[k]) by {
        if k < a.len() {
            assert((a + b)[k] == a[k]);
        } else {
            assert((a + b)[k] == b[k - a.len()]);
        }
    }
}

proof fn lemma_rows_ok(k: Clip, text: Seq<char>, from: int, to: int, col: int)
    requires
        stroke_ok(at(k, text, from, col)),
        stroke_ok(at(k, text, to, col)),
    ensures
        all_ok(rows(k, text, from, to, col)),
{
}

fn push_one(out: &mut Vec<ExStroke>, s: ExStroke)
    ensures
        strokes_view(final(out)@) == strokes_view(old(out)@) + seq![s.view()],
{
    let ghost prev = out@;
    out.push(s);
    assert(strokes_view(out@) =~= strokes_view(prev) + seq![out@.last().view()]);
}

/// The six numbers that place a widget: its container's origin and its clip rectangle.
pub open spec fn place_ok(org_r: int, org_c: int, min_r: int, max_r: int, min_c: int, max_c: int) -> bool {
    &&& bound_ok(org_r)
    &&& bound_ok(org_c)
    &&& bound_ok(min_r)
    &&& bound_ok(max_r)
    &&& bound_ok(min_c)
    &&& bound_ok(max_c)
}

fn button_frame(b: &Button, org_r: i64, org_c: i64, min_r: i64, max_r: i64, min_c: i64, max_c: i64) -> (out: Vec<ExStroke>)
    requires
        place_ok(org_r as int, org_c as int, min_r as int, max_r as int, min_c as int, max_c as int),
    ensures
        strokes_view(out@) == button_strokes(*b, org_r as int, org_c as int, clip_of(min_r, max_r, min_c, max_c)),
        all_ok(strokes_view(out@)),
{
    let ghost k = clip_of(min_r, max_r, min_c, max_c);
    let (tl, tr, bl, br, hz, vt) = border_glyphs(b.border);
    let r: i64 = b.r as i64 + org_r;
    let c: i64 = b.c as i64 + org_c;
    let p: i64 = b.padding as i64;
    let n: usize = make_inner_width(b.text.len(), b.padding);
    let col: i64 = c - 1 - p;
    let side = make_bar(vt, ' ', vt, n);
    let mut out: Vec<ExStroke> = Vec::new();
    push_one(&mut out, ExStroke { text: make_bar(tl, hz, tr, n), row: r - 1 - p, col, min_r, max_r, min_c, max_c });
    let ghost a = strokes_view(out@);
    push_rows(&mut out, &side, r - p, r, col, min_r, max_r, min_c, max_c);
    push_one(&mut out, ExStroke { text: make_label_line(vt, b.padding as usize, &b.text), row: r, col, min_r, max_r, min_c, max_c });
    push_rows(&mut out, &side, r + 1, r + 1 + p, col, min_r, max_r, min_c, max_c);
    push_one(&mut out, ExStroke { text: make_bar(bl, hz, br, n), row: r + 1 + p, col, min_r, max_r, min_c, max_c });
    proof {
        let s1 = rows(k, side@, r - p, r as int, col as int);
        let s3 = rows(k, side@, r + 1, r + 1 + p, col as int);
        let m = seq![at(k, label_line(vt, p as int, b.text@), r as int, col as int)];
        lemma_rows_ok(k, side@, r - p, r as int, col as int);
        lemma_rows_ok(k, side@, r + 1, r + 1 + p, col as int);
        assert(all_ok(a));
        lemma_all_ok_concat(a, s1);
        lemma_all_ok_concat(a + s1, m);
        lemma_all_ok_concat(a + s1 + m, s3);
        lemma_all_ok_concat(a + s1 + m + s3, seq![at(k, bar(bl, hz, br, n as int), r + 1 + p, col as int)]);
    }
    out
}

fn block_frame(b: &Block, org_r: i64, org_c: i64, min_r: i64, max_r: i64, min_c: i64, max_c: i64) -> (out: Vec<ExStroke>)
    requires
        place_ok(org_r as int, org_c as int, min_r as int, max_r as int, min_c as int, max_c as int),
    ensures
        strokes_view(out@) == block_strokes(*b, org_r as int, org_c as int, clip_of(min_r, max_r, min_c, max_c)),
        all_ok(strokes_view(out@)),
{
    let ghost k = clip_of(min_r, max_r, min_c, max_c);
    let (tl, tr, bl, br, hz, vt) = border_glyphs(b.border);
    let r: i64 = b.r as i64 + org_r;
    let c: i64 = b.c as i64 + org_c;
    let p: i64 = b.padding as i64;
    let h: i64 = b.height as i64;
    let w: i64 = b.width as i64;
    let n: usize = b.width as usize + 2 * (b.padding as usize);
    let col: i64 = c - 1 - p;
    let mut out: Vec<ExStroke> = Vec::new();
    push_one(&mut out, ExStroke { text: make_bar(tl, hz, tr, n), row: r - 1 - p, col, min_r, max_r, min_c, max_c });
    let ghost a = strokes_view(out@);
    let side = make_bar(vt, ' ', vt, n);
    push_rows(&mut out, &side, r - p, r + h + p, col, min_r, max_r, min_c, max_c);
    push_one(&mut out, ExStroke { text: make_bar(bl, hz, br, n), row: r + h + p, col, min_r, max_r, min_c, max_c });
    let len: i64 = if b.name.len() as u64 > TITLE_CAP as u64 { TITLE_CAP } else { b.name.len() as i64 };
    let d: i64 = w + 2 * p + 2 - len;
    let half: i64 = if d >= 0 { d / 2 } else { -((-d + 1) / 2) };
    let title = b.name.clone();
    assert(title@ == b.name@);
    let t_min_c: i64 = if min_c > c - 1 - p { min_c } else { c - 1 - p };
    let t_max_c: i64 = if max_c < c + w + p + 1 { max_c } else { c + w + p + 1 };
    let ts = ExStroke { text: title, row: r - p - 2, col: c - 1 - p + half, min_r, max_r, min_c: t_min_c, max_c: t_max_c };
    assert(ts.col == title_col(c as int, w as int, p as int, b.name@.len() as int));
    push_one(&mut out, ts);
    proof {
        let s1 = rows(k, side@, r - p, r + h + p, col as int);
        lemma_rows_ok(k, side@, r - p, r + h + p, col as int);
        lemma_all_ok_concat(a, s1);
        lemma_all_ok_concat(a + s1, seq![at(k, bar(bl, hz, br, n as int), r + h + p, col as int)]);
        lemma_all_ok_concat(a + s1 + seq![at(k, bar(bl, hz, br, n as int), r + h + p, col as int)], seq![ts.view()]);
    }
    out
}

/// Where a block puts its children: their origin is the block's own, inset by the
/// padding; their clip rectangle is the block's `height` by `width` interior from its
/// own position, cut by the block's clip rectangle. All six are saturated at `REACH`.
pub open spec fn child_place(b: Block, org_r: int, org_c: int, k: Clip) -> (int, int, Clip) {
    let r = b.r + org_r;
    let c = b.c + org_c;
    let p = b.padding as int;
    (
        clamp_spec(r + p),
        clamp_spec(c + p),
        Clip {
            min_r: clamp_spec(max_spec(k.min_r, r)),
            max_r: clamp_spec(min_spec(k.max_r, r + b.height)),
            min_c: clamp_spec(max_spec(k.min_c, c)),
            max_c: clamp_spec(min_spec(k.max_c, c + b.width)),
        },
    )
}

/// The grid after `e`, placed from origin `org_r`, `org_c`, renders into `g` within
/// clip rectangle `k`.
pub open spec fn render(g: Seq<Seq<char>>, e: Element, org_r: int, org_c: int, k: Clip) -> Seq<Seq<char>>
    decreases e, 1int, 0int,
{
    match e {
        Element::Text(t) => put(g, t.text@, t.r + org_r, t.c + org_c, k.min_r, k.max_r, k.min_c, k.max_c),
        Element::Button(b) => paint(g, button_strokes(b, org_r, org_c, k)),
        Element::Block(b) => {
            let (cr, cc, ck) = child_place(b, org_r, org_c, k);
            render_kids(paint(g, block_strokes(b, org_r, org_c, k)), e, b.elements@.len() as int, cr, cc, ck)
        },
    }
}

/// The grid after the first `n` children of block `e` render in order.
pub open spec fn render_kids(g: Seq<Seq<char>>, e: Element, n: int, org_r: int, org_c: int, k: Clip) -> Seq<Seq<char>>
    decreases e, 0int, n,
{
    if n <= 0 {
        g
    } else {
        match e {
            Element::Block(b) => {
                if n > b.elements@.len() {
                    g
                } else {
                    render(render_kids(g, e, n - 1, org_r, org_c, k), b.elements@[n - 1], org_r, org_c, k)
                }
            },
            _ => g,
        }
    }
}

/// The grid after each element of `es` renders in order, all from the same origin and
/// within the same clip rectangle.
pub open spec fn render_all(g: Seq<Seq<char>>, es: Seq<Element>, org_r: int, org_c: int, k: Clip) -> Seq<Seq<char>>
    decreases es.len(),
{
    if es.len() == 0 {
        g
    } else {
        render(render_all(g, es.drop_last(), org_r, org_c, k), es.last(), org_r, org_c, k)
    }
}

impl Element {
    /// Renders the element into `wnd` with `min_r`, `min_c` as its container's origin,
    /// clipped to rows `[min_r, max_r)` and columns `[min_c, max_c)`.
    pub fn show(&self, wnd: &mut Window, min_r: i64, max_r: i64, min_c: i64, max_c: i64)
        requires
            old(wnd).wf(),
            place_ok(min_r as int, min_c as int, min_r as int, max_r as int, min_c as int, max_c as int),
        ensures
            final(wnd).wf(),
            final(wnd).spec_width() == old(wnd).spec_width(),
            final(wnd).spec_height() == old(wnd).spec_height(),
            final(wnd).cells() == render(old(wnd).cells(), *self, min_r as int, min_c as int, clip_of(min_r, max_r, min_c, max_c)),
    {
        self.show_at(wnd, min_r, min_c, min_r, max_r, min_c, max_c);
    }

    /// Renders the element into `wnd` with `org_r`, `org_c` as its container's origin,
    /// clipped to rows `[min_r, max_r)` and columns `[min_c, max_c)`.
    pub fn show_at(&self, wnd: &mut Window, org_r: i64, org_c: i64, min_r: i64, max_r: i64, min_c: i64, max_c: i64)
        requires
            old(wnd).wf(),
            place_ok(org_r as int, org_c as int, min_r as int, max_r as int, min_c as int, max_c as int),
        ensures
            final(wnd).wf(),
            final(wnd).spec_width() == old(wnd).spec_width(),
            final(wnd).spec_height() == old(wnd).spec_height(),
            final(wnd).cells() == render(old(wnd).cells(), *self, org_r as int, org_c as int, clip_of(min_r, max_r, min_c, max_c)),
        decreases *self, 1int, 0int,
    {
        match self {
            Element::Text(t) => {
                wnd.show_string(&t.text, t.r as i64 + org_r - min_r, t.c as i64 + org_c - min_c, min_r, max_r, min_c, max_c);
            },
            Element::Button(b) => {
                let strokes = button_frame(b, org_r, org_c, min_r, max_r, min_c, max_c);
                apply(wnd, &strokes);
            },
            Element::Block(b) => {
                let strokes = block_frame(b, org_r, org_c, min_r, max_r, min_c, max_c);
                apply(wnd, &strokes);
                let r: i64 = b.r as i64 + org_r;
                let c: i64 = b.c as i64 + org_c;
                let p: i64 = b.padding as i64;
                let top: i64 = if min_r > r { min_r } else { r };
                let bottom: i64 = if max_r < r + b.height as i64 { max_r } else { r + b.height as i64 };
                let left: i64 = if min_c > c { min_c } else { c };
                let right: i64 = if max_c < c + b.width as i64 { max_c } else { c + b.width as i64 };
                let cr = clamp(r + p);
                let cc = clamp(c + p);
                let k0 = clamp(top);
                let k1 = clamp(bottom);
                let k2 = clamp(left);
                let k3 = clamp(right);
                let ghost g1 = wnd.cells();
                let mut i: usize = 0;
                while i < b.elements.len()
                    invariant
                        i <= b.elements@.len(),
                        *self == Element::Block(*b),
                        wnd.wf(),
                        wnd.spec_width() == old(wnd).spec_width(),
                        wnd.spec_height() == old(wnd).spec_height(),
                        place_ok(cr as int, cc as int, k0 as int, k1 as int, k2 as int, k3 as int),
                        wnd.cells() == render_kids(g1, *self, i as int, cr as int, cc as int, clip_of(k0, k1, k2, k3)),
                    decreases b.elements@.len() - i,
                {
                    proof {
                        assert(*self == Element::Block(*b));
                        assert(decreases_to!(*self => *b));
                        assert(decreases_to!(*b => b.elements));
                        assert(decreases_to!(b.elements => b.elements[i as int]));
                    }
                    b.elements[i].show_at(wnd, cr, cc, k0, k1, k2, k3);
                    i = i + 1;
                }
                assert(child_place(*b, org_r as int, org_c as int, clip_of(min_r, max_r, min_c, max_c)) == (cr as int, cc as int, clip_of(k0, k1, k2, k3)));
            },
        }
    }
}


/// The characters of `s`, in order.
pub fn chars_of(s: &str) -> (out: Vec<char>)
    ensures
        out@ == s@,
{
    let n = s.unicode_len();
    let mut out: Vec<char> = Vec::new();
    let mut i: usize = 0;
    while i < n
        invariant
            i <= n,
            n == s@.len(),
            out@ == s@.subrange(0, i as int),
        decreases n - i,
    {
        out.push(s.get_char(i));
        i = i + 1;
        assert(out@ =~= s@.subrange(0, i as int));
    }
    assert(s@.subrange(0, n as int) =~= s@);
    out
}

impl Text {
    pub fn new(text: &str, r: i16, c: i16, id: &str) -> (t: Text)
        ensures
            t.text@ == text@,
            t.r == r,
            t.c == c,
            t.id@ == id@,
    {
        Text { text: chars_of(text), r, c, id: String::from_str(id) }
    }

    /// The same text, as an element of a tree.
    pub fn inbox(text: &str, r: i16, c: i16, id: &str) -> (e: Element)
        ensures
            e is Text,
            e->Text_0.text@ == text@,
            e->Text_0.r == r,
            e->Text_0.c == c,
            e->Text_0.id@ == id@,
    {
        Element::Text(Self::new(text, r, c, id))
    }
}

impl Button {
    pub fn new(command: String, key: u64, text: &str, border: Border, padding: u16, id: String, r: i16, c: i16) -> (b: Button)
        ensures
            b.command == command,
            b.key == key,
            b.text@ == text@,
            b.border == border,
            b.padding == padding,
            b.id == id,
            b.r == r,
            b.c == c,
    {
        Button { command, key, text: chars_of(text), border, padding, id, r, c }
    }

    /// The same button, as an element of a tree.
    pub fn inbox(command: String, key: u64, text: &str, border: Border, padding: u16, id: String, r: i16, c: i16) -> (e: Element)
        ensures
            e is Button,
            e->Button_0.command == command,
            e->Button_0.key == key,
            e->Button_0.text@ == text@,
            e->Button_0.border == border,
            e->Button_0.padding == padding,
            e->Button_0.id == id,
            e->Button_0.r == r,
            e->Button_0.c == c,
    {
        Element::Button(Self::new(command, key, text, border, padding, id, r, c))
    }
}

impl Block {
    pub fn new(width: u16, height: u16, border: Border, padding: u16, name: &str, id: &str, r: i16, c: i16) -> (b: Block)
        ensures
            b.width == width,
            b.height == height,
            b.border == border,
            b.padding == padding,
            b.name@ == name@,
            b.id@ == id@,
            b.r == r,
            b.c == c,
            b.elements@.len() == 0,
    {
        Block {
            width,
            height,
            border,
            padding,
            name: chars_of(name),
            id: String::from_str(id),
            elements: Vec::new(),
            r,
            c,
        }
    }

    /// The same block, as an element of a tree.
    pub fn inbox(width: u16, height: u16, border: Border, padding: u16, name: &str, id: &str, r: i16, c: i16) -> (e: Element)
        ensures
            e is Block,
            e->Block_0.width == width,
            e->Block_0.height == height,
            e->Block_0.border == border,
            e->Block_0.padding == padding,
            e->Block_0.name@ == name@,
            e->Block_0.id@ == id@,
            e->Block_0.r == r,
            e->Block_0.c == c,
            e->Block_0.elements@.len() == 0,
    {
        Element::Block(Self::new(width, height, border, padding, name, id, r, c))
    }
}

/// The identifier of an element.
pub open spec fn id_of(e: Element) -> Seq<char> {
    match e {
        Element::Text(t) => t.id@,
        Element::Button(b) => b.id@,
        Element::Block(b) => b.id@,
    }
}

/// `i` is the first position of `s` whose element has identifier `id`.
pub open spec fn first_with_id(s: Seq<Element>, id: Seq<char>, i: int) -> bool {
    &&& 0 <= i < s.len()
    &&& id_of(s[i]) == id
    &&& forall|j: int| 0 <= j < i ==> id_of(#[trigger] s[j]) != id
}

/// No element of `s` has identifier `id`.
pub open spec fn no_id(s: Seq<Element>, id: Seq<char>) -> bool {
    forall|j: int| 0 <= j < s.len() ==> id_of(#[trigger] s[j]) != id
}

impl Element {
    pub fn get_id(&self) -> (r: &String)
        ensures
            r@ == id_of(*self),
    {
        match self {
            Element::Text(t) => &t.id,
            Element::Button(b) => &b.id,
            Element::Block(b) => &b.id,
        }
    }

    /// The element's row offset, relative to its container.
    pub fn r(&self) -> (r: i16)
        ensures
            r == match *self {
                Element::Text(t) => t.r,
                Element::Button(b) => b.r,
                Element::Block(b) => b.r,
            },
    {
        match self {
            Element::Text(t) => t.r,
            Element::Button(b) => b.r,
            Element::Block(b) => b.r,
        }
    }

    /// The element's column offset, relative to its container.
    pub fn c(&self) -> (c: i16)
        ensures
            c == match *self {
                Element::Text(t) => t.c,
                Element::Button(b) => b.c,
                Element::Block(b) => b.c,
            },
    {
        match self {
            Element::Text(t) => t.c,
            Element::Button(b) => b.c,
            Element::Block(b) => b.c,
        }
    }
}

/// The position of the first element of `v` with identifier `id`, or the length of
/// `v` when there is none.
fn find_id(v: &Vec<Element>, id: &str) -> (i: usize)
    ensures
        i <= v@.len(),
        i < v@.len() ==> first_with_id(v@, id@, i as int),
        i == v@.len() ==> no_id(v@, id@),
{
    let key = String::from_str(id);
    let mut i: usize = 0;
    while i < v.len()
        invariant
            i <= v@.len(),
            key@ == id@,
            forall|j: int| 0 <= j < i ==> id_of(#[trigger] v@[j]) != id@,
        decreases v@.len() - i,
    {
        if v[i].get_id().eq(&key) {
            return i;
        }
        i = i + 1;
    }
    i
}

/// Ownership of an ordered sequence of child elements.
pub trait Container {
    spec fn children(&self) -> Seq<Element>;

    /// What the container keeps true of itself besides its children.
    spec fn inv(&self) -> bool;

    /// Everything but the children is the same in `self` and `other`.
    spec fn same_except_children(&self, other: &Self) -> bool;

    /// Appends `elem` at the end.
    fn push_element(&mut self, elem: Element)
        requires
            old(self).inv(),
        ensures
            final(self).inv(),
            final(self).same_except_children(old(self)),
            final(self).children() == old(self).children().push(elem),
    ;

    /// Removes and returns the last element; `None`, and no change, when there is none.
    fn pop_element(&mut self) -> (r: Option<Element>)
        requires
            old(self).inv(),
        ensures
            final(self).inv(),
            final(self).same_except_children(old(self)),
            old(self).children().len() == 0 ==> r is None && final(self).children() == old(self).children(),
            old(self).children().len() > 0 ==> r == Some(old(self).children().last())
                && final(self).children() == old(self).children().drop_last(),
    ;

    /// Removes and returns the element at `index`; `None`, and no change, past the end.
    fn remove_element(&mut self, index: usize) -> (r: Option<Element>)
        requires
            old(self).inv(),
        ensures
            final(self).inv(),
            final(self).same_except_children(old(self)),
            index >= old(self).children().len() ==> r is None && final(self).children() == old(self).children(),
            index < old(self).children().len() ==> r == Some(old(self).children()[index as int])
                && final(self).children() == old(self).children().remove(index as int),
    ;

    /// Removes and returns the first element whose identifier is `id`; `None`, and no
    /// change, when none has it.
    fn remove_element_by_id(&mut self, id: &str) -> (r: Option<Element>)
        requires
            old(self).inv(),
        ensures
            final(self).inv(),
            final(self).same_except_children(old(self)),
            no_id(old(self).children(), id@) <==> r is None,
            r is None ==> final(self).children() == old(self).children(),
            r is Some ==> exists|i: int|
                first_with_id(old(self).children(), id@, i) && r == Some(old(self).children()[i])
                    && final(self).children() == old(self).children().remove(i),
    ;

    /// Inserts `elem` at `index`, shifting what follows.
    fn insert_element(&mut self, elem: Element, index: usize)
        requires
            old(self).inv(),
            index <= old(self).children().len(),
        ensures
            final(self).inv(),
            final(self).same_except_children(old(self)),
            final(self).children() == old(self).children().insert(index as int, elem),
    ;

    /// The first element whose identifier is `id`, to change in place; `None`, and no
    /// change, when none has it.
    fn get_element_by_id(&mut self, id: &str) -> (r: Option<&mut Element>)
        requires
            old(self).inv(),
        ensures
            final(self).inv(),
            final(self).same_except_children(old(self)),
            no_id(old(self).children(), id@) <==> r is None,
            r is None ==> final(self).children() == old(self).children(),
            r is Some ==> exists|i: int|
                first_with_id(old(self).children(), id@, i) && *(r->Some_0) == old(self).children()[i]
                    && final(self).children() == old(self).children().update(i, *final(r->Some_0)),
    ;
}

/// The children after `push_element` of each of `xs`, in order, starting from `s`.
pub open spec fn push_all(s: Seq<Element>, xs: Seq<Element>) -> Seq<Element>
    decreases xs.len(),
{
    if xs.len() == 0 {
        s
    } else {
        push_all(s, xs.drop_last()).push(xs.last())
    }
}

/// The children after `k` calls of `pop_element` on a sequence `t` of at least `k`.
pub open spec fn pop_n(t: Seq<Element>, k: nat) -> Seq<Element>
    decreases k,
{
    if k == 0 {
        t
    } else {
        pop_n(t, (k - 1) as nat).drop_last()
    }
}

proof fn lemma_push_all(s: Seq<Element>, xs: Seq<Element>)
    ensures
        push_all(s, xs) == s + xs,
    decreases xs.len(),
{
    if xs.len() > 0 {
        lemma_push_all(s, xs.drop_last());
        assert((s + xs.drop_last()).push(xs.last()) =~= s + xs);
    } else {
        assert(s + xs =~= s);
    }
}

proof fn lemma_pop_n(t: Seq<Element>, k: nat)
    requires
        k <= t.len(),
    ensures
        pop_n(t, k) == t.subrange(0, t.len() - k),
    decreases k,
{
    if k == 0 {
        assert(t.subrange(0, t.len() as int) =~= t);
    } else {
        lemma_pop_n(t, (k - 1) as nat);
        assert(t.subrange(0, t.len() - (k - 1)).drop_last() =~= t.subrange(0, t.len() - k));
    }
}

/// After `push_element` of `x_1, ..., x_N` onto children `s`, `N` calls of
/// `pop_element` return `x_N` first and `x_1` last, each finding a child to return,
/// and leave the children `s` again.
pub proof fn lemma_pop_reverses_push(s: Seq<Element>, xs: Seq<Element>)
    ensures
        forall|k: nat| k < xs.len() ==> (#[trigger] pop_n(push_all(s, xs), k)).len() > 0
            && pop_n(push_all(s, xs), k).last() == xs[xs.len() - 1 - k],
        pop_n(push_all(s, xs), xs.len()) == s,
{
    lemma_push_all(s, xs);
    let t = s + xs;
    assert forall|k: nat| k < xs.len() implies (#[trigger] pop_n(push_all(s, xs), k)).len() > 0
        && pop_n(push_all(s, xs), k).last() == xs[xs.len() - 1 - k] by {
        lemma_pop_n(t, k);
        assert(t[t.len() - k - 1] == xs[xs.len() - 1 - k]);
    }
    lemma_pop_n(t, xs.len());
    assert(t.subrange(0, t.len() - xs.len()) =~= s);
}

/// Pops `n` children, one `pop_element` at a time, and returns them in the order
/// they came out: the last child first.
pub fn pop_elements<C: Container>(c: &mut C, n: usize) -> (out: Vec<Element>)
    requires
        old(c).inv(),
        n <= old(c).children().len(),
    ensures
        final(c).inv(),
        final(c).children() == old(c).children().subrange(0, old(c).children().len() - n),
        out@.len() == n,
        forall|k: int| 0 <= k < n ==> #[trigger] out@[k] == old(c).children()[old(c).children().len() - 1 - k],
{
    let ghost s0 = c.children();
    let mut out: Vec<Element> = Vec::new();
    let mut i: usize = 0;
    while i < n
        invariant
            i <= n,
            n <= s0.len(),
            c.inv(),
            c.children() == s0.subrange(0, s0.len() - i),
            s0 == old(c).children(),
            out@.len() == i,
            forall|k: int| 0 <= k < i ==> #[trigger] out@[k] == s0[s0.len() - 1 - k],
        decreases n - i,
    {
        let e = c.pop_element();
        match e {
            Some(x) => {
                out.push(x);
            },
            None => {
            },
        }
        assert(s0.subrange(0, s0.len() - i).drop_last() =~= s0.subrange(0, s0.len() - (i + 1)));
        i = i + 1;
    }
    out
}

/// Stack order over any number of calls: when the children are `s` followed by
/// `push_element` of `x_1, ..., x_N`, popping `N` of them returns `x_N` first and
/// `x_1` last, and leaves the children `s`.
pub proof fn lemma_pop_elements_reverses_pushes(s: Seq<Element>, xs: Seq<Element>, popped: Seq<Element>, rest: Seq<Element>)
    requires
        rest == push_all(s, xs).subrange(0, push_all(s, xs).len() - xs.len()),
        popped.len() == xs.len(),
        forall|k: int| 0 <= k < xs.len() ==> #[trigger] popped[k] == push_all(s, xs)[push_all(s, xs).len() - 1 - k],
    ensures
        rest == s,
        forall|k: int| 0 <= k < xs.len() ==> #[trigger] popped[k] == xs[xs.len() - 1 - k],
{
    lemma_push_all(s, xs);
    assert((s + xs).subrange(0, s.len() as int) =~= s);
    assert forall|k: int| 0 <= k < xs.len() implies #[trigger] popped[k] == xs[xs.len() - 1 - k] by {
        assert((s + xs)[(s + xs).len() - 1 - k] == xs[xs.len() - 1 - k]);
    }
}

pub(crate) fn vec_pop(v: &mut Vec<Element>) -> (r: Option<Element>)
    ensures
        old(v)@.len() == 0 ==> r is None && final(v)@ == old(v)@,
        old(v)@.len() > 0 ==> r == Some(old(v)@.last()) && final(v)@ == old(v)@.drop_last(),
{
    v.pop()
}

pub(crate) fn vec_remove(v: &mut Vec<Element>, index: usize) -> (r: Option<Element>)
    ensures
        index >= old(v)@.len() ==> r is None && final(v)@ == old(v)@,
        index < old(v)@.len() ==> r == Some(old(v)@[index as int]) && final(v)@ == old(v)@.remove(index as int),
{
    if index < v.len() {
        Some(v.remove(index))
    } else {
        None
    }
}

pub(crate) fn vec_remove_by_id(v: &mut Vec<Element>, id: &str) -> (r: Option<Element>)
    ensures
        no_id(old(v)@, id@) <==> r is None,
        r is None ==> final(v)@ == old(v)@,
        r is Some ==> exists|i: int|
            first_with_id(old(v)@, id@, i) && r == Some(old(v)@[i]) && final(v)@ == old(v)@.remove(i),
{
    let i = find_id(v, id);
    if i == v.len() {
        None
    } else {
        let ghost before = v@;
        let e = v.remove(i);
        assert(first_with_id(before, id@, i as int));
        Some(e)
    }
}

pub(crate) fn vec_get_by_id<'a>(v: &'a mut Vec<Element>, id: &str) -> (r: Option<&'a mut Element>)
    ensures
        no_id(old(v)@, id@) <==> r is None,
        r is None ==> final(v)@ == old(v)@,
        r is Some ==> exists|i: int|
            first_with_id(old(v)@, id@, i) && *(r->Some_0) == old(v)@[i]
                && final(v)@ == old(v)@.update(i, *final(r->Some_0)),
{
    let i = find_id(v, id);
    if i == v.len() {
        None
    } else {
        assert(first_with_id(v@, id@, i as int));
        Some(&mut v[i])
    }
}

impl Container for Block {
    open spec fn children(&self) -> Seq<Element> {
        self.elements@
    }

    open spec fn inv(&self) -> bool {
        true
    }

    open spec fn same_except_children(&self, other: &Self) -> bool {
        &&& self.width == other.width
        &&& self.height == other.height
        &&& self.border == other.border
        &&& self.padding == other.padding
        &&& self.name@ == other.name@
        &&& self.id@ == other.id@
        &&& self.r == other.r
        &&& self.c == other.c
    }

    fn push_element(&mut self, elem: Element) {
        self.elements.push(elem);
    }

    fn pop_element(&mut self) -> (r: Option<Element>) {
        vec_pop(&mut self.elements)
    }

    fn remove_element(&mut self, index: usize) -> (r: Option<Element>) {
        vec_remove(&mut self.elements, index)
    }

    fn remove_element_by_id(&mut self, id: &str) -> (r: Option<Element>) {
        vec_remove_by_id(&mut self.elements, id)
    }

    fn insert_element(&mut self, elem: Element, index: usize) {
        self.elements.insert(index, elem);
    }

    fn get_element_by_id(&mut self, id: &str) -> (r: Option<&mut Element>) {
        vec_get_by_id(&mut self.elements, id)
    }
}

/// Callback keys of the buttons of `e` whose trigger command equals `line`, in pre-order.
pub open spec fn fired(e: Element, line: Seq<char>) -> Seq<u64>
    decreases e, 1int, 0int,
{
    match e {
        Element::Text(_) => Seq::empty(),
        Element::Button(b) => if b.command@ == line { seq![b.key] } else { Seq::empty() },
        Element::Block(b) => fired_kids(e, b.elements@.len() as int, line),
    }
}

/// What the first `n` children of block `e` fire on `line`, in order.
pub open spec fn fired_kids(e: Element, n: int, line: Seq<char>) -> Seq<u64>
    decreases e, 0int, n,
{
    if n <= 0 {
        Seq::empty()
    } else {
        match e {
            Element::Block(b) => {
                if n > b.elements@.len() {
                    Seq::empty()
                } else {
                    fired_kids(e, n - 1, line) + fired(b.elements@[n - 1], line)
                }
            },
            _ => Seq::empty(),
        }
    }
}

/// What the elements of `es` fire on `line`, in order.
pub open spec fn fired_all(es: Seq<Element>, line: Seq<char>) -> Seq<u64>
    decreases es.len(),
{
    if es.len() == 0 {
        Seq::empty()
    } else {
        fired_all(es.drop_last(), line) + fired(es.last(), line)
    }
}

impl Element {
    /// Hands `line` to the element: a button whose trigger command equals it adds its
    /// callback key to `out`; a block hands it to each child in order.
    pub fn command_controller(&self, line: &String, out: &mut Vec<u64>)
        ensures
            final(out)@ == old(out)@ + fired(*self, line@),
        decreases *self, 1int, 0int,
    {
        match self {
            Element::Text(_) => {
                assert(out@ =~= out@ + Seq::<u64>::empty());
            },
            Element::Button(b) => {
                if b.command.eq(line) {
                    out.push(b.key);
                } else {
                    assert(out@ =~= out@ + Seq::<u64>::empty());
                }
            },
            Element::Block(b) => {
                let ghost base = out@;
                assert(base =~= base + fired_kids(*self, 0, line@));
                let mut i: usize = 0;
                while i < b.elements.len()
                    invariant
                        i <= b.elements@.len(),
                        *self == Element::Block(*b),
                        out@ == base + fired_kids(*self, i as int, line@),
                        base == old(out)@,
                    decreases b.elements@.len() - i,
                {
                    proof {
                        assert(decreases_to!(*self => *b));
                        assert(decreases_to!(*b => b.elements));
                        assert(decreases_to!(b.elements => b.elements[i as int]));
                    }
                    b.elements[i].command_controller(line, out);
                    assert(base + fired_kids(*self, i + 1, line@) =~= base + fired_kids(*self, i as int, line@) + fired(b.elements@[i as int], line@));
                    i = i + 1;
                }
            },
        }
    }
}
} // verus!
