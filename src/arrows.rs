//! Orthogonal routing of dependency arrows between bars.

use crate::bars::BarTask;
use crate::config::LayoutConfig;
use vstd::prelude::*;

verus! {

/// Largest coordinate a bar may have for its arrows to be routed.
pub const COORD_LIMIT: i64 = 0x1000_0000_0000_0000;

/// A point of the drawing, in pixels.
#[derive(Clone, Copy, PartialEq, Eq, Debug, Structural)]
pub struct Point {
    pub x: i64,
    pub y: i64,
}

/// One command of an SVG-style path.
#[derive(Clone, Copy, PartialEq, Eq, Debug, Structural)]
pub enum PathCommand {
    /// Move to an absolute point.
    MoveTo(i64, i64),
    /// Horizontal line by a relative distance.
    HorizontalBy(i64),
    /// Vertical line by a relative distance.
    VerticalBy(i64),
    /// Horizontal line to an absolute x.
    HorizontalTo(i64),
    /// Vertical line to an absolute y.
    VerticalTo(i64),
}

/// A triangular arrowhead.
#[derive(Clone, Copy, PartialEq, Eq, Debug, Structural)]
pub struct ArrowHead {
    pub tip: Point,
    pub upper: Point,
    pub lower: Point,
}

/// A routed dependency: from the bar in row `from` to the bar in row `to`.
#[derive(Clone, Debug)]
pub struct Arrow {
    pub from: usize,
    pub to: usize,
    pub path: Vec<PathCommand>,
    pub head: ArrowHead,
}

/// Vertical middle of a bar.
pub open spec fn mid_y(b: BarTask) -> int {
    b.y + b.height / 2
}

/// The successor starts before the predecessor's lead-out ends.
pub open spec fn overlaps(p: BarTask, s: BarTask, indent: int) -> bool {
    s.x_1 < p.x_2 + indent
}

/// Half a row, upwards when the successor's row is above the predecessor's.
pub open spec fn jog(p: BarTask, s: BarTask, c: LayoutConfig) -> int {
    if p.index > s.index {
        -((c.row_height / 2) as int)
    } else {
        (c.row_height / 2) as int
    }
}

/// The path from predecessor `p` to successor `s`.
pub open spec fn path_spec(p: BarTask, s: BarTask, c: LayoutConfig) -> Seq<PathCommand> {
    let indent = c.arrow_indent as int;
    let lead = seq![
        PathCommand::MoveTo(p.x_2, mid_y(p) as i64),
        PathCommand::HorizontalBy(indent as i64),
        PathCommand::VerticalBy(jog(p, s, c) as i64),
    ];
    if overlaps(p, s, indent) {
        lead + seq![
            PathCommand::HorizontalTo((s.x_1 - indent) as i64),
            PathCommand::VerticalTo(mid_y(s) as i64),
            PathCommand::HorizontalBy(indent as i64),
        ]
    } else {
        lead + seq![
            PathCommand::VerticalTo(mid_y(s) as i64),
            PathCommand::HorizontalBy((s.x_1 - p.x_2 - indent) as i64),
        ]
    }
}

/// The arrowhead at the start of successor `s`.
pub open spec fn head_spec(s: BarTask) -> ArrowHead {
    let y = mid_y(s);
    ArrowHead {
        tip: Point { x: s.x_1, y: y as i64 },
        upper: Point { x: (s.x_1 - 5) as i64, y: (y - 5) as i64 },
        lower: Point { x: (s.x_1 - 5) as i64, y: (y + 5) as i64 },
    }
}

/// A bar whose coordinates are small enough to route arrows from and to.
pub open spec fn bar_bounded(b: BarTask) -> bool {
    &&& 0 <= b.x_1 <= COORD_LIMIT
    &&& 0 <= b.x_2 <= COORD_LIMIT
    &&& 0 <= b.y <= COORD_LIMIT
    &&& 0 <= b.height <= COORD_LIMIT
}

/// Bars whose arrows can be routed: bounded, with dependents among them.
pub open spec fn bars_routable(bs: Seq<BarTask>) -> bool {
    forall|i: int|
        0 <= i < bs.len() ==> bar_bounded(#[trigger] bs[i]) && forall|m: int|
            0 <= m < bs[i].bar_children@.len() ==> (#[trigger] bs[i].bar_children@[m]) < bs.len()
}

/// Edges out of bar `p` to its first `m` dependents.
pub open spec fn child_edges(bs: Seq<BarTask>, p: int, m: int) -> Seq<(int, int)>
    decreases m,
{
    if m <= 0 {
        Seq::empty()
    } else {
        child_edges(bs, p, m - 1).push((p, bs[p].bar_children@[m - 1] as int))
    }
}

proof fn lemma_child_edges_len(bs: Seq<BarTask>, p: int, m: int)
    requires
        0 <= m,
    ensures
        child_edges(bs, p, m).len() == m,
    decreases m,
{
    if m > 0 {
        lemma_child_edges_len(bs, p, m - 1);
    }
}

/// Edges out of the first `n` bars, bar by bar, each bar's in the order of
/// its dependents.
pub open spec fn edges_upto(bs: Seq<BarTask>, n: int) -> Seq<(int, int)>
    decreases n,
{
    if n <= 0 {
        Seq::empty()
    } else {
        edges_upto(bs, n - 1) + child_edges(bs, n - 1, bs[n - 1].bar_children@.len() as int)
    }
}

proof fn lemma_child_edge_at(bs: Seq<BarTask>, p: int, l: int, m: int)
    requires
        0 <= m < l,
    ensures
        child_edges(bs, p, l)[m] == (p, bs[p].bar_children@[m] as int),
    decreases l,
{
    lemma_child_edges_len(bs, p, l - 1);
    if m < l - 1 {
        lemma_child_edge_at(bs, p, l - 1, m);
    }
}

/// Every dependency edge is listed: for bar `p` and its `m`-th dependent,
/// the edges of the first `n` bars (`p < n`) hold the pair.
pub proof fn lemma_edge_listed(bs: Seq<BarTask>, n: int, p: int, m: int)
    requires
        0 <= p < n <= bs.len(),
        0 <= m < bs[p].bar_children@.len(),
    ensures
        exists|i: int|
            0 <= i < edges_upto(bs, n).len() && edges_upto(bs, n)[i] == (
                p,
                bs[p].bar_children@[m] as int,
            ),
    decreases n,
{
    let prev = edges_upto(bs, n - 1);
    let l = bs[n - 1].bar_children@.len() as int;
    let tail = child_edges(bs, n - 1, l);
    assert(edges_upto(bs, n) == prev + tail);
    if p == n - 1 {
        lemma_child_edge_at(bs, p, l, m);
        lemma_child_edges_len(bs, p, l);
        assert((prev + tail)[prev.len() + m] == tail[m]);
    } else {
        lemma_edge_listed(bs, n - 1, p, m);
        let i = choose|i: int|
            0 <= i < prev.len() && prev[i] == (p, bs[p].bar_children@[m] as int);
        assert((prev + tail)[i] == prev[i]);
    }
}

/// Arrow `a` is the routed edge `e`.
pub open spec fn arrow_matches(bs: Seq<BarTask>, c: LayoutConfig, e: (int, int), a: Arrow) -> bool {
    &&& a.from == e.0
    &&& a.to == e.1
    &&& a.path@ == path_spec(bs[e.0], bs[e.1], c)
    &&& a.head == head_spec(bs[e.1])
}

/// Route the arrow from predecessor `p` (row `from`) to successor `s` (row
/// `to`).
pub fn route_arrow(p: &BarTask, s: &BarTask, from: usize, to: usize, config: &LayoutConfig) -> (r:
    Arrow)
    requires
        bar_bounded(*p),
        bar_bounded(*s),
    ensures
        r.from == from,
        r.to == to,
        r.path@ == path_spec(*p, *s, *config),
        r.head == head_spec(*s),
{
    let indent = config.arrow_indent as i64;
    let half = (config.row_height / 2) as i64;
    let jog = if p.index > s.index {
        -half
    } else {
        half
    };
    let from_y = p.y + p.height / 2;
    let to_y = s.y + s.height / 2;
    let mut path: Vec<PathCommand> = Vec::new();
    path.push(PathCommand::MoveTo(p.x_2, from_y));
    path.push(PathCommand::HorizontalBy(indent));
    path.push(PathCommand::VerticalBy(jog));
    if s.x_1 < p.x_2 + indent {
        path.push(PathCommand::HorizontalTo(s.x_1 - indent));
        path.push(PathCommand::VerticalTo(to_y));
        path.push(PathCommand::HorizontalBy(indent));
    } else {
        path.push(PathCommand::VerticalTo(to_y));
        path.push(PathCommand::HorizontalBy(s.x_1 - p.x_2 - indent));
    }
    assert(path@ =~= path_spec(*p, *s, *config));
    let head = ArrowHead {
        tip: Point { x: s.x_1, y: to_y },
        upper: Point { x: s.x_1 - 5, y: to_y - 5 },
        lower: Point { x: s.x_1 - 5, y: to_y + 5 },
    };
    Arrow { from, to, path, head }
}

/// One arrow per dependency edge: bar by bar, each bar's in the order of its
/// dependents. Each edge is visited once, so cycles among dependencies are
/// routed like any other edges.
pub fn build_arrows(bars: &Vec<BarTask>, config: &LayoutConfig) -> (r: Vec<Arrow>)
    requires
        bars_routable(bars@),
    ensures
        r@.len() == edges_upto(bars@, bars@.len() as int).len(),
        forall|i: int|
            0 <= i < r@.len() ==> arrow_matches(
                bars@,
                *config,
                edges_upto(bars@, bars@.len() as int)[i],
                #[trigger] r@[i],
            ),
{
    let mut out: Vec<Arrow> = Vec::new();
    let mut k: usize = 0;
    while k < bars.len()
        invariant
            k <= bars@.len(),
            bars_routable(bars@),
            out@.len() == edges_upto(bars@, k as int).len(),
            forall|i: int|
                0 <= i < out@.len() ==> arrow_matches(
                    bars@,
                    *config,
                    edges_upto(bars@, k as int)[i],
                    #[trigger] out@[i],
                ),
        decreases bars@.len() - k,
    {
        let p = &bars[k];
        let ghost base = edges_upto(bars@, k as int);
        let mut m: usize = 0;
        assert(bar_bounded(bars@[k as int]));
        while m < p.bar_children.len()
            invariant
                k < bars@.len(),
                *p == bars@[k as int],
                m <= p.bar_children@.len(),
                bars_routable(bars@),
                base == edges_upto(bars@, k as int),
                out@.len() == base.len() + m,
                forall|i: int|
                    0 <= i < out@.len() ==> arrow_matches(
                        bars@,
                        *config,
                        (base + child_edges(bars@, k as int, m as int))[i],
                        #[trigger] out@[i],
                    ),
            decreases p.bar_children@.len() - m,
        {
            let c = p.bar_children[m];
            assert(c < bars@.len());
            assert(bar_bounded(bars@[c as int]));
            let a = route_arrow(p, &bars[c], k, c, config);
            let ghost prev = base + child_edges(bars@, k as int, m as int);
            let ghost next = base + child_edges(bars@, k as int, m + 1);
            proof {
                lemma_child_edges_len(bars@, k as int, m as int);
            }
            assert(next =~= prev.push((k as int, c as int)));
            let ghost before = out@;
            out.push(a);
            assert forall|i: int| 0 <= i < out@.len() implies arrow_matches(
                bars@,
                *config,
                next[i],
                #[trigger] out@[i],
            ) by {
                if i < before.len() {
                    assert(out@[i] == before[i]);
                    assert(next[i] == prev[i]);
                } else {
                    assert(next[i] == (k as int, c as int));
                }
            }
            m = m + 1;
        }
        proof {
            lemma_child_edges_len(bars@, k as int, p.bar_children@.len() as int);
        }
        assert(edges_upto(bars@, k + 1) == base + child_edges(
            bars@,
            k as int,
            p.bar_children@.len() as int,
        ));
        k = k + 1;
    }
    out
}

} // verus!
