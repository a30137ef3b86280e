//! Landscape narrative engine.
//!
//! Three acts driven by `total_elapsed` vs `total_budget`:
//!  * **Voyage** (0..1×) — sun rising/setting, boat sailing past N-1 islands
//!    with waiting soldiers, towards a castle on the right edge.
//!  * **Cascade** (1×..2×) — castle destroyed, boat falls through an infinite
//!    waterfall on the right while the horizon scrolls upward.
//!  * **Abyss** (>2×) — Satan's throne reveals at the bottom, world ends.
//!
//! All decor is painted onto a char canvas so the big timer overlays cleanly.
//! Positions are computed exactly in integers: a fraction of a distance is
//! the floor of the exact product.
//!
//! No I/O, no terminal calls — just pure state + paint(canvas).

use vstd::prelude::*;
pub use crate::color::Color;
use crate::roster::texts;

verus! {

/// The three acts of the scene.
#[derive(Clone, Copy, Debug, PartialEq, Eq, Structural)]
pub enum Act {
    Voyage,
    Cascade,
    Abyss,
}

/// Where everything stands in the scene at one instant.
#[derive(Clone, Debug)]
pub struct WorldState {
    pub cols: usize,
    pub rows: usize,
    pub act: Act,
    pub sun_x: usize,
    pub boat_x: usize,
    pub boat_y: usize,
    /// 0..4
    pub boat_rotation: u8,
    /// ground line
    pub horizon_y: usize,
    /// x-positions of N-1 islands
    pub island_xs: Vec<usize>,
    /// 1-based
    pub current_soldier: u32,
    pub soldiers: u32,
    pub castle_x: usize,
    pub castle_w: usize,
    pub castle_destroyed: bool,
    pub satan_revealed: bool,
    /// fixed x on the right edge
    pub cascade_x: usize,
}

/// `a - b`, or 0 when `b > a`.
pub open spec fn sat(a: int, b: int) -> int {
    if a >= b { a - b } else { 0 }
}

/// The budget used for proportions: at least one second.
pub open spec fn budget_of(total_budget: u32) -> int {
    if total_budget == 0 { 1 } else { total_budget as int }
}

/// The act reached after `total_elapsed` seconds of a `total_budget` budget.
pub open spec fn act_of(total_elapsed: u32, total_budget: u32) -> Act {
    let b = budget_of(total_budget);
    if total_elapsed < b {
        Act::Voyage
    } else if total_elapsed < 2 * b {
        Act::Cascade
    } else {
        Act::Abyss
    }
}

/// Castle width: a tenth of the screen, between 5 and 15 columns.
pub open spec fn castle_width(cols: usize) -> int {
    let tenth = cols as int / 10;
    if tenth < 5 { 5 } else if tenth > 15 { 15 } else { tenth }
}

/// The lowest row the boat reaches while falling: two thirds down.
pub open spec fn max_fall(rows: usize) -> int {
    (2 * rows as int) / 3
}

/// x of the `i`-th of `n` islands, spread evenly over `span` columns.
pub open spec fn island_x(span: int, n: int, i: int) -> int {
    6 + span * (i + 1) / (n + 1)
}

/// What `WorldState::compute` yields, field by field.
pub open spec fn computed(
    w: WorldState,
    total_elapsed: u32,
    total_budget: u32,
    soldiers: u32,
    current_soldier: u32,
    cols: usize,
    rows: usize,
    elapsed_ms: u64,
) -> bool {
    let b = budget_of(total_budget);
    let e = total_elapsed as int;
    let act = act_of(total_elapsed, total_budget);
    let cw = castle_width(cols);
    let n = sat(soldiers as int, 1);
    let span = sat(cols as int, cw + 10);
    &&& w.cols == cols
    &&& w.rows == rows
    &&& w.act == act
    &&& w.sun_x == (if act == Act::Voyage && cols >= 4 { (cols - 4) - (cols - 4) * e / b } else { 0 })
    &&& w.castle_w == cw
    &&& w.castle_x == sat(cols as int, cw + 1)
    &&& w.castle_destroyed == (act != Act::Voyage)
    &&& w.boat_x == (if act == Act::Voyage {
        3 + sat(cols as int, cw + 6) * e / b
    } else {
        sat(cols as int, cw / 2 + 4)
    })
    &&& w.boat_y == (match act {
        Act::Voyage => sat(rows as int, 2),
        Act::Cascade => max_fall(rows) * (e - b) / b,
        Act::Abyss => max_fall(rows),
    })
    &&& w.boat_rotation == (match act {
        Act::Voyage => 0,
        Act::Cascade => (elapsed_ms / 250) % 4,
        Act::Abyss => (elapsed_ms / 200) % 4,
    })
    &&& w.horizon_y == (match act {
        Act::Voyage => sat(rows as int, 1),
        Act::Cascade => {
            let risen = sat(sat(rows as int, 1), e - b);
            if risen > rows as int / 4 { risen } else { rows as int / 4 }
        },
        Act::Abyss => rows as int / 4,
    })
    &&& w.island_xs@.len() == n
    &&& forall|i: int| 0 <= i < n ==> #[trigger] w.island_xs@[i] == island_x(span, n, i)
    &&& w.current_soldier == current_soldier
    &&& w.soldiers == soldiers
    &&& w.satan_revealed == (act == Act::Abyss)
    &&& w.cascade_x == sat(cols as int, 3)
}

/// `floor(a * num / den)` for `num <= den`, which is at most `a`.
fn scale(a: usize, num: u64, den: u64) -> (r: usize)
    requires
        den > 0,
        num <= den,
    ensures
        r == (a as int) * (num as int) / (den as int),
        r <= a,
{
    proof {
        let ai = a as int;
        let ni = num as int;
        assert(ai * ni <= 0xffff_ffff_ffff_ffff * 0xffff_ffff_ffff_ffff) by (nonlinear_arith)
            requires 0 <= ai <= 0xffff_ffff_ffff_ffff, 0 <= ni <= 0xffff_ffff_ffff_ffff;
    }
    let p = (a as u128) * (num as u128);
    let q = p / (den as u128);
    proof {
        let ai = a as int;
        let ni = num as int;
        let di = den as int;
        assert(ai * ni <= ai * di) by (nonlinear_arith)
            requires 0 <= ai, 0 <= ni <= di;
        assert(ai * ni / di <= ai) by (nonlinear_arith)
            requires 0 <= ai, 0 < di, ai * ni <= ai * di;
        assert(ai * ni / di >= 0) by (nonlinear_arith)
            requires 0 <= ai, 0 <= ni, 0 < di;
    }
    q as usize
}

impl WorldState {
    /// Where everything stands after `total_elapsed` seconds of a
    /// `total_budget` budget, on a `cols` × `rows` screen; `elapsed_ms`
    /// turns the falling boat.
    ///
    /// Positions are exact: a share of a distance is the floor of the exact
    /// product, so the sun starts at column `cols - 4` and reaches 0 when
    /// the budget is spent, and the horizon rises exactly one row per second
    /// of cascade. A computation in `f32` rounds some of these products
    /// below the next integer and lands one cell short (for instance the
    /// horizon after 10 s of cascade of a 60 s budget, or the boat at 7 s of
    /// a 12 s budget on 126 columns).
    pub fn compute(
        total_elapsed: u32,
        total_budget: u32,
        soldiers: u32,
        current_soldier: u32,
        cols: usize,
        rows: usize,
        elapsed_ms: u64,
    ) -> (w: Self)
        ensures
            computed(w, total_elapsed, total_budget, soldiers, current_soldier, cols, rows, elapsed_ms),
    {
        let budget: u64 = if total_budget == 0 { 1 } else { total_budget as u64 };
        let e = total_elapsed as u64;

        let act = if e < budget {
            Act::Voyage
        } else if e < 2 * budget {
            Act::Cascade
        } else {
            Act::Abyss
        };

        // Sun: rises east (right, column cols - 4) at t=0, sets west (left,
        // column 0) at t=budget.
        let sun_x = if act == Act::Voyage && cols >= 4 {
            (cols - 4) - scale(cols - 4, e, budget)
        } else {
            0
        };

        // Castle: 10% width, min 5 max 15 cols, on the right edge.
        let tenth = cols / 10;
        let castle_w: usize = if tenth < 5 { 5 } else if tenth > 15 { 15 } else { tenth };
        let castle_x = cols.saturating_sub(castle_w + 1);
        let castle_destroyed = act != Act::Voyage;

        // Boat: voyage = travels left→right; cascade = falls; abyss = stuck at 2/3 down.
        let fall: usize = ((2 * (rows as u128)) / 3) as usize;
        let boat_x: usize;
        let boat_y: usize;
        let mut boat_rotation: u8 = 0;
        match act {
            Act::Voyage => {
                let travel = cols.saturating_sub(castle_w + 6);
                boat_x = 3 + scale(travel, e, budget);
                boat_y = rows.saturating_sub(2);
            },
            Act::Cascade => {
                boat_x = cols.saturating_sub(castle_w / 2 + 4);
                boat_y = scale(fall, e - budget, budget);
                boat_rotation = ((elapsed_ms / 250) % 4) as u8;
            },
            Act::Abyss => {
                boat_x = cols.saturating_sub(castle_w / 2 + 4);
                boat_y = fall;
                boat_rotation = ((elapsed_ms / 200) % 4) as u8;
            },
        }

        // Horizon: ground line. Voyage = rows-1. Cascade = rises by 1/sec.
        let horizon_y = match act {
            Act::Voyage => rows.saturating_sub(1),
            Act::Cascade => {
                let secs_in_cascade = (e - budget) as usize;
                let risen = rows.saturating_sub(1).saturating_sub(secs_in_cascade);
                if risen > rows / 4 { risen } else { rows / 4 }
            },
            Act::Abyss => rows / 4,
        };

        // Islands: N-1 evenly spaced between boat-start and castle.
        let n_islands = soldiers.saturating_sub(1) as usize;
        let span = cols.saturating_sub(castle_w + 10);
        let mut island_xs: Vec<usize> = Vec::new();
        let mut i: usize = 0;
        while i < n_islands
            invariant
                i <= n_islands,
                n_islands == sat(soldiers as int, 1),
                span == sat(cols as int, castle_width(cols) + 10),
                castle_w == castle_width(cols),
                island_xs@.len() == i,
                forall|j: int| 0 <= j < i ==> #[trigger] island_xs@[j] == island_x(span as int, n_islands as int, j),
            decreases n_islands - i,
        {
            let offset = scale(span, (i + 1) as u64, (n_islands + 1) as u64);
            proof {
                assert(span + 6 <= usize::MAX) by {
                    if cols >= castle_w + 10 {
                        assert(span < cols);
                    }
                }
            }
            island_xs.push(6 + offset);
            i = i + 1;
        }

        let satan_revealed = act == Act::Abyss;
        let cascade_x = cols.saturating_sub(3);

        WorldState {
            cols,
            rows,
            act,
            sun_x,
            boat_x,
            boat_y,
            boat_rotation,
            horizon_y,
            island_xs,
            current_soldier,
            soldiers,
            castle_x,
            castle_w,
            castle_destroyed,
            satan_revealed,
            cascade_x,
        }
    }
}

/// One character put at one cell.
pub struct Stroke {
    pub x: int,
    pub y: int,
    pub ch: char,
    pub color: Option<Color>,
}

/// A canvas of characters and, cell by cell, their colours.
#[verifier::ext_equal]
pub struct Picture {
    pub chars: Seq<Seq<char>>,
    pub colors: Seq<Seq<Option<Color>>>,
}

/// The picture that a canvas and its colour map hold.
pub open spec fn picture_of(canvas: Seq<Vec<char>>, colors: Seq<Vec<Option<Color>>>) -> Picture {
    Picture {
        chars: canvas.map_values(|r: Vec<char>| r@),
        colors: colors.map_values(|r: Vec<Option<Color>>| r@),
    }
}

/// The colour map has a cell for every cell of the canvas.
pub open spec fn covers(canvas: Seq<Vec<char>>, colors: Seq<Vec<Option<Color>>>) -> bool {
    &&& colors.len() >= canvas.len()
    &&& forall|y: int| 0 <= y < canvas.len() ==> (#[trigger] colors[y])@.len() >= canvas[y]@.len()
}

/// Putting one stroke: the cell gets the character and the colour when it
/// lies on the canvas; a stroke off the canvas changes nothing.
pub open spec fn put(p: Picture, s: Stroke) -> Picture {
    if 0 <= s.y < p.chars.len() && 0 <= s.x < p.chars[s.y].len() {
        Picture {
            chars: p.chars.update(s.y, p.chars[s.y].update(s.x, s.ch)),
            colors: p.colors.update(s.y, p.colors[s.y].update(s.x, s.color)),
        }
    } else {
        p
    }
}

/// Putting strokes in order.
pub open spec fn apply(p: Picture, strokes: Seq<Stroke>) -> Picture
    decreases strokes.len(),
{
    if strokes.len() == 0 {
        p
    } else {
        put(apply(p, strokes.drop_last()), strokes.last())
    }
}

/// Painting one more stroke.
pub proof fn lemma_apply_push(p: Picture, a: Seq<Stroke>, s: Stroke)
    ensures
        apply(p, a.push(s)) == put(apply(p, a), s),
{
    assert(a.push(s).drop_last() =~= a);
}

/// Writes `ch` in colour `color` at column `x` of row `y`, when that cell exists.
pub fn place(
    canvas: &mut [Vec<char>],
    colors: &mut [Vec<Option<Color>>],
    x: usize,
    y: usize,
    ch: char,
    color: Option<Color>,
)
    requires
        covers(old(canvas)@, old(colors)@),
    ensures
        covers(final(canvas)@, final(colors)@),
        picture_of(final(canvas)@, final(colors)@)
            == put(picture_of(old(canvas)@, old(colors)@), Stroke { x: x as int, y: y as int, ch, color }),
{
    if y >= canvas.len() {
        return;
    }
    if x >= canvas[y].len() {
        return;
    }
    canvas[y][x] = ch;
    colors[y][x] = color;
    proof {
        let p0 = picture_of(old(canvas)@, old(colors)@);
        let p1 = picture_of(canvas@, colors@);
        let q = put(p0, Stroke { x: x as int, y: y as int, ch, color });
        assert(p1.chars =~= q.chars);
        assert(p1.colors =~= q.colors);
    }
}

/// A stroke.
pub open spec fn st(x: int, y: int, ch: char, color: Option<Color>) -> Stroke {
    Stroke { x, y, ch, color }
}

/// The sun, high in the sky, during the voyage.
pub open spec fn sun_strokes(w: WorldState) -> Seq<Stroke> {
    if w.act == Act::Voyage && w.sun_x < w.cols {
        let sun = seq![st(w.sun_x as int, 2, '☼', Some(Color::Yellow))];
        if w.sun_x + 1 < w.cols {
            sun.push(st(w.sun_x + 1, 2, ' ', None))
        } else {
            sun
        }
    } else {
        Seq::empty()
    }
}

/// The sea level, drawn across the screen.
pub open spec fn horizon_strokes(w: WorldState) -> Seq<Stroke> {
    if w.horizon_y < w.rows {
        Seq::new(w.cols as nat, |x: int| st(x, w.horizon_y as int, '~', Some(Color::Blue)))
    } else {
        Seq::empty()
    }
}

/// Island `idx`: a palm, three cells of sand and, when that soldier has not
/// spoken yet and is not on the boat, the waiting soldier.
pub open spec fn island_group(w: WorldState, idx: int) -> Seq<Stroke> {
    let ix = w.island_xs@[idx] as int;
    let h = w.horizon_y as int;
    let soldier_idx = #[verifier::truncate] ((idx + 2) as u32);
    let palm = if h >= 2 { seq![st(ix, h - 2, 'Y', Some(Color::DarkGreen))] } else { Seq::empty() };
    let sand = if h >= 1 {
        Seq::new(3, |dx: int| st(sat(ix, 1) + dx, h - 1, '~', Some(Color::DarkYellow)))
    } else {
        Seq::empty()
    };
    let waiting = if !(soldier_idx < w.current_soldier) && soldier_idx != w.current_soldier && h >= 3 {
        seq![st(ix, h - 3, 'o', Some(Color::White))]
    } else {
        Seq::empty()
    };
    palm + sand + waiting
}

/// The first `n` islands.
pub open spec fn island_rows(w: WorldState, n: nat) -> Seq<Stroke>
    decreases n,
{
    if n == 0 { Seq::empty() } else { island_rows(w, (n - 1) as nat) + island_group(w, n - 1) }
}

/// The islands, during the voyage only.
pub open spec fn island_strokes(w: WorldState) -> Seq<Stroke> {
    if w.act == Act::Voyage { island_rows(w, w.island_xs@.len()) } else { Seq::empty() }
}

/// One course of castle wall, `up` rows above the sea.
pub open spec fn wall_course(w: WorldState, up: int, crenelated: bool) -> Seq<Stroke> {
    Seq::new(
        w.castle_w as nat,
        |i: int|
            st(
                w.castle_x + i,
                w.horizon_y - up,
                if crenelated && i % 2 != 0 { ' ' } else { '█' },
                Some(Color::Grey),
            ),
    )
}

/// The castle: intact during the voyage (crenelations, three courses of wall
/// and a gate), a pile of rubble afterwards.
pub open spec fn castle_strokes(w: WorldState) -> Seq<Stroke> {
    if !w.castle_destroyed && w.horizon_y >= 4 {
        wall_course(w, 4, true) + wall_course(w, 1, false) + wall_course(w, 2, false) + wall_course(w, 3, false)
            + seq![st(w.castle_x + w.castle_w / 2, w.horizon_y - 1, '║', Some(Color::Yellow))]
    } else if w.castle_destroyed && w.horizon_y >= 1 {
        Seq::new(
            w.castle_w as nat,
            |i: int| st(w.castle_x + i, w.horizon_y - 1, '▒', Some(Color::DarkGrey)),
        )
    } else {
        Seq::empty()
    }
}

/// Row `y` of the waterfall.
pub open spec fn cascade_row(w: WorldState, y: int) -> Seq<Stroke> {
    let fall = seq![st(w.cascade_x as int, y, '║', Some(Color::Cyan))];
    if w.cascade_x >= 1 { fall.push(st(w.cascade_x - 1, y, '~', Some(Color::Cyan))) } else { fall }
}

/// The first `n` rows of the waterfall.
pub open spec fn cascade_rows(w: WorldState, n: nat) -> Seq<Stroke>
    decreases n,
{
    if n == 0 { Seq::empty() } else { cascade_rows(w, (n - 1) as nat) + cascade_row(w, n - 1) }
}

/// The waterfall on the right edge, once the voyage is over.
pub open spec fn cascade_strokes(w: WorldState) -> Seq<Stroke> {
    if w.act != Act::Voyage { cascade_rows(w, w.rows as nat) } else { Seq::empty() }
}

/// The first `n` flames of the fire line at `(sx, sy)`.
pub open spec fn fire_rows(sx: int, sy: int, n: nat) -> Seq<Stroke>
    decreases n,
{
    if n == 0 {
        Seq::empty()
    } else {
        let dx = n - 1;
        fire_rows(sx, sy, (n - 1) as nat)
            + seq![st(sx + dx, sy, '\\', Some(Color::Red)), st(sx + dx + 1, sy, '/', Some(Color::Red))]
    }
}

/// Satan on his throne, at the bottom, in the abyss.
pub open spec fn satan_strokes(w: WorldState) -> Seq<Stroke> {
    if w.satan_revealed && w.rows >= 5 {
        let sx = w.cols as int / 3;
        let sy = w.rows - 4;
        fire_rows(sx, sy, 7) + seq![
            st(sx + 2, sy + 1, '(', Some(Color::Red)),
            st(sx + 3, sy + 1, 'o', Some(Color::Yellow)),
            st(sx + 4, sy + 1, '_', Some(Color::Red)),
            st(sx + 5, sy + 1, 'o', Some(Color::Yellow)),
            st(sx + 6, sy + 1, ')', Some(Color::Red)),
            st(sx + 1, sy + 2, '~', Some(Color::DarkRed)),
            st(sx + 2, sy + 2, '|', Some(Color::DarkRed)),
            st(sx + 3, sy + 2, 'Y', Some(Color::Yellow)),
            st(sx + 4, sy + 2, '|', Some(Color::DarkRed)),
            st(sx + 5, sy + 2, '~', Some(Color::DarkRed)),
        ] + Seq::new(9, |dx: int| st(sx + dx, sy + 3, '█', Some(Color::DarkRed)))
    } else {
        Seq::empty()
    }
}

/// Character `dx` of line `dy` of the boat drawn at rotation `rot`
/// (four frames, each two lines of five characters).
pub open spec fn boat_char(rot: int, dy: int, dx: int) -> char {
    let line: Seq<char> = if rot == 0 {
        if dy == 0 { seq!['\\', '_', '/', '_', '/'] } else { seq!['~', '~', '~', '~', '~'] }
    } else if rot == 1 {
        if dy == 0 { seq!['\\', '_', '/', '_', '_'] } else { seq!['~', '~', '~', '~', '/'] }
    } else if rot == 2 {
        if dy == 0 { seq!['_', '_', '/', '_', '/'] } else { seq!['/', '~', '~', '~', '~'] }
    } else {
        if dy == 0 { seq!['_', '/', '_', '/', '_'] } else { seq!['_', '~', '~', '~', '~'] }
    };
    line[dx]
}

/// Line `dy` of the boat.
pub open spec fn boat_line(w: WorldState, dy: int) -> Seq<Stroke> {
    Seq::new(
        5,
        |dx: int|
            st(
                w.boat_x + dx,
                w.boat_y + dy,
                boat_char(w.boat_rotation as int % 4, dy, dx),
                Some(Color::DarkYellow),
            ),
    )
}

/// The boat, and on deck during the voyage the soldier speaking.
pub open spec fn boat_strokes(w: WorldState) -> Seq<Stroke> {
    let hull = boat_line(w, 0) + boat_line(w, 1);
    if w.act == Act::Voyage && w.boat_y >= 1 {
        hull.push(st(w.boat_x + 2, w.boat_y - 1, 'o', Some(Color::White)))
    } else {
        hull
    }
}

/// The whole scene, back to front: sun, sea, islands, castle, waterfall,
/// Satan, and the boat on top.
pub open spec fn scene_strokes(w: WorldState) -> Seq<Stroke> {
    sun_strokes(w) + horizon_strokes(w) + island_strokes(w) + castle_strokes(w) + cascade_strokes(w)
        + satan_strokes(w) + boat_strokes(w)
}

/// The scene's positions leave room for every stroke without overflow.
pub open spec fn paintable(w: WorldState) -> bool {
    &&& w.island_xs@.len() + 2 <= usize::MAX
    &&& forall|i: int| 0 <= i < w.island_xs@.len() ==> #[trigger] w.island_xs@[i] < usize::MAX
    &&& w.castle_x + w.castle_w <= usize::MAX
    &&& w.boat_x + 4 <= usize::MAX
    &&& w.boat_y + 1 <= usize::MAX
}

/// Puts one stroke and records it.
fn stroke(
    canvas: &mut [Vec<char>],
    colors: &mut [Vec<Option<Color>>],
    x: usize,
    y: usize,
    ch: char,
    color: Option<Color>,
    Ghost(p0): Ghost<Picture>,
    Ghost(done): Ghost<Seq<Stroke>>,
) -> (r: Ghost<Seq<Stroke>>)
    requires
        covers(old(canvas)@, old(colors)@),
        picture_of(old(canvas)@, old(colors)@) == apply(p0, done),
    ensures
        covers(final(canvas)@, final(colors)@),
        r@ == done.push(st(x as int, y as int, ch, color)),
        picture_of(final(canvas)@, final(colors)@) == apply(p0, r@),
{
    place(canvas, colors, x, y, ch, color);
    proof {
        lemma_apply_push(p0, done, st(x as int, y as int, ch, color));
    }
    Ghost(done.push(st(x as int, y as int, ch, color)))
}

fn paint_sun(
    w: &WorldState,
    canvas: &mut [Vec<char>],
    colors: &mut [Vec<Option<Color>>],
    Ghost(p0): Ghost<Picture>,
    Ghost(done): Ghost<Seq<Stroke>>,
) -> (r: Ghost<Seq<Stroke>>)
    requires
        covers(old(canvas)@, old(colors)@),
        picture_of(old(canvas)@, old(colors)@) == apply(p0, done),
        paintable(*w),
    ensures
        covers(final(canvas)@, final(colors)@),
        r@ == done + sun_strokes(*w),
        picture_of(final(canvas)@, final(colors)@) == apply(p0, r@),
{
    let mut g = Ghost(done);
    if w.act == Act::Voyage && w.sun_x < w.cols {
        let y: usize = 2;
        g = stroke(canvas, colors, w.sun_x, y, '☼', Some(Color::Yellow), Ghost(p0), g);
        if w.sun_x + 1 < w.cols {
            g = stroke(canvas, colors, w.sun_x + 1, y, ' ', None, Ghost(p0), g);
        }
    }
    assert(g@ =~= done + sun_strokes(*w));
    g
}

fn paint_horizon(
    w: &WorldState,
    canvas: &mut [Vec<char>],
    colors: &mut [Vec<Option<Color>>],
    Ghost(p0): Ghost<Picture>,
    Ghost(done): Ghost<Seq<Stroke>>,
) -> (r: Ghost<Seq<Stroke>>)
    requires
        covers(old(canvas)@, old(colors)@),
        picture_of(old(canvas)@, old(colors)@) == apply(p0, done),
        paintable(*w),
    ensures
        covers(final(canvas)@, final(colors)@),
        r@ == done + horizon_strokes(*w),
        picture_of(final(canvas)@, final(colors)@) == apply(p0, r@),
{
    let mut g = Ghost(done);
    if w.horizon_y < w.rows {
        let mut x: usize = 0;
        while x < w.cols
            invariant
                x <= w.cols,
                w.horizon_y < w.rows,
                covers(canvas@, colors@),
                g@ =~= done + Seq::new(x as nat, |i: int| st(i, w.horizon_y as int, '~', Some(Color::Blue))),
                picture_of(canvas@, colors@) == apply(p0, g@),
            decreases w.cols - x,
        {
            g = stroke(canvas, colors, x, w.horizon_y, '~', Some(Color::Blue), Ghost(p0), g);
            x = x + 1;
        }
    }
    assert(g@ =~= done + horizon_strokes(*w));
    g
}

fn paint_islands(
    w: &WorldState,
    canvas: &mut [Vec<char>],
    colors: &mut [Vec<Option<Color>>],
    Ghost(p0): Ghost<Picture>,
    Ghost(done): Ghost<Seq<Stroke>>,
) -> (r: Ghost<Seq<Stroke>>)
    requires
        covers(old(canvas)@, old(colors)@),
        picture_of(old(canvas)@, old(colors)@) == apply(p0, done),
        paintable(*w),
    ensures
        covers(final(canvas)@, final(colors)@),
        r@ == done + island_strokes(*w),
        picture_of(final(canvas)@, final(colors)@) == apply(p0, r@),
{
    let mut g = Ghost(done);
    if w.act == Act::Voyage {
        let n = w.island_xs.len();
        let mut idx: usize = 0;
        while idx < n
            invariant
                idx <= n,
                n == w.island_xs@.len(),
                paintable(*w),
                covers(canvas@, colors@),
                g@ =~= done + island_rows(*w, idx as nat),
                picture_of(canvas@, colors@) == apply(p0, g@),
            decreases n - idx,
        {
            let ghost before = g@;
            let ix = w.island_xs[idx];
            let h = w.horizon_y;
            let soldier_idx = #[verifier::truncate] ((idx + 2) as u32);
            let already_spoke = soldier_idx < w.current_soldier;
            let on_boat_now = soldier_idx == w.current_soldier;
            // palm
            if h >= 2 {
                g = stroke(canvas, colors, ix, h - 2, 'Y', Some(Color::DarkGreen), Ghost(p0), g);
            }
            let ghost after_palm = g@;
            // sand
            if h >= 1 {
                let y = h - 1;
                let mut dx: usize = 0;
                while dx < 3
                    invariant
                        dx <= 3,
                        h >= 1,
                        y == h - 1,
                        ix < usize::MAX,
                        covers(canvas@, colors@),
                        g@ =~= after_palm + Seq::new(dx as nat, |k: int| st(sat(ix as int, 1) + k, h - 1, '~', Some(Color::DarkYellow))),
                        picture_of(canvas@, colors@) == apply(p0, g@),
                    decreases 3 - dx,
                {
                    g = stroke(canvas, colors, ix.saturating_sub(1) + dx, y, '~', Some(Color::DarkYellow), Ghost(p0), g);
                    dx = dx + 1;
                }
            }
            // waiting soldier
            if !already_spoke && !on_boat_now && h >= 3 {
                g = stroke(canvas, colors, ix, h - 3, 'o', Some(Color::White), Ghost(p0), g);
            }
            assert(g@ =~= before + island_group(*w, idx as int));
            assert(island_rows(*w, (idx + 1) as nat) == island_rows(*w, idx as nat) + island_group(*w, idx as int));
            idx = idx + 1;
        }
    }
    assert(g@ =~= done + island_strokes(*w));
    g
}

fn paint_course(
    w: &WorldState,
    canvas: &mut [Vec<char>],
    colors: &mut [Vec<Option<Color>>],
    up: usize,
    crenelated: bool,
    Ghost(p0): Ghost<Picture>,
    Ghost(done): Ghost<Seq<Stroke>>,
) -> (r: Ghost<Seq<Stroke>>)
    requires
        covers(old(canvas)@, old(colors)@),
        picture_of(old(canvas)@, old(colors)@) == apply(p0, done),
        paintable(*w),
        up <= w.horizon_y,
    ensures
        covers(final(canvas)@, final(colors)@),
        r@ == done + wall_course(*w, up as int, crenelated),
        picture_of(final(canvas)@, final(colors)@) == apply(p0, r@),
{
    let mut g = Ghost(done);
    let y = w.horizon_y - up;
    let mut i: usize = 0;
    while i < w.castle_w
        invariant
            i <= w.castle_w,
            up <= w.horizon_y,
            y == w.horizon_y - up,
            paintable(*w),
            covers(canvas@, colors@),
            g@ =~= done + wall_course(*w, up as int, crenelated).take(i as int),
            picture_of(canvas@, colors@) == apply(p0, g@),
        decreases w.castle_w - i,
    {
        let ch = if crenelated && i % 2 != 0 { ' ' } else { '█' };
        g = stroke(canvas, colors, w.castle_x + i, y, ch, Some(Color::Grey), Ghost(p0), g);
        assert(wall_course(*w, up as int, crenelated).take(i as int + 1) =~= wall_course(*w, up as int, crenelated).take(i as int).push(st((w.castle_x + i) as int, y as int, ch, Some(Color::Grey))));
        i = i + 1;
    }
    assert(wall_course(*w, up as int, crenelated).take(w.castle_w as int) =~= wall_course(*w, up as int, crenelated));
    g
}

fn paint_castle(
    w: &WorldState,
    canvas: &mut [Vec<char>],
    colors: &mut [Vec<Option<Color>>],
    Ghost(p0): Ghost<Picture>,
    Ghost(done): Ghost<Seq<Stroke>>,
) -> (r: Ghost<Seq<Stroke>>)
    requires
        covers(old(canvas)@, old(colors)@),
        picture_of(old(canvas)@, old(colors)@) == apply(p0, done),
        paintable(*w),
    ensures
        covers(final(canvas)@, final(colors)@),
        r@ == done + castle_strokes(*w),
        picture_of(final(canvas)@, final(colors)@) == apply(p0, r@),
{
    let mut g = Ghost(done);
    if !w.castle_destroyed && w.horizon_y >= 4 {
        let ghost d0 = g@;
        // crenelations
        g = paint_course(w, canvas, colors, 4, true, Ghost(p0), g);
        // walls
        g = paint_course(w, canvas, colors, 1, false, Ghost(p0), g);
        g = paint_course(w, canvas, colors, 2, false, Ghost(p0), g);
        g = paint_course(w, canvas, colors, 3, false, Ghost(p0), g);
        // gate
        let gate_x = w.castle_x + w.castle_w / 2;
        g = stroke(canvas, colors, gate_x, w.horizon_y - 1, '║', Some(Color::Yellow), Ghost(p0), g);
        assert(g@ =~= done + castle_strokes(*w));
    } else if w.castle_destroyed && w.horizon_y >= 1 {
        let y = w.horizon_y - 1;
        let mut i: usize = 0;
        while i < w.castle_w
            invariant
                i <= w.castle_w,
                w.castle_destroyed,
                w.horizon_y >= 1,
                y == w.horizon_y - 1,
                paintable(*w),
                covers(canvas@, colors@),
                g@ =~= done + Seq::new(i as nat, |k: int| st(w.castle_x + k, w.horizon_y - 1, '▒', Some(Color::DarkGrey))),
                picture_of(canvas@, colors@) == apply(p0, g@),
            decreases w.castle_w - i,
        {
            g = stroke(canvas, colors, w.castle_x + i, y, '▒', Some(Color::DarkGrey), Ghost(p0), g);
            i = i + 1;
        }
        assert(g@ =~= done + castle_strokes(*w));
    } else {
        assert(g@ =~= done + castle_strokes(*w));
    }
    g
}

fn paint_cascade(
    w: &WorldState,
    canvas: &mut [Vec<char>],
    colors: &mut [Vec<Option<Color>>],
    Ghost(p0): Ghost<Picture>,
    Ghost(done): Ghost<Seq<Stroke>>,
) -> (r: Ghost<Seq<Stroke>>)
    requires
        covers(old(canvas)@, old(colors)@),
        picture_of(old(canvas)@, old(colors)@) == apply(p0, done),
        paintable(*w),
    ensures
        covers(final(canvas)@, final(colors)@),
        r@ == done + cascade_strokes(*w),
        picture_of(final(canvas)@, final(colors)@) == apply(p0, r@),
{
    let mut g = Ghost(done);
    if w.act != Act::Voyage {
        let mut y: usize = 0;
        while y < w.rows
            invariant
                y <= w.rows,
                w.act != Act::Voyage,
                covers(canvas@, colors@),
                g@ =~= done + cascade_rows(*w, y as nat),
                picture_of(canvas@, colors@) == apply(p0, g@),
            decreases w.rows - y,
        {
            let ghost before = g@;
            g = stroke(canvas, colors, w.cascade_x, y, '║', Some(Color::Cyan), Ghost(p0), g);
            if w.cascade_x >= 1 {
                g = stroke(canvas, colors, w.cascade_x - 1, y, '~', Some(Color::Cyan), Ghost(p0), g);
            }
            assert(g@ =~= before + cascade_row(*w, y as int));
            assert(cascade_rows(*w, (y + 1) as nat) == cascade_rows(*w, y as nat) + cascade_row(*w, y as int));
            y = y + 1;
        }
    }
    assert(g@ =~= done + cascade_strokes(*w));
    g
}

fn paint_satan(
    w: &WorldState,
    canvas: &mut [Vec<char>],
    colors: &mut [Vec<Option<Color>>],
    Ghost(p0): Ghost<Picture>,
    Ghost(done): Ghost<Seq<Stroke>>,
) -> (r: Ghost<Seq<Stroke>>)
    requires
        covers(old(canvas)@, old(colors)@),
        picture_of(old(canvas)@, old(colors)@) == apply(p0, done),
        paintable(*w),
    ensures
        covers(final(canvas)@, final(colors)@),
        r@ == done + satan_strokes(*w),
        picture_of(final(canvas)@, final(colors)@) == apply(p0, r@),
{
    let mut g = Ghost(done);
    if w.satan_revealed && w.rows >= 5 {
        let sx = w.cols / 3;
        let sy = w.rows - 4;
        // fire
        let mut dx: usize = 0;
        while dx < 7
            invariant
                dx <= 7,
                sx == w.cols / 3,
                covers(canvas@, colors@),
                g@ =~= done + fire_rows(sx as int, sy as int, dx as nat),
                picture_of(canvas@, colors@) == apply(p0, g@),
            decreases 7 - dx,
        {
            let ghost before = g@;
            g = stroke(canvas, colors, sx + dx, sy, '\\', Some(Color::Red), Ghost(p0), g);
            g = stroke(canvas, colors, sx + dx + 1, sy, '/', Some(Color::Red), Ghost(p0), g);
            assert(fire_rows(sx as int, sy as int, (dx + 1) as nat) =~= fire_rows(sx as int, sy as int, dx as nat)
                + seq![st((sx + dx) as int, sy as int, '\\', Some(Color::Red)), st((sx + dx + 1) as int, sy as int, '/', Some(Color::Red))]);
            dx = dx + 1;
        }
        let ghost after_fire = g@;
        g = stroke(canvas, colors, sx + 2, sy + 1, '(', Some(Color::Red), Ghost(p0), g);
        g = stroke(canvas, colors, sx + 3, sy + 1, 'o', Some(Color::Yellow), Ghost(p0), g);
        g = stroke(canvas, colors, sx + 4, sy + 1, '_', Some(Color::Red), Ghost(p0), g);
        g = stroke(canvas, colors, sx + 5, sy + 1, 'o', Some(Color::Yellow), Ghost(p0), g);
        g = stroke(canvas, colors, sx + 6, sy + 1, ')', Some(Color::Red), Ghost(p0), g);
        g = stroke(canvas, colors, sx + 1, sy + 2, '~', Some(Color::DarkRed), Ghost(p0), g);
        g = stroke(canvas, colors, sx + 2, sy + 2, '|', Some(Color::DarkRed), Ghost(p0), g);
        g = stroke(canvas, colors, sx + 3, sy + 2, 'Y', Some(Color::Yellow), Ghost(p0), g);
        g = stroke(canvas, colors, sx + 4, sy + 2, '|', Some(Color::DarkRed), Ghost(p0), g);
        g = stroke(canvas, colors, sx + 5, sy + 2, '~', Some(Color::DarkRed), Ghost(p0), g);
        let ghost after_face = g@;
        // throne base
        let mut dx: usize = 0;
        while dx < 9
            invariant
                dx <= 9,
                sx == w.cols / 3,
                sy + 4 == w.rows,
                covers(canvas@, colors@),
                g@ =~= after_face + Seq::new(dx as nat, |k: int| st(sx + k, sy + 3, '█', Some(Color::DarkRed))),
                picture_of(canvas@, colors@) == apply(p0, g@),
            decreases 9 - dx,
        {
            g = stroke(canvas, colors, sx + dx, sy + 3, '█', Some(Color::DarkRed), Ghost(p0), g);
            dx = dx + 1;
        }
        assert(g@ =~= done + satan_strokes(*w));
    } else {
        assert(g@ =~= done + satan_strokes(*w));
    }
    g
}

fn boat_frame_char(rot: u8, dy: usize, dx: usize) -> (c: char)
    requires
        rot < 4,
        dy < 2,
        dx < 5,
    ensures
        c == boat_char(rot as int, dy as int, dx as int),
        c != ' ',
{
    let line: [char; 5] = if rot == 0 {
        if dy == 0 { ['\\', '_', '/', '_', '/'] } else { ['~', '~', '~', '~', '~'] }
    } else if rot == 1 {
        if dy == 0 { ['\\', '_', '/', '_', '_'] } else { ['~', '~', '~', '~', '/'] }
    } else if rot == 2 {
        if dy == 0 { ['_', '_', '/', '_', '/'] } else { ['/', '~', '~', '~', '~'] }
    } else {
        if dy == 0 { ['_', '/', '_', '/', '_'] } else { ['_', '~', '~', '~', '~'] }
    };
    line[dx]
}

fn paint_boat(
    w: &WorldState,
    canvas: &mut [Vec<char>],
    colors: &mut [Vec<Option<Color>>],
    Ghost(p0): Ghost<Picture>,
    Ghost(done): Ghost<Seq<Stroke>>,
) -> (r: Ghost<Seq<Stroke>>)
    requires
        covers(old(canvas)@, old(colors)@),
        picture_of(old(canvas)@, old(colors)@) == apply(p0, done),
        paintable(*w),
    ensures
        covers(final(canvas)@, final(colors)@),
        r@ == done + boat_strokes(*w),
        picture_of(final(canvas)@, final(colors)@) == apply(p0, r@),
{
    let mut g = Ghost(done);
    // Four frames of the boat, each 2 rows tall and 5 columns wide.
    let rot = w.boat_rotation % 4;
    let mut dy: usize = 0;
    while dy < 2
        invariant
            dy <= 2,
            rot == w.boat_rotation % 4,
            paintable(*w),
            covers(canvas@, colors@),
            dy == 0 ==> g@ =~= done,
            dy == 1 ==> g@ =~= done + boat_line(*w, 0),
            dy == 2 ==> g@ =~= done + boat_line(*w, 0) + boat_line(*w, 1),
            picture_of(canvas@, colors@) == apply(p0, g@),
        decreases 2 - dy,
    {
        let ghost row_start = g@;
        let y = w.boat_y + dy;
        let mut dx: usize = 0;
        while dx < 5
            invariant
                dx <= 5,
                dy < 2,
                y == w.boat_y + dy,
                rot == w.boat_rotation % 4,
                paintable(*w),
                covers(canvas@, colors@),
                g@ =~= row_start + boat_line(*w, dy as int).take(dx as int),
                picture_of(canvas@, colors@) == apply(p0, g@),
            decreases 5 - dx,
        {
            let ch = boat_frame_char(rot, dy, dx);
            let x = w.boat_x + dx;
            if ch != ' ' {
                g = stroke(canvas, colors, x, y, ch, Some(Color::DarkYellow), Ghost(p0), g);
            }
            assert(boat_line(*w, dy as int).take(dx as int + 1) =~= boat_line(*w, dy as int).take(dx as int).push(st(x as int, y as int, ch, Some(Color::DarkYellow))));
            dx = dx + 1;
        }
        assert(boat_line(*w, dy as int).take(5) =~= boat_line(*w, dy as int));
        dy = dy + 1;
    }
    // The soldier speaking stands on deck during the voyage.
    if w.act == Act::Voyage && w.boat_y >= 1 {
        g = stroke(canvas, colors, w.boat_x + 2, w.boat_y - 1, 'o', Some(Color::White), Ghost(p0), g);
    }
    assert(g@ =~= done + boat_strokes(*w));
    g
}

/// Paint the entire decor onto the (canvas, color map). Call BEFORE the timer.
/// Every stroke of the scene is put in order, back to front; strokes that
/// fall off the canvas are dropped.
pub fn paint(w: &WorldState, canvas: &mut [Vec<char>], colors: &mut [Vec<Option<Color>>])
    requires
        covers(old(canvas)@, old(colors)@),
        paintable(*w),
    ensures
        covers(final(canvas)@, final(colors)@),
        picture_of(final(canvas)@, final(colors)@) == apply(picture_of(old(canvas)@, old(colors)@), scene_strokes(*w)),
{
    let ghost p0 = picture_of(canvas@, colors@);
    let g = Ghost(Seq::<Stroke>::empty());
    assert(apply(p0, g@) == p0);
    let g = paint_sun(w, canvas, colors, Ghost(p0), g);
    let g = paint_horizon(w, canvas, colors, Ghost(p0), g);
    let g = paint_islands(w, canvas, colors, Ghost(p0), g);
    let g = paint_castle(w, canvas, colors, Ghost(p0), g);
    let g = paint_cascade(w, canvas, colors, Ghost(p0), g);
    let g = paint_satan(w, canvas, colors, Ghost(p0), g);
    let g = paint_boat(w, canvas, colors, Ghost(p0), g);
    assert(g@ =~= scene_strokes(*w));
}

/// Line `line` of a banner drawn from column `left` of row `y`.
pub open spec fn banner_line_strokes(line: Seq<char>, y: int, left: int, color: Color) -> Seq<Stroke> {
    Seq::new(line.len(), |i: int| st(left + i, y, line[i], Some(color)))
}

/// A banner of lines drawn from column `left`, its first line on row `top`.
pub open spec fn banner_strokes(lines: Seq<Seq<char>>, top: int, left: int, color: Color) -> Seq<Stroke>
    decreases lines.len(),
{
    if lines.len() == 0 {
        Seq::empty()
    } else {
        banner_strokes(lines.drop_last(), top, left, color)
            + banner_line_strokes(lines.last(), top + lines.len() - 1, left, color)
    }
}

/// The column from which a banner `width` wide stands centred on `total`
/// columns (0 when it does not fit).
pub fn centre_offset(total: usize, width: usize) -> (r: usize)
    ensures
        r == sat(total as int, width as int) / 2,
{
    if total >= width { (total - width) / 2 } else { 0 }
}

/// Writes the banner `lines` over the canvas (the big timer over the
/// scene), from column `left`, its first line on row `top`, in `color`.
pub fn overlay(
    canvas: &mut [Vec<char>],
    colors: &mut [Vec<Option<Color>>],
    lines: &Vec<String>,
    top: usize,
    left: usize,
    color: Color,
)
    requires
        covers(old(canvas)@, old(colors)@),
        top + lines@.len() <= usize::MAX,
        forall|r: int| 0 <= r < lines@.len() ==> left + (#[trigger] lines@[r])@.len() <= usize::MAX,
    ensures
        covers(final(canvas)@, final(colors)@),
        picture_of(final(canvas)@, final(colors)@)
            == apply(picture_of(old(canvas)@, old(colors)@), banner_strokes(texts(lines@), top as int, left as int, color)),
{
    let ghost p0 = picture_of(canvas@, colors@);
    let ghost ls = texts(lines@);
    let mut g = Ghost(Seq::<Stroke>::empty());
    let mut r: usize = 0;
    assert(ls.take(0) =~= Seq::<Seq<char>>::empty());
    while r < lines.len()
        invariant
            r <= lines@.len(),
            ls == texts(lines@),
            top + lines@.len() <= usize::MAX,
            forall|k: int| 0 <= k < lines@.len() ==> left + (#[trigger] lines@[k])@.len() <= usize::MAX,
            covers(canvas@, colors@),
            g@ == banner_strokes(ls.take(r as int), top as int, left as int, color),
            picture_of(canvas@, colors@) == apply(p0, g@),
        decreases lines@.len() - r,
    {
        let line = &lines[r];
        let n = line.unicode_len();
        let ghost g0 = g@;
        let mut i: usize = 0;
        while i < n
            invariant
                i <= n,
                n == line@.len(),
                left + n <= usize::MAX,
                r < lines@.len(),
                top + lines@.len() <= usize::MAX,
                covers(canvas@, colors@),
                g@ =~= g0 + Seq::new(i as nat, |k: int| st(left + k, (top + r) as int, line@[k], Some(color))),
                picture_of(canvas@, colors@) == apply(p0, g@),
            decreases n - i,
        {
            let ch = line.get_char(i);
            g = stroke(canvas, colors, left + i, top + r, ch, Some(color), Ghost(p0), g);
            i = i + 1;
        }
        proof {
            let next = ls.take(r as int + 1);
            assert(next.drop_last() =~= ls.take(r as int));
            assert(next.last() == line@);
            assert(g@ =~= banner_strokes(next, top as int, left as int, color));
        }
        r = r + 1;
    }
    assert(ls.take(lines@.len() as int) =~= ls);
}

/// No stroke of `s` is drawn in the grey of the castle walls.
pub open spec fn grey_free(s: Seq<Stroke>) -> bool {
    forall|k: int| 0 <= k < s.len() ==> (#[trigger] s[k]).color != Some(Color::Grey)
}

proof fn lemma_grey_free_concat(a: Seq<Stroke>, b: Seq<Stroke>)
    requires
        grey_free(a),
        grey_free(b),
    ensures
        grey_free(a + b),
{
    assert forall|k: int| 0 <= k < (a + b).len() implies (#[trigger] (a + b)[k]).color != Some(Color::Grey) by {
        if k < a.len() {
            assert((a + b)[k] == a[k]);
        } else {
            assert((a + b)[k] == b[k - a.len()]);
        }
    }
}

proof fn lemma_islands_grey_free(w: WorldState, n: nat)
    requires
        n <= w.island_xs@.len(),
    ensures
        grey_free(island_rows(w, n)),
    decreases n,
{
    if n > 0 {
        lemma_islands_grey_free(w, (n - 1) as nat);
        let g = island_group(w, n - 1);
        assert(grey_free(g)) by {
            let ix = w.island_xs@[n - 1] as int;
            let h = w.horizon_y as int;
            let palm = if h >= 2 { seq![st(ix, h - 2, 'Y', Some(Color::DarkGreen))] } else { Seq::<Stroke>::empty() };
            let sand = if h >= 1 {
                Seq::new(3, |dx: int| st(sat(ix, 1) + dx, h - 1, '~', Some(Color::DarkYellow)))
            } else {
                Seq::<Stroke>::empty()
            };
            let soldier_idx = #[verifier::truncate] ((n - 1 + 2) as u32);
            let waiting = if !(soldier_idx < w.current_soldier) && soldier_idx != w.current_soldier && h >= 3 {
                seq![st(ix, h - 3, 'o', Some(Color::White))]
            } else {
                Seq::<Stroke>::empty()
            };
            assert(g == palm + sand + waiting);
            lemma_grey_free_concat(palm, sand);
            lemma_grey_free_concat(palm + sand, waiting);
        }
        lemma_grey_free_concat(island_rows(w, (n - 1) as nat), g);
    }
}

proof fn lemma_cascade_grey_free(w: WorldState, n: nat)
    ensures
        grey_free(cascade_rows(w, n)),
    decreases n,
{
    if n > 0 {
        lemma_cascade_grey_free(w, (n - 1) as nat);
        lemma_grey_free_concat(cascade_rows(w, (n - 1) as nat), cascade_row(w, n - 1));
    }
}

proof fn lemma_fire_grey_free(sx: int, sy: int, n: nat)
    ensures
        grey_free(fire_rows(sx, sy, n)),
    decreases n,
{
    if n > 0 {
        lemma_fire_grey_free(sx, sy, (n - 1) as nat);
        let dx = n - 1;
        lemma_grey_free_concat(
            fire_rows(sx, sy, (n - 1) as nat),
            seq![st(sx + dx, sy, '\\', Some(Color::Red)), st(sx + dx + 1, sy, '/', Some(Color::Red))],
        );
    }
}

/// Some stroke of the scene is `s`.
pub open spec fn scene_draws(w: WorldState, s: Stroke) -> bool {
    exists|k: int| 0 <= k < scene_strokes(w).len() && scene_strokes(w)[k] == s
}

/// Column `i` of the castle's rubble, one row above the sea.
pub open spec fn rubble_cell(w: WorldState, i: int) -> Stroke {
    st(w.castle_x + i, w.horizon_y - 1, '▒', Some(Color::DarkGrey))
}

/// Column `i` of the castle's lowest course of wall, one row above the sea.
pub open spec fn wall_cell(w: WorldState, i: int) -> Stroke {
    st(w.castle_x + i, w.horizon_y - 1, '█', Some(Color::Grey))
}

/// The castle stands only while it is not destroyed: once destroyed, no
/// stroke of the scene draws its grey walls, and the cells it stood on,
/// one row above the sea, get its rubble `▒`; while it stands (with room
/// above the sea), its lowest course of wall `█` spans its whole width.
pub proof fn law_castle_follows_its_fall(w: WorldState)
    ensures
        w.castle_destroyed ==> grey_free(scene_strokes(w)),
        w.castle_destroyed && w.horizon_y >= 1
            ==> forall|i: int| 0 <= i < w.castle_w ==> scene_draws(w, #[trigger] rubble_cell(w, i)),
        !w.castle_destroyed && w.horizon_y >= 4
            ==> forall|i: int| 0 <= i < w.castle_w ==> scene_draws(w, #[trigger] wall_cell(w, i)),
{
    let sun = sun_strokes(w);
    let hor = horizon_strokes(w);
    let isl = island_strokes(w);
    let cas = castle_strokes(w);
    let casc = cascade_strokes(w);
    let sat_s = satan_strokes(w);
    let boat = boat_strokes(w);
    let pre = sun + hor + isl;
    let scene = scene_strokes(w);
    assert(scene == pre + cas + casc + sat_s + boat);
    let off = pre.len() as int;
    if w.castle_destroyed {
        assert(grey_free(sun));
        assert(grey_free(hor));
        assert(grey_free(isl)) by {
            if w.act == Act::Voyage {
                lemma_islands_grey_free(w, w.island_xs@.len());
            }
        }
        assert(grey_free(cas));
        assert(grey_free(casc)) by {
            if w.act != Act::Voyage {
                lemma_cascade_grey_free(w, w.rows as nat);
            }
        }
        assert(grey_free(sat_s)) by {
            if w.satan_revealed && w.rows >= 5 {
                let sx = w.cols as int / 3;
                let sy = w.rows - 4;
                lemma_fire_grey_free(sx, sy, 7);
                let face = seq![
                    st(sx + 2, sy + 1, '(', Some(Color::Red)),
                    st(sx + 3, sy + 1, 'o', Some(Color::Yellow)),
                    st(sx + 4, sy + 1, '_', Some(Color::Red)),
                    st(sx + 5, sy + 1, 'o', Some(Color::Yellow)),
                    st(sx + 6, sy + 1, ')', Some(Color::Red)),
                    st(sx + 1, sy + 2, '~', Some(Color::DarkRed)),
                    st(sx + 2, sy + 2, '|', Some(Color::DarkRed)),
                    st(sx + 3, sy + 2, 'Y', Some(Color::Yellow)),
                    st(sx + 4, sy + 2, '|', Some(Color::DarkRed)),
                    st(sx + 5, sy + 2, '~', Some(Color::DarkRed)),
                ];
                let floor = Seq::new(9, |dx: int| st(sx + dx, sy + 3, '█', Some(Color::DarkRed)));
                assert(sat_s == fire_rows(sx, sy, 7) + face + floor);
                lemma_grey_free_concat(fire_rows(sx, sy, 7), face);
                lemma_grey_free_concat(fire_rows(sx, sy, 7) + face, floor);
            }
        }
        assert(grey_free(boat)) by {
            let hull = boat_line(w, 0) + boat_line(w, 1);
            lemma_grey_free_concat(boat_line(w, 0), boat_line(w, 1));
            if w.act == Act::Voyage && w.boat_y >= 1 {
                lemma_grey_free_concat(hull, seq![st(w.boat_x + 2, w.boat_y - 1, 'o', Some(Color::White))]);
                assert(boat == hull + seq![st(w.boat_x + 2, w.boat_y - 1, 'o', Some(Color::White))]);
            }
        }
        lemma_grey_free_concat(sun, hor);
        lemma_grey_free_concat(sun + hor, isl);
        lemma_grey_free_concat(pre, cas);
        lemma_grey_free_concat(pre + cas, casc);
        lemma_grey_free_concat(pre + cas + casc, sat_s);
        lemma_grey_free_concat(pre + cas + casc + sat_s, boat);
    }
    if w.castle_destroyed && w.horizon_y >= 1 {
        assert forall|i: int| 0 <= i < w.castle_w implies scene_draws(w, #[trigger] rubble_cell(w, i)) by {
            assert(scene[off + i] == cas[i]);
        }
    }
    if !w.castle_destroyed && w.horizon_y >= 4 {
        assert forall|i: int| 0 <= i < w.castle_w implies scene_draws(w, #[trigger] wall_cell(w, i)) by {
            let j = w.castle_w + i;
            let c4 = wall_course(w, 4, true);
            let c1 = wall_course(w, 1, false);
            let c2 = wall_course(w, 2, false);
            let c3 = wall_course(w, 3, false);
            let gate = seq![st(w.castle_x + w.castle_w / 2, w.horizon_y - 1, '║', Some(Color::Yellow))];
            assert(cas == c4 + c1 + c2 + c3 + gate);
            assert((c4 + c1 + c2 + c3 + gate)[j] == (c4 + c1 + c2 + c3)[j]);
            assert((c4 + c1 + c2 + c3)[j] == (c4 + c1 + c2)[j]);
            assert((c4 + c1 + c2)[j] == (c4 + c1)[j]);
            assert((c4 + c1)[j] == c1[i]);
            assert(scene[off + j] == cas[j]);
        }
    }
}

/// What the scene shows besides the castle: during the voyage the sun `☼`
/// on row 2 at its column and the speaker standing on the boat's deck; the
/// sea `~` across the whole width on the horizon row; and from the cascade
/// on, the waterfall `║` down the right edge.
pub proof fn law_scene_elements(w: WorldState)
    ensures
        w.act == Act::Voyage && w.sun_x < w.cols ==> scene_draws(w, st(w.sun_x as int, 2, '☼', Some(Color::Yellow))),
        w.horizon_y < w.rows ==> forall|x: int| 0 <= x < w.cols ==> scene_draws(w, #[trigger] sea_cell(w, x)),
        w.act == Act::Voyage && w.boat_y >= 1
            ==> scene_draws(w, st(w.boat_x + 2, w.boat_y - 1, 'o', Some(Color::White))),
        w.act != Act::Voyage && w.rows >= 1 ==> scene_draws(w, st(w.cascade_x as int, 0, '║', Some(Color::Cyan))),
{
    let sun = sun_strokes(w);
    let hor = horizon_strokes(w);
    let isl = island_strokes(w);
    let cas = castle_strokes(w);
    let casc = cascade_strokes(w);
    let sat_s = satan_strokes(w);
    let boat = boat_strokes(w);
    let scene = scene_strokes(w);
    assert(scene == sun + hor + isl + cas + casc + sat_s + boat);
    if w.act == Act::Voyage && w.sun_x < w.cols {
        assert(scene[0] == sun[0]);
    }
    if w.horizon_y < w.rows {
        assert forall|x: int| 0 <= x < w.cols implies scene_draws(w, #[trigger] sea_cell(w, x)) by {
            assert(scene[sun.len() + x] == hor[x]);
        }
    }
    if w.act == Act::Voyage && w.boat_y >= 1 {
        let k = scene.len() - 1;
        assert(scene[k] == boat[boat.len() - 1]);
    }
    if w.act != Act::Voyage && w.rows >= 1 {
        let off = (sun + hor + isl + cas).len() as int;
        lemma_cascade_first(w, w.rows as nat);
        assert(scene[off] == casc[0]);
    }
}

/// Column `x` of the sea.
pub open spec fn sea_cell(w: WorldState, x: int) -> Stroke {
    st(x, w.horizon_y as int, '~', Some(Color::Blue))
}

proof fn lemma_cascade_first(w: WorldState, n: nat)
    requires
        n >= 1,
    ensures
        cascade_rows(w, n).len() >= 1,
        cascade_rows(w, n)[0] == st(w.cascade_x as int, 0, '║', Some(Color::Cyan)),
    decreases n,
{
    if n > 1 {
        lemma_cascade_first(w, (n - 1) as nat);
        assert(cascade_rows(w, n)[0] == cascade_rows(w, (n - 1) as nat)[0]);
    } else {
        assert(cascade_rows(w, 0) =~= Seq::<Stroke>::empty());
        assert(cascade_rows(w, 1) =~= cascade_row(w, 0));
    }
}

/// The order of the acts.
pub open spec fn act_rank(a: Act) -> int {
    match a {
        Act::Voyage => 0,
        Act::Cascade => 1,
        Act::Abyss => 2,
    }
}

/// The story only moves forward: more elapsed time never brings back an
/// earlier act.
pub proof fn law_acts_follow_in_order(e1: u32, e2: u32, total_budget: u32)
    requires
        e1 <= e2,
    ensures
        act_rank(act_of(e1, total_budget)) <= act_rank(act_of(e2, total_budget)),
{
}

/// The castle is between 5 and 15 columns wide, and stands on the screen
/// when the screen is wide enough for it.
pub proof fn law_castle_width_bounded(cols: usize)
    ensures
        5 <= castle_width(cols) <= 15,
        cols >= 16 ==> sat(cols as int, castle_width(cols) + 1) + castle_width(cols) < cols,
{
}

/// During the voyage the boat never moves backwards, and it stays left of
/// where its travel ends.
pub proof fn law_boat_sails_forward(cols: usize, e1: u32, e2: u32, total_budget: u32)
    requires
        e1 <= e2,
        act_of(e2, total_budget) == Act::Voyage,
    ensures
        sat(cols as int, castle_width(cols) + 6) * e1 / budget_of(total_budget)
            <= sat(cols as int, castle_width(cols) + 6) * e2 / budget_of(total_budget),
        sat(cols as int, castle_width(cols) + 6) * e2 / budget_of(total_budget)
            <= sat(cols as int, castle_width(cols) + 6),
{
    let t = sat(cols as int, castle_width(cols) + 6);
    let b = budget_of(total_budget);
    let a1 = e1 as int;
    let a2 = e2 as int;
    assert(t * a1 <= t * a2) by (nonlinear_arith)
        requires 0 <= t, 0 <= a1 <= a2;
    assert(t * a1 / b <= t * a2 / b) by (nonlinear_arith)
        requires 0 < b, t * a1 <= t * a2;
    assert(t * a2 <= t * b) by (nonlinear_arith)
        requires 0 <= t, 0 <= a2 < b;
    assert(t * a2 / b <= t) by (nonlinear_arith)
        requires 0 < b, 0 <= t, t * a2 <= t * b;
}

/// The islands stand left to right, in the order of the soldiers who wait
/// on them, and none lies beyond the span reserved for them.
pub proof fn law_islands_in_order(span: int, n: int, i: int, j: int)
    requires
        0 <= span,
        0 <= i <= j < n,
    ensures
        6 <= island_x(span, n, i) <= island_x(span, n, j) <= 6 + span,
{
    let a = i + 1;
    let c = j + 1;
    let d = n + 1;
    assert(span * a <= span * c) by (nonlinear_arith)
        requires 0 <= span, 0 < a <= c;
    assert(span * a / d <= span * c / d) by (nonlinear_arith)
        requires 0 < d, span * a <= span * c;
    assert(span * c <= span * d) by (nonlinear_arith)
        requires 0 <= span, 0 < c < d;
    assert(span * c / d <= span) by (nonlinear_arith)
        requires 0 < d, 0 <= span, span * c <= span * d;
    assert(0 <= span * a / d) by (nonlinear_arith)
        requires 0 < d, 0 <= span, 0 < a;
}

/// Whether some stroke falls on cell `(x, y)`.
pub open spec fn touches(strokes: Seq<Stroke>, x: int, y: int) -> bool {
    exists|k: int| 0 <= k < strokes.len() && (#[trigger] strokes[k]).x == x && strokes[k].y == y
}

/// Painting never changes the shape of the canvas, and a cell that no
/// stroke falls on keeps its character and its colour (this is what lets
/// the big timer overlay the scene).
pub proof fn law_paint_keeps_shape_and_untouched_cells(p: Picture, strokes: Seq<Stroke>, x: int, y: int)
    requires
        p.colors.len() >= p.chars.len(),
        forall|r: int| 0 <= r < p.chars.len() ==> (#[trigger] p.colors[r]).len() >= p.chars[r].len(),
    ensures
        apply(p, strokes).chars.len() == p.chars.len(),
        apply(p, strokes).colors.len() == p.colors.len(),
        forall|r: int| 0 <= r < p.chars.len() ==> (#[trigger] apply(p, strokes).chars[r]).len() == p.chars[r].len(),
        forall|r: int| 0 <= r < p.colors.len() ==> (#[trigger] apply(p, strokes).colors[r]).len() == p.colors[r].len(),
        0 <= y < p.chars.len() && 0 <= x < p.chars[y].len() && !touches(strokes, x, y) ==> {
            &&& apply(p, strokes).chars[y][x] == p.chars[y][x]
            &&& apply(p, strokes).colors[y][x] == p.colors[y][x]
        },
    decreases strokes.len(),
{
    if strokes.len() > 0 {
        let rest = strokes.drop_last();
        law_paint_keeps_shape_and_untouched_cells(p, rest, x, y);
        if touches(rest, x, y) {
            let k = choose|k: int| 0 <= k < rest.len() && (#[trigger] rest[k]).x == x && rest[k].y == y;
            assert(strokes[k] == rest[k]);
        }
        if !touches(strokes, x, y) {
            assert(!touches(rest, x, y)) by {
                if touches(rest, x, y) {
                    let k = choose|k: int| 0 <= k < rest.len() && (#[trigger] rest[k]).x == x && rest[k].y == y;
                    assert(strokes[k] == rest[k]);
                }
            }
            let s = strokes.last();
            assert(!(s.x == x && s.y == y)) by {
                if s.x == x && s.y == y {
                    assert(strokes[strokes.len() - 1] == s);
                }
            }
        }
    }
}


/// No stroke of `strokes` falls on cell `(x, y)`.
pub open spec fn misses(strokes: Seq<Stroke>, x: int, y: int) -> bool {
    forall|k: int| 0 <= k < strokes.len() ==> !((#[trigger] strokes[k]).x == x && strokes[k].y == y)
}

/// Painting `a` then `b` is painting `a + b`.
proof fn lemma_apply_concat(p: Picture, a: Seq<Stroke>, b: Seq<Stroke>)
    ensures
        apply(apply(p, a), b) == apply(p, a + b),
    decreases b.len(),
{
    if b.len() == 0 {
        assert(a + b =~= a);
    } else {
        lemma_apply_concat(p, a, b.drop_last());
        assert((a + b).drop_last() =~= a + b.drop_last());
    }
}

/// Painting keeps the rows of the canvas and their lengths, and a cell
/// that no stroke falls on keeps its character.
proof fn lemma_cell_kept(p: Picture, strokes: Seq<Stroke>, x: int, y: int)
    ensures
        apply(p, strokes).chars.len() == p.chars.len(),
        forall|r: int| 0 <= r < p.chars.len() ==> (#[trigger] apply(p, strokes).chars[r]).len() == p.chars[r].len(),
        misses(strokes, x, y) && 0 <= y < p.chars.len() && 0 <= x < p.chars[y].len()
            ==> apply(p, strokes).chars[y][x] == p.chars[y][x],
    decreases strokes.len(),
{
    if strokes.len() > 0 {
        let rest = strokes.drop_last();
        lemma_cell_kept(p, rest, x, y);
        if misses(strokes, x, y) {
            assert(misses(rest, x, y)) by {
                assert forall|k: int| 0 <= k < rest.len() implies !((#[trigger] rest[k]).x == x && rest[k].y == y) by {
                    assert(rest[k] == strokes[k]);
                }
            }
            assert(strokes[strokes.len() - 1] == strokes.last());
        }
    }
}

/// A cell that holds no `o` and gets no `o` from any stroke that falls on
/// it holds no `o` after painting.
proof fn lemma_no_o(p: Picture, strokes: Seq<Stroke>, x: int, y: int)
    requires
        forall|k: int| 0 <= k < strokes.len() && (#[trigger] strokes[k]).x == x && strokes[k].y == y
            ==> strokes[k].ch != 'o',
        0 <= y < p.chars.len(),
        0 <= x < p.chars[y].len(),
        p.chars[y][x] != 'o',
    ensures
        apply(p, strokes).chars[y][x] != 'o',
    decreases strokes.len(),
{
    if strokes.len() > 0 {
        let rest = strokes.drop_last();
        assert forall|k: int| 0 <= k < rest.len() && (#[trigger] rest[k]).x == x && rest[k].y == y
            implies rest[k].ch != 'o' by {
            assert(rest[k] == strokes[k]);
        }
        lemma_no_o(p, rest, x, y);
        lemma_cell_kept(p, rest, x, y);
        assert(strokes[strokes.len() - 1] == strokes.last());
    }
}

/// Two stroke lists that miss a cell miss it together.
proof fn lemma_misses_concat(a: Seq<Stroke>, b: Seq<Stroke>, x: int, y: int)
    requires
        misses(a, x, y),
        misses(b, x, y),
    ensures
        misses(a + b, x, y),
{
    assert forall|k: int| 0 <= k < (a + b).len() implies !((#[trigger] (a + b)[k]).x == x && (a + b)[k].y == y) by {
        if k < a.len() {
            assert((a + b)[k] == a[k]);
        } else {
            assert((a + b)[k] == b[k - a.len()]);
        }
    }
}

/// Whether island `k` shows its waiting soldier: soldier `k + 2` has not
/// spoken yet and is not the one speaking.
pub open spec fn island_waits(w: WorldState, k: int) -> bool {
    k + 2 > w.current_soldier
}

/// Before island `k` is painted its soldier's cell keeps what it held;
/// from then on it shows the waiting soldier exactly when that soldier
/// waits.
proof fn lemma_island_rows_cell(p: Picture, w: WorldState, m: nat, k: int)
    requires
        0 <= k < w.island_xs@.len(),
        m <= w.island_xs@.len(),
        k + 2 <= u32::MAX,
        w.horizon_y >= 3,
        forall|j: int| 0 <= j < w.island_xs@.len() && j != k ==> w.island_xs@[j] != w.island_xs@[k],
        0 <= w.horizon_y - 3 < p.chars.len(),
        w.island_xs@[k] < p.chars[w.horizon_y - 3].len(),
    ensures
        ({
            let (x, y) = (w.island_xs@[k] as int, w.horizon_y - 3);
            &&& apply(p, island_rows(w, m)).chars.len() == p.chars.len()
            &&& apply(p, island_rows(w, m)).chars[y].len() == p.chars[y].len()
            &&& m <= k ==> apply(p, island_rows(w, m)).chars[y][x] == p.chars[y][x]
            &&& m > k ==> apply(p, island_rows(w, m)).chars[y][x]
                == if island_waits(w, k) { 'o' } else { p.chars[y][x] }
        }),
    decreases m,
{
    let x = w.island_xs@[k] as int;
    let y = w.horizon_y - 3;
    if m > 0 {
        let j = m - 1;
        lemma_island_rows_cell(p, w, (m - 1) as nat, k);
        let q = apply(p, island_rows(w, (m - 1) as nat));
        let g = island_group(w, j);
        lemma_apply_concat(p, island_rows(w, (m - 1) as nat), g);
        let ix = w.island_xs@[j] as int;
        let h = w.horizon_y as int;
        let palm = if h >= 2 { seq![st(ix, h - 2, 'Y', Some(Color::DarkGreen))] } else { Seq::<Stroke>::empty() };
        let sand = if h >= 1 {
            Seq::new(3, |dx: int| st(sat(ix, 1) + dx, h - 1, '~', Some(Color::DarkYellow)))
        } else {
            Seq::<Stroke>::empty()
        };
        let soldier_idx = #[verifier::truncate] ((j + 2) as u32);
        let waiting = if !(soldier_idx < w.current_soldier) && soldier_idx != w.current_soldier && h >= 3 {
            seq![st(ix, h - 3, 'o', Some(Color::White))]
        } else {
            Seq::<Stroke>::empty()
        };
        assert(g == palm + sand + waiting);
        assert(misses(palm, x, y));
        assert(misses(sand, x, y));
        lemma_misses_concat(palm, sand, x, y);
        lemma_apply_concat(q, palm + sand, waiting);
        lemma_cell_kept(q, palm + sand, x, y);
        let q2 = apply(q, palm + sand);
        lemma_cell_kept(q2, waiting, x, y);
        if j != k {
            assert(w.island_xs@[j] != w.island_xs@[k]);
            assert(misses(waiting, x, y));
        } else {
            assert(soldier_idx == k + 2) by {
                assert(0 <= j + 2 <= u32::MAX);
            }
            if island_waits(w, k) {
                assert(waiting.len() == 1);
                assert(waiting.drop_last() =~= Seq::<Stroke>::empty());
                assert(apply(q2, waiting) == put(apply(q2, Seq::<Stroke>::empty()), waiting[0]));
            } else {
                assert(waiting =~= Seq::<Stroke>::empty());
            }
        }
    }
}

/// During the voyage, the cell above island `k` (three rows above the sea)
/// shows a waiting soldier, `o`, exactly when soldier `k + 2` waits there:
/// not yet spoken and not on the boat. This holds on a screen of at least
/// 25 columns and 4 rows whose islands stand apart, when the cell held no
/// `o` before painting.
pub proof fn law_islands_show_waiting_soldiers(
    p: Picture,
    w: WorldState,
    total_elapsed: u32,
    total_budget: u32,
    soldiers: u32,
    current_soldier: u32,
    cols: usize,
    rows: usize,
    elapsed_ms: u64,
    k: int,
)
    requires
        computed(w, total_elapsed, total_budget, soldiers, current_soldier, cols, rows, elapsed_ms),
        w.act == Act::Voyage,
        cols >= 25,
        rows >= 4,
        0 <= k < w.island_xs@.len(),
        k + 2 <= u32::MAX,
        forall|j: int| 0 <= j < w.island_xs@.len() && j != k ==> w.island_xs@[j] != w.island_xs@[k],
        rows - 4 < p.chars.len(),
        w.island_xs@[k] < p.chars[rows - 4].len(),
        p.chars[rows - 4][w.island_xs@[k] as int] != 'o',
    ensures
        (apply(p, scene_strokes(w)).chars[rows - 4][w.island_xs@[k] as int] == 'o') == (k + 2 > current_soldier),
{
    let x = w.island_xs@[k] as int;
    let y = rows - 4;
    let cw = castle_width(cols);
    let n = sat(soldiers as int, 1);
    let span = sat(cols as int, cw + 10);
    assert(w.horizon_y == rows - 1);
    law_islands_in_order(span, n, k, k);
    assert(x <= 6 + span);
    assert(cols >= cw + 10);
    assert(x < w.castle_x);
    let pre = sun_strokes(w) + horizon_strokes(w);
    let isl = island_strokes(w);
    let post1 = castle_strokes(w);
    let post2 = cascade_strokes(w);
    let post3 = satan_strokes(w);
    let post4 = boat_strokes(w);
    let sun = sun_strokes(w);
    let hor = horizon_strokes(w);
    assert(misses(hor, x, y));
    assert forall|k: int| 0 <= k < pre.len() && (#[trigger] pre[k]).x == x && pre[k].y == y
        implies pre[k].ch != 'o' by {
        if k < sun.len() {
            assert(pre[k] == sun[k]);
        } else {
            assert(pre[k] == hor[k - sun.len()]);
        }
    }
    assert(misses(post1, x, y)) by {
        if !w.castle_destroyed && w.horizon_y >= 4 {
            let c4 = wall_course(w, 4, true);
            let c1 = wall_course(w, 1, false);
            let c2 = wall_course(w, 2, false);
            let c3 = wall_course(w, 3, false);
            let gate = seq![st(w.castle_x + w.castle_w / 2, w.horizon_y - 1, '║', Some(Color::Yellow))];
            assert(misses(c4, x, y));
            assert(misses(c1, x, y));
            assert(misses(c2, x, y));
            assert(misses(c3, x, y));
            assert(misses(gate, x, y));
            lemma_misses_concat(c4, c1, x, y);
            lemma_misses_concat(c4 + c1, c2, x, y);
            lemma_misses_concat(c4 + c1 + c2, c3, x, y);
            lemma_misses_concat(c4 + c1 + c2 + c3, gate, x, y);
        }
    }
    assert(post2 =~= Seq::<Stroke>::empty());
    assert(post3 =~= Seq::<Stroke>::empty());
    assert(misses(post4, x, y)) by {
        let l0 = boat_line(w, 0);
        let l1 = boat_line(w, 1);
        assert(misses(l0, x, y));
        assert(misses(l1, x, y));
        lemma_misses_concat(l0, l1, x, y);
        if w.act == Act::Voyage && w.boat_y >= 1 {
            let deck = seq![st(w.boat_x + 2, w.boat_y - 1, 'o', Some(Color::White))];
            assert(misses(deck, x, y));
            lemma_misses_concat(l0 + l1, deck, x, y);
            assert(post4 =~= l0 + l1 + deck);
        }
    }
    lemma_misses_concat(post1, post2, x, y);
    lemma_misses_concat(post1 + post2, post3, x, y);
    lemma_misses_concat(post1 + post2 + post3, post4, x, y);
    let post = post1 + post2 + post3 + post4;
    assert(scene_strokes(w) =~= pre + isl + post);
    lemma_apply_concat(p, pre + isl, post);
    lemma_apply_concat(p, pre, isl);
    lemma_cell_kept(p, pre, x, y);
    lemma_no_o(p, pre, x, y);
    let p1 = apply(p, pre);
    lemma_island_rows_cell(p1, w, w.island_xs@.len(), k);
    let p2 = apply(p1, isl);
    lemma_cell_kept(p2, post, x, y);
}

/// The acts follow the budget `b` (a zero budget counts as one second):
/// the voyage until `b` seconds, the cascade from `b` to `2b`, the abyss
/// from `2b` on. The castle falls when the voyage ends and Satan appears
/// with the abyss; the boat sails along the sea during the voyage, falls a
/// share `(e - b) / b` of two thirds of the screen during the cascade and
/// stays two thirds down in the abyss; the sun goes from column `cols - 4`
/// in the east to 0 in the west over the voyage.
pub proof fn law_compute_acts(
    w: WorldState,
    total_elapsed: u32,
    total_budget: u32,
    soldiers: u32,
    current_soldier: u32,
    cols: usize,
    rows: usize,
    elapsed_ms: u64,
)
    requires
        computed(w, total_elapsed, total_budget, soldiers, current_soldier, cols, rows, elapsed_ms),
    ensures
        ({
            let e = total_elapsed as int;
            let b = if total_budget == 0 { 1int } else { total_budget as int };
            &&& (w.act == Act::Voyage) <==> e < b
            &&& (w.act == Act::Cascade) <==> b <= e && e < 2 * b
            &&& (w.act == Act::Abyss) <==> 2 * b <= e
            &&& w.castle_destroyed <==> b <= e
            &&& w.satan_revealed <==> 2 * b <= e
            &&& e < b && rows >= 2 ==> w.boat_y == rows - 2
            &&& b <= e && e < 2 * b ==> w.boat_y == ((2 * rows as int) / 3) * (e - b) / b
            &&& 2 * b <= e ==> w.boat_y == (2 * rows as int) / 3
            &&& e < b && cols >= 4 ==> w.sun_x == (cols - 4) - (cols - 4) * e / b
            &&& e == 0 && cols >= 4 ==> w.sun_x == cols - 4
            &&& e < b ==> w.horizon_y == rows - 1 || rows == 0
            &&& b <= e && e < 2 * b ==> w.horizon_y == (if rows as int - 1 - (e - b) > rows as int / 4 { rows as int - 1 - (e - b) } else { rows as int / 4 })
                || (rows as int) - 1 - (e - b) < 0
        }),
{
    let e = total_elapsed as int;
    let b = if total_budget == 0 { 1int } else { total_budget as int };
    if e == 0 && cols >= 4 {
        let c = cols - 4;
        assert(c * e / b == 0) by (nonlinear_arith)
            requires e == 0, b > 0;
    }
}

} // verus!
