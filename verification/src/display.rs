use vstd::prelude::*;

verus! {

/// Width of the logical monochrome grid, in pixels.
pub const GRID_WIDTH: usize = 64;

/// Height of the logical monochrome grid, in pixels.
pub const GRID_HEIGHT: usize = 32;

/// Number of logical pixels in the grid.
pub const GRID_AREA: usize = 64 * 32;

/// Bit `i` of a sprite row byte, with bit 0 the leftmost (most
/// significant) pixel of the row.
pub open spec fn sprite_bit(row: u8, i: int) -> bool {
    ((row >> ((7 - i) as u8)) & 1u8) == 1u8
}

/// Index into the pixel sequence of the cell a sprite bit lands on:
/// row `j`, bit `i` of a sprite blitted at `(ox, oy)`, with both
/// coordinates wrapping modulo the grid dimensions.
pub open spec fn cell_index(ox: int, oy: int, j: int, i: int) -> int {
    ((oy + j) % (GRID_HEIGHT as int)) * (GRID_WIDTH as int) + ((ox + i) % (GRID_WIDTH as int))
}

/// One XOR-composite step: `s` is the grid together with the collision
/// flag accumulated so far; the step applies bit `i` of row `j`. The
/// flag is raised when a set sprite bit lands on a set pixel, which the
/// XOR then erases.
pub open spec fn blit_step(s: (Seq<bool>, bool), row: u8, ox: int, oy: int, j: int, i: int)
    -> (Seq<bool>, bool)
{
    let c = cell_index(ox, oy, j, i);
    let b = sprite_bit(row, i);
    (
        if b { s.0.update(c, !s.0[c]) } else { s.0 },
        s.1 || (b && s.0[c]),
    )
}

/// The grid and collision flag after compositing the first `i` bits of
/// row `j`, left to right, starting from `s`.
pub open spec fn blit_row_upto(s: (Seq<bool>, bool), row: u8, ox: int, oy: int, j: int, i: int)
    -> (Seq<bool>, bool)
    decreases i,
{
    if i <= 0 {
        s
    } else {
        blit_step(blit_row_upto(s, row, ox, oy, j, i - 1), row, ox, oy, j, i - 1)
    }
}

/// The grid and collision flag after compositing the first `j` rows of
/// the sprite, top to bottom, onto `g`.
pub open spec fn blit_rows_upto(g: Seq<bool>, rows: Seq<u8>, ox: int, oy: int, j: int)
    -> (Seq<bool>, bool)
    decreases j,
{
    if j <= 0 {
        (g, false)
    } else {
        blit_row_upto(blit_rows_upto(g, rows, ox, oy, j - 1), rows[j - 1], ox, oy, j - 1, 8)
    }
}

/// The grid and collision flag that blitting the whole sprite onto `g`
/// produces: rows composited top to bottom, bits left to right, each
/// pixel the XOR of its prior value and the sprite bit, the flag raised
/// exactly when some pixel goes from on to off.
pub open spec fn spec_blit(g: Seq<bool>, rows: Seq<u8>, ox: int, oy: int) -> (Seq<bool>, bool) {
    blit_rows_upto(g, rows, ox, oy, rows.len() as int)
}

/// Parity of the set bits among the first `i` bits of a sprite row that
/// land on cell `c`: true when an odd number of them do.
pub open spec fn row_hits_upto(row: u8, ox: int, oy: int, j: int, i: int, c: int) -> bool
    decreases i,
{
    if i <= 0 {
        false
    } else {
        row_hits_upto(row, ox, oy, j, i - 1, c) != (sprite_bit(row, i - 1) && cell_index(
            ox,
            oy,
            j,
            i - 1,
        ) == c)
    }
}

/// Parity of the set bits among the first `j` rows of a sprite that land
/// on cell `c`.
pub open spec fn hits_upto(rows: Seq<u8>, ox: int, oy: int, j: int, c: int) -> bool
    decreases j,
{
    if j <= 0 {
        false
    } else {
        hits_upto(rows, ox, oy, j - 1, c) != row_hits_upto(rows[j - 1], ox, oy, j - 1, 8, c)
    }
}

/// Some set bit among the first `i` of the row lands on a pixel of `g`
/// that is already on.
pub open spec fn row_collision(g: Seq<bool>, row: u8, ox: int, oy: int, j: int, i: int) -> bool {
    exists|k: int|
        0 <= k < i && sprite_bit(row, k) && g[cell_index(ox, oy, j, k)]
}

/// Every cell a sprite bit lands on lies inside the grid.
pub proof fn lemma_cell_index_bounds(ox: int, oy: int, j: int, i: int)
    requires
        0 <= ox,
        0 <= oy,
        0 <= j,
        0 <= i,
    ensures
        0 <= cell_index(ox, oy, j, i) < GRID_AREA,
{
    vstd::arithmetic::div_mod::lemma_mod_pos_bound(oy + j, GRID_HEIGHT as int);
    vstd::arithmetic::div_mod::lemma_mod_pos_bound(ox + i, GRID_WIDTH as int);
}

/// Two distinct bits of one sprite row land on distinct cells: their
/// columns differ by less than the grid width, so wrapping cannot make
/// them coincide.
pub proof fn lemma_cells_distinct(ox: int, oy: int, j: int, a: int, b: int)
    requires
        0 <= ox,
        0 <= oy,
        0 <= j,
        0 <= a < b < 8,
    ensures
        cell_index(ox, oy, j, a) != cell_index(ox, oy, j, b),
{
    let w = GRID_WIDTH as int;
    vstd::arithmetic::div_mod::lemma_mod_pos_bound(ox + a, w);
    vstd::arithmetic::div_mod::lemma_mod_pos_bound(ox + b, w);
    if (ox + a) % w == (ox + b) % w {
        vstd::arithmetic::div_mod::lemma_fundamental_div_mod(ox + a, w);
        vstd::arithmetic::div_mod::lemma_fundamental_div_mod(ox + b, w);
        let qa = (ox + a) / w;
        let qb = (ox + b) / w;
        assert(w * qb - w * qa == b - a);
        assert(w * qb - w * qa == w * (qb - qa)) by (nonlinear_arith);
        assert(qb - qa == 0 || qb - qa >= 1 || qb - qa <= -1);
        assert(w * (qb - qa) == 0 || w * (qb - qa) >= w || w * (qb - qa) <= -w)
            by (nonlinear_arith);
        assert(false);
    }
}

/// No bit of the row that comes before bit `i` lands on bit `i`'s cell.
pub proof fn lemma_row_hits_before(row: u8, ox: int, oy: int, j: int, t: int, i: int)
    requires
        0 <= ox,
        0 <= oy,
        0 <= j,
        0 <= t <= i < 8,
    ensures
        !row_hits_upto(row, ox, oy, j, t, cell_index(ox, oy, j, i)),
    decreases t,
{
    if t > 0 {
        lemma_row_hits_before(row, ox, oy, j, t - 1, i);
        lemma_cells_distinct(ox, oy, j, t - 1, i);
    }
}

/// The parity at bit `i`'s cell over the first `t` bits of the row is
/// exactly bit `i` itself once `t` has passed `i`: within one row each
/// cell is hit at most once.
pub proof fn lemma_row_hits_at_cell(row: u8, ox: int, oy: int, j: int, t: int, i: int)
    requires
        0 <= ox,
        0 <= oy,
        0 <= j,
        0 <= i < 8,
        0 <= t <= 8,
    ensures
        row_hits_upto(row, ox, oy, j, t, cell_index(ox, oy, j, i)) == (i < t && sprite_bit(
            row,
            i,
        )),
    decreases t,
{
    if t > 0 {
        lemma_row_hits_at_cell(row, ox, oy, j, t - 1, i);
        if t - 1 != i {
            if t - 1 < i {
                lemma_cells_distinct(ox, oy, j, t - 1, i);
            } else {
                lemma_cells_distinct(ox, oy, j, i, t - 1);
            }
        }
    }
}

/// A cell that no bit of the row lands on keeps parity false.
pub proof fn lemma_row_hits_missed(row: u8, ox: int, oy: int, j: int, t: int, c: int)
    requires
        0 <= t <= 8,
        forall|i: int| 0 <= i < 8 ==> c != cell_index(ox, oy, j, i),
    ensures
        !row_hits_upto(row, ox, oy, j, t, c),
    decreases t,
{
    if t > 0 {
        lemma_row_hits_missed(row, ox, oy, j, t - 1, c);
    }
}

/// Compositing the first `i` bits of one row changes each pixel by the
/// parity of the set bits landing on it, and raises the collision flag
/// exactly when a set bit lands on a pixel that was on.
pub proof fn lemma_blit_row_upto_pointwise(
    s: (Seq<bool>, bool),
    row: u8,
    ox: int,
    oy: int,
    j: int,
    i: int,
)
    requires
        s.0.len() == GRID_AREA,
        0 <= ox,
        0 <= oy,
        0 <= j,
        0 <= i <= 8,
    ensures
        blit_row_upto(s, row, ox, oy, j, i).0.len() == GRID_AREA,
        forall|c: int|
            0 <= c < GRID_AREA ==> blit_row_upto(s, row, ox, oy, j, i).0[c] == (s.0[c]
                != row_hits_upto(row, ox, oy, j, i, c)),
        blit_row_upto(s, row, ox, oy, j, i).1 == (s.1 || row_collision(s.0, row, ox, oy, j, i)),
    decreases i,
{
    if i > 0 {
        lemma_blit_row_upto_pointwise(s, row, ox, oy, j, i - 1);
        lemma_cell_index_bounds(ox, oy, j, i - 1);
        let prev = blit_row_upto(s, row, ox, oy, j, i - 1);
        let cur = blit_row_upto(s, row, ox, oy, j, i);
        let c0 = cell_index(ox, oy, j, i - 1);
        let b0 = sprite_bit(row, i - 1);
        lemma_row_hits_before(row, ox, oy, j, i - 1, i - 1);
        assert(prev.0[c0] == s.0[c0]);
        // The flag after bit i-1 matches the existential over the first i bits.
        if cur.1 {
            if prev.1 {
                if !s.1 {
                    let k = choose|k: int|
                        0 <= k < i - 1 && sprite_bit(row, k) && s.0[cell_index(ox, oy, j, k)];
                    assert(row_collision(s.0, row, ox, oy, j, i));
                }
            } else {
                assert(b0 && s.0[c0]);
                assert(row_collision(s.0, row, ox, oy, j, i));
            }
        }
        if s.1 || row_collision(s.0, row, ox, oy, j, i) {
            if !s.1 && !prev.1 && !(b0 && prev.0[c0]) {
                let k = choose|k: int|
                    0 <= k < i && sprite_bit(row, k) && s.0[cell_index(ox, oy, j, k)];
                assert(0 <= k < i - 1 && sprite_bit(row, k) && s.0[cell_index(ox, oy, j, k)]);
                assert(row_collision(s.0, row, ox, oy, j, i - 1));
                assert(false);
            }
            assert(cur.1);
        }
    }
}

/// Compositing the first `j` rows changes each pixel by the parity of
/// the set sprite bits landing on it.
pub proof fn lemma_blit_rows_upto_pointwise(g: Seq<bool>, rows: Seq<u8>, ox: int, oy: int, j: int)
    requires
        g.len() == GRID_AREA,
        0 <= ox,
        0 <= oy,
        0 <= j <= rows.len(),
    ensures
        blit_rows_upto(g, rows, ox, oy, j).0.len() == GRID_AREA,
        forall|c: int|
            0 <= c < GRID_AREA ==> blit_rows_upto(g, rows, ox, oy, j).0[c] == (g[c] != hits_upto(
                rows,
                ox,
                oy,
                j,
                c,
            )),
    decreases j,
{
    if j > 0 {
        lemma_blit_rows_upto_pointwise(g, rows, ox, oy, j - 1);
        let prev = blit_rows_upto(g, rows, ox, oy, j - 1);
        lemma_blit_row_upto_pointwise(prev, rows[j - 1], ox, oy, j - 1, 8);
    }
}

/// Law: XOR compositing is an involution. Blitting the same sprite at
/// the same origin twice in succession returns every pixel, touched or
/// not, to its state before the first blit.
pub proof fn lemma_blit_twice_restores(g: Seq<bool>, rows: Seq<u8>, ox: int, oy: int)
    requires
        g.len() == GRID_AREA,
        0 <= ox,
        0 <= oy,
    ensures
        spec_blit(spec_blit(g, rows, ox, oy).0, rows, ox, oy).0 == g,
{
    let g1 = spec_blit(g, rows, ox, oy).0;
    let g2 = spec_blit(g1, rows, ox, oy).0;
    lemma_blit_rows_upto_pointwise(g, rows, ox, oy, rows.len() as int);
    lemma_blit_rows_upto_pointwise(g1, rows, ox, oy, rows.len() as int);
    assert(g2 =~= g);
}

/// What blitting a single row does, cell by cell: each of its eight
/// bits flips its own cell when set, every other cell keeps its value,
/// and a collision is reported exactly when a set bit lands on a pixel
/// that was on.
pub proof fn lemma_blit_single_row(g: Seq<bool>, row: u8, ox: int, oy: int)
    requires
        g.len() == GRID_AREA,
        0 <= ox,
        0 <= oy,
    ensures
        spec_blit(g, seq![row], ox, oy).0.len() == GRID_AREA,
        forall|i: int|
            0 <= i < 8 ==> spec_blit(g, seq![row], ox, oy).0[cell_index(ox, oy, 0, i)] == (g[
                cell_index(ox, oy, 0, i)] != sprite_bit(row, i)),
        forall|c: int|
            0 <= c < GRID_AREA && (forall|i: int| 0 <= i < 8 ==> c != cell_index(ox, oy, 0, i))
                ==> spec_blit(g, seq![row], ox, oy).0[c] == g[c],
        spec_blit(g, seq![row], ox, oy).1 == row_collision(g, row, ox, oy, 0, 8),
{
    let rows = seq![row];
    assert(blit_rows_upto(g, rows, ox, oy, 0) == (g, false));
    assert(spec_blit(g, rows, ox, oy) == blit_row_upto((g, false), row, ox, oy, 0, 8));
    lemma_blit_row_upto_pointwise((g, false), row, ox, oy, 0, 8);
    assert forall|i: int| 0 <= i < 8 implies spec_blit(g, rows, ox, oy).0[cell_index(
        ox,
        oy,
        0,
        i,
    )] == (g[cell_index(ox, oy, 0, i)] != sprite_bit(row, i)) by {
        lemma_cell_index_bounds(ox, oy, 0, i);
        lemma_row_hits_at_cell(row, ox, oy, 0, 8, i);
    }
    assert forall|c: int|
        0 <= c < GRID_AREA && (forall|i: int| 0 <= i < 8 ==> c != cell_index(ox, oy, 0, i)) implies
        spec_blit(g, rows, ox, oy).0[c] == g[c] by {
        lemma_row_hits_missed(row, ox, oy, 0, 8, c);
    }
}

/// Law: wraparound. A row blitted at `origin_x = GRID_WIDTH - 1` puts
/// its leftmost bit in column `GRID_WIDTH - 1` and its remaining seven
/// bits in columns 0 through 6 of the same grid row.
pub proof fn lemma_blit_row_wraps(g: Seq<bool>, row: u8, oy: int)
    requires
        g.len() == GRID_AREA,
        0 <= oy < GRID_HEIGHT,
    ensures
        spec_blit(g, seq![row], GRID_WIDTH as int - 1, oy).0[oy * (GRID_WIDTH as int) + (
        GRID_WIDTH as int - 1)] == (g[oy * (GRID_WIDTH as int) + (GRID_WIDTH as int - 1)]
            != sprite_bit(row, 0)),
        forall|i: int|
            1 <= i < 8 ==> spec_blit(g, seq![row], GRID_WIDTH as int - 1, oy).0[oy * (
            GRID_WIDTH as int) + i - 1] == (g[oy * (GRID_WIDTH as int) + i - 1] != sprite_bit(
                row,
                i,
            )),
{
    let w = GRID_WIDTH as int;
    let h = GRID_HEIGHT as int;
    lemma_blit_single_row(g, row, w - 1, oy);
    vstd::arithmetic::div_mod::lemma_small_mod(oy as nat, h as nat);
    vstd::arithmetic::div_mod::lemma_small_mod((w - 1) as nat, w as nat);
    assert(cell_index(w - 1, oy, 0, 0) == oy * w + (w - 1));
    assert forall|i: int| 1 <= i < 8 implies #[trigger] cell_index(w - 1, oy, 0, i) == oy * w + i
        - 1 by {
        vstd::arithmetic::div_mod::lemma_mod_sub_multiples_vanish(w - 1 + i, w);
        vstd::arithmetic::div_mod::lemma_small_mod((i - 1) as nat, w as nat);
    }
}

/// Law: collision reporting for a full row. Blitting the row `0xFF`
/// where all eight target pixels are on reports a collision; blitting
/// it where all eight are off reports none.
pub proof fn lemma_blit_full_row_collision(g: Seq<bool>, ox: int, oy: int)
    requires
        g.len() == GRID_AREA,
        0 <= ox,
        0 <= oy,
    ensures
        (forall|i: int| 0 <= i < 8 ==> g[cell_index(ox, oy, 0, i)]) ==> spec_blit(
            g,
            seq![0xFFu8],
            ox,
            oy,
        ).1,
        (forall|i: int| 0 <= i < 8 ==> !g[cell_index(ox, oy, 0, i)]) ==> !spec_blit(
            g,
            seq![0xFFu8],
            ox,
            oy,
        ).1,
{
    lemma_blit_single_row(g, 0xFFu8, ox, oy);
    assert(forall|s: u8| s < 8 ==> ((0xFFu8 >> s) & 1u8) == 1u8) by (bit_vector);
    assert forall|i: int| 0 <= i < 8 implies sprite_bit(0xFFu8, i) by {
        assert(((7 - i) as u8) < 8);
    }
    if forall|i: int| 0 <= i < 8 ==> g[cell_index(ox, oy, 0, i)] {
        assert(sprite_bit(0xFFu8, 0) && g[cell_index(ox, oy, 0, 0)]);
        assert(row_collision(g, 0xFFu8, ox, oy, 0, 8));
    }
}

/// The logical display: a `GRID_WIDTH` x `GRID_HEIGHT` monochrome pixel
/// grid. Pixel `(x, y)` is element `y * GRID_WIDTH + x` of the view.
/// Coordinates wrap; there is no off-screen state.
pub struct DisplayBuffer {
    pixels: Vec<bool>,
}

impl DisplayBuffer {
    /// The pixels of the grid, row-major.
    pub closed spec fn view(&self) -> Seq<bool> {
        self.pixels@
    }

    /// A well-formed display holds exactly one bit per grid cell.
    pub open spec fn wf(&self) -> bool {
        self@.len() == GRID_AREA
    }

    /// Whether the display is well-formed, decided at run time: an
    /// unverified host can test it before driving the cycle.
    pub fn is_wf(&self) -> (b: bool)
        ensures
            b == self.wf(),
    {
        self.pixels.len() == GRID_AREA
    }

    /// A fresh display with every pixel off.
    pub fn new() -> (d: DisplayBuffer)
        ensures
            d.wf(),
            forall|k: int| 0 <= k < GRID_AREA ==> !d@[k],
    {
        let mut pixels: Vec<bool> = Vec::new();
        while pixels.len() < GRID_AREA
            invariant
                pixels@.len() <= GRID_AREA,
                forall|k: int| 0 <= k < pixels@.len() ==> !pixels@[k],
            decreases GRID_AREA - pixels@.len(),
        {
            pixels.push(false);
        }
        DisplayBuffer { pixels }
    }

    /// Turn every pixel off.
    pub fn clear(&mut self)
        requires
            old(self).wf(),
        ensures
            final(self).wf(),
            forall|k: int| 0 <= k < GRID_AREA ==> !final(self)@[k],
    {
        let mut k: usize = 0;
        while k < GRID_AREA
            invariant
                self@.len() == GRID_AREA,
                k <= GRID_AREA,
                forall|q: int| 0 <= q < k ==> !self@[q],
            decreases GRID_AREA - k,
        {
            self.pixels.set(k, false);
            k = k + 1;
        }
    }

    /// The pixel at column `x`, row `y`.
    pub fn pixel(&self, x: usize, y: usize) -> (r: bool)
        requires
            self.wf(),
            x < GRID_WIDTH,
            y < GRID_HEIGHT,
        ensures
            r == self@[y * GRID_WIDTH + x],
    {
        self.pixels[y * GRID_WIDTH + x]
    }

    /// XOR-composite a sprite onto the grid: byte `j` of `rows` is the
    /// `j`th 8-pixel row, most significant bit leftmost, drawn at
    /// `(origin_x + i, origin_y + j)` with wraparound. Returns true
    /// exactly when some previously set pixel was erased.
    pub fn blit_sprite(&mut self, rows: &Vec<u8>, origin_x: u8, origin_y: u8) -> (collision:
        bool)
        requires
            old(self).wf(),
        ensures
            final(self).wf(),
            final(self)@ == spec_blit(old(self)@, rows@, origin_x as int, origin_y as int).0,
            collision == spec_blit(old(self)@, rows@, origin_x as int, origin_y as int).1,
    {
        let ghost g0 = self@;
        let ghost ox = origin_x as int;
        let ghost oy = origin_y as int;
        let mut collision = false;
        let mut j: usize = 0;
        while j < rows.len()
            invariant
                self@.len() == GRID_AREA,
                j <= rows@.len(),
                g0.len() == GRID_AREA,
                ox == origin_x as int,
                oy == origin_y as int,
                (self@, collision) == blit_rows_upto(g0, rows@, ox, oy, j as int),
            decreases rows@.len() - j,
        {
            let row = rows[j];
            let ghost s_row = (self@, collision);
            let mut i: usize = 0;
            while i < 8
                invariant
                    self@.len() == GRID_AREA,
                    i <= 8,
                    ox == origin_x as int,
                    oy == origin_y as int,
                    (self@, collision) == blit_row_upto(s_row, row, ox, oy, j as int, i as int),
                decreases 8 - i,
            {
                let jm = j % GRID_HEIGHT;
                let yy = ((origin_y as usize) + jm) % GRID_HEIGHT;
                let xx = ((origin_x as usize) + i) % GRID_WIDTH;
                let c = yy * GRID_WIDTH + xx;
                let sh = (7 - i) as u8;
                let b = ((row >> sh) & 1u8) == 1u8;
                proof {
                    vstd::arithmetic::div_mod::lemma_add_mod_noop_right(
                        oy,
                        j as int,
                        GRID_HEIGHT as int,
                    );
                }
                assert(c == cell_index(ox, oy, j as int, i as int));
                assert(b == sprite_bit(row, i as int));
                if b {
                    let prior = self.pixels[c];
                    if prior {
                        collision = true;
                    }
                    self.pixels.set(c, !prior);
                }
                i = i + 1;
            }
            proof {
                assert((self@, collision) == blit_rows_upto(g0, rows@, ox, oy, j as int + 1));
            }
            j = j + 1;
        }
        collision
    }
}

} // verus!
