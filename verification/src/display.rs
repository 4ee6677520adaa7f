//! The monochrome display buffer and its sprite blit.

use vstd::prelude::*;
use crate::bits::{msb_bit, u8_to_bits};
use crate::fault::FaultKind;

verus! {

/// Cells in one row of the display.
pub const DISPLAY_WIDTH: usize = 64;

/// Rows of the display.
pub const DISPLAY_HEIGHT: usize = 32;

/// Cells of the display, stored row by row.
pub const DISPLAY_CELLS: usize = 2048;

/// The tallest sprite an instruction can name.
pub const MAX_SPRITE_ROWS: usize = 15;

/// What happens to the sprite pixels that fall past the right or the bottom
/// edge of the display. The policy is fixed when a display is created.
#[derive(Clone, Copy, Debug, PartialEq, Eq, Structural)]
pub enum EdgePolicy {
    /// Such pixels are dropped.
    Clip,
    /// Such pixels reappear at the opposite edge.
    Wrap,
}

impl Default for EdgePolicy {
    /// Clipping is the default.
    fn default() -> (policy: EdgePolicy)
        ensures
            policy == EdgePolicy::Clip,
    {
        EdgePolicy::Clip
    }
}

/// The display with every cell off.
pub open spec fn blank() -> Seq<bool> {
    Seq::new(DISPLAY_CELLS as nat, |k: int| false)
}

/// How far into the sprite the display coordinate `target` lies, along an axis
/// of `extent` cells on which the sprite starts at `origin`.
pub open spec fn sprite_offset(policy: EdgePolicy, origin: int, target: int, extent: int) -> int {
    match policy {
        EdgePolicy::Clip => target - origin,
        EdgePolicy::Wrap => (target - origin) % extent,
    }
}

/// Whether a set pixel of `sprite`, drawn with its top left corner at
/// (`origin_col`, `origin_row`), lands on the cell (`col`, `row`).
pub open spec fn sprite_covers(
    policy: EdgePolicy,
    origin_col: int,
    origin_row: int,
    sprite: Seq<u8>,
    col: int,
    row: int,
) -> bool {
    let i = sprite_offset(policy, origin_row, row, DISPLAY_HEIGHT as int);
    let j = sprite_offset(policy, origin_col, col, DISPLAY_WIDTH as int);
    0 <= i < sprite.len() && 0 <= j < 8 && msb_bit(sprite[i], j)
}

/// The cells after `sprite` has been drawn onto `pixels`: every covered cell
/// is flipped, every other cell is kept.
pub open spec fn blit_pixels(
    pixels: Seq<bool>,
    policy: EdgePolicy,
    origin_col: int,
    origin_row: int,
    sprite: Seq<u8>,
) -> Seq<bool> {
    Seq::new(
        DISPLAY_CELLS as nat,
        |k: int|
            pixels[k] != sprite_covers(
                policy,
                origin_col,
                origin_row,
                sprite,
                k % (DISPLAY_WIDTH as int),
                k / (DISPLAY_WIDTH as int),
            ),
    )
}

/// Whether cell `k` was on in `pixels` and is covered by the sprite.
pub open spec fn collides_at(
    pixels: Seq<bool>,
    policy: EdgePolicy,
    origin_col: int,
    origin_row: int,
    sprite: Seq<u8>,
    k: int,
) -> bool {
    0 <= k < DISPLAY_CELLS && pixels[k] && sprite_covers(
        policy,
        origin_col,
        origin_row,
        sprite,
        k % (DISPLAY_WIDTH as int),
        k / (DISPLAY_WIDTH as int),
    )
}

/// Whether drawing `sprite` onto `pixels` turns off a cell that was on.
pub open spec fn blit_collides(
    pixels: Seq<bool>,
    policy: EdgePolicy,
    origin_col: int,
    origin_row: int,
    sprite: Seq<u8>,
) -> bool {
    exists|k: int| collides_at(pixels, policy, origin_col, origin_row, sprite, k)
}

/// The cell that row `i`, column `j` of a sprite lands on, if it lands on the
/// display at all.
pub open spec fn pixel_target(
    policy: EdgePolicy,
    origin_col: int,
    origin_row: int,
    i: int,
    j: int,
) -> Option<int> {
    match policy {
        EdgePolicy::Clip => if origin_row + i < DISPLAY_HEIGHT && origin_col + j < DISPLAY_WIDTH {
            Some((origin_row + i) * DISPLAY_WIDTH + origin_col + j)
        } else {
            None
        },
        EdgePolicy::Wrap => Some(
            ((origin_row + i) % (DISPLAY_HEIGHT as int)) * DISPLAY_WIDTH + (origin_col + j) % (
            DISPLAY_WIDTH as int),
        ),
    }
}

/// Whether cell `k` is covered by a sprite pixel that comes before row `i`,
/// column `j` of the sprite in drawing order.
spec fn drawn_before(
    policy: EdgePolicy,
    origin_col: int,
    origin_row: int,
    sprite: Seq<u8>,
    k: int,
    i: int,
    j: int,
) -> bool {
    let row = sprite_offset(policy, origin_row, k / (DISPLAY_WIDTH as int), DISPLAY_HEIGHT as int);
    let col = sprite_offset(policy, origin_col, k % (DISPLAY_WIDTH as int), DISPLAY_WIDTH as int);
    sprite_covers(
        policy,
        origin_col,
        origin_row,
        sprite,
        k % (DISPLAY_WIDTH as int),
        k / (DISPLAY_WIDTH as int),
    ) && (row < i || (row == i && col < j))
}

/// Whether cell `k` was on in `pixels` and has been drawn over before row `i`,
/// column `j` of the sprite.
spec fn collided_before(
    pixels: Seq<bool>,
    policy: EdgePolicy,
    origin_col: int,
    origin_row: int,
    sprite: Seq<u8>,
    k: int,
    i: int,
    j: int,
) -> bool {
    0 <= k < DISPLAY_CELLS && pixels[k] && drawn_before(
        policy,
        origin_col,
        origin_row,
        sprite,
        k,
        i,
        j,
    )
}

/// The cells drawn so far are the ones from before the blit with every pixel
/// before row `i`, column `j` applied.
spec fn drawn_so_far(
    cells: Seq<bool>,
    before: Seq<bool>,
    policy: EdgePolicy,
    origin_col: int,
    origin_row: int,
    sprite: Seq<u8>,
    i: int,
    j: int,
) -> bool {
    forall|k: int|
        0 <= k < DISPLAY_CELLS ==> cells[k] == (before[k] != #[trigger] drawn_before(
            policy,
            origin_col,
            origin_row,
            sprite,
            k,
            i,
            j,
        ))
}

/// Whether a collision has happened before row `i`, column `j`.
spec fn collision_so_far(
    before: Seq<bool>,
    policy: EdgePolicy,
    origin_col: int,
    origin_row: int,
    sprite: Seq<u8>,
    i: int,
    j: int,
) -> bool {
    exists|k: int| collided_before(before, policy, origin_col, origin_row, sprite, k, i, j)
}

/// Cell `k` is where row `i`, column `j` of the sprite lands exactly when its
/// offsets into the sprite are `i` and `j`.
pub proof fn lemma_target_is_offset(
    policy: EdgePolicy,
    origin_col: int,
    origin_row: int,
    i: int,
    j: int,
    k: int,
)
    requires
        0 <= origin_col < 64,
        0 <= origin_row < 32,
        0 <= i < 32,
        0 <= j < 8,
        0 <= k < DISPLAY_CELLS,
    ensures
        pixel_target(policy, origin_col, origin_row, i, j) == Some(k) <==> (sprite_offset(
            policy,
            origin_row,
            k / 64,
            32,
        ) == i && sprite_offset(policy, origin_col, k % 64, 64) == j),
        pixel_target(policy, origin_col, origin_row, i, j) matches Some(t) ==> 0 <= t
            < DISPLAY_CELLS,
{
}

/// Drawing one sprite pixel carries the loop's account of the display one
/// pixel further.
proof fn lemma_draw_pixel(
    before: Seq<bool>,
    cells: Seq<bool>,
    drawn: Seq<bool>,
    policy: EdgePolicy,
    origin_col: int,
    origin_row: int,
    sprite: Seq<u8>,
    i: int,
    j: int,
    collision: bool,
)
    requires
        before.len() == DISPLAY_CELLS,
        cells.len() == DISPLAY_CELLS,
        0 <= origin_col < 64,
        0 <= origin_row < 32,
        0 <= i < sprite.len() <= MAX_SPRITE_ROWS,
        0 <= j < 8,
        drawn_so_far(cells, before, policy, origin_col, origin_row, sprite, i, j),
        collision <==> collision_so_far(before, policy, origin_col, origin_row, sprite, i, j),
        drawn == match pixel_target(policy, origin_col, origin_row, i, j) {
            Some(t) => if msb_bit(sprite[i], j) {
                cells.update(t, !cells[t])
            } else {
                cells
            },
            None => cells,
        },
    ensures
        drawn_so_far(drawn, before, policy, origin_col, origin_row, sprite, i, j + 1),
        (collision || (pixel_target(policy, origin_col, origin_row, i, j) matches Some(t)
            && msb_bit(sprite[i], j) && cells[t])) <==> collision_so_far(
            before,
            policy,
            origin_col,
            origin_row,
            sprite,
            i,
            j + 1,
        ),
{
    let target = pixel_target(policy, origin_col, origin_row, i, j);
    let lit = msb_bit(sprite[i], j);
    let next = j + 1;
    assert forall|k: int| 0 <= k < DISPLAY_CELLS implies (#[trigger] drawn_before(
        policy,
        origin_col,
        origin_row,
        sprite,
        k,
        i,
        next,
    ) <==> drawn_before(policy, origin_col, origin_row, sprite, k, i, j) || (lit && target == Some(
        k,
    ))) && !(drawn_before(policy, origin_col, origin_row, sprite, k, i, j) && target == Some(k)) by {
        lemma_target_is_offset(policy, origin_col, origin_row, i, j, k);
    }
    assert(drawn_so_far(drawn, before, policy, origin_col, origin_row, sprite, i, next)) by {
        assert forall|k: int| 0 <= k < DISPLAY_CELLS implies drawn[k] == (before[k]
            != #[trigger] drawn_before(policy, origin_col, origin_row, sprite, k, i, next)) by {
            lemma_target_is_offset(policy, origin_col, origin_row, i, j, k);
            assert(cells[k] == (before[k] != drawn_before(
                policy,
                origin_col,
                origin_row,
                sprite,
                k,
                i,
                j,
            )));
        }
    }
    let hit = target matches Some(t) && lit && cells[t];
    if collision {
        let w = choose|k: int|
            collided_before(before, policy, origin_col, origin_row, sprite, k, i, j);
        assert(collided_before(before, policy, origin_col, origin_row, sprite, w, i, next));
    } else if hit {
        let t = target->Some_0;
        lemma_target_is_offset(policy, origin_col, origin_row, i, j, t);
        assert(cells[t] == (before[t] != drawn_before(
            policy,
            origin_col,
            origin_row,
            sprite,
            t,
            i,
            j,
        )));
        assert(collided_before(before, policy, origin_col, origin_row, sprite, t, i, next));
    } else {
        assert forall|k: int| !#[trigger] collided_before(
            before,
            policy,
            origin_col,
            origin_row,
            sprite,
            k,
            i,
            next,
        ) by {
            if 0 <= k < DISPLAY_CELLS {
                lemma_target_is_offset(policy, origin_col, origin_row, i, j, k);
                assert(!collided_before(before, policy, origin_col, origin_row, sprite, k, i, j));
                assert(cells[k] == (before[k] != drawn_before(
                    policy,
                    origin_col,
                    origin_row,
                    sprite,
                    k,
                    i,
                    j,
                )));
            }
        }
    }
}

/// Having drawn all eight pixels of row `i` is having drawn everything before
/// row `i + 1`.
proof fn lemma_draw_row_done(
    before: Seq<bool>,
    cells: Seq<bool>,
    policy: EdgePolicy,
    origin_col: int,
    origin_row: int,
    sprite: Seq<u8>,
    i: int,
)
    requires
        0 <= origin_col < 64,
        0 <= origin_row < 32,
        0 <= i < sprite.len(),
        drawn_so_far(cells, before, policy, origin_col, origin_row, sprite, i, 8),
    ensures
        drawn_so_far(cells, before, policy, origin_col, origin_row, sprite, i + 1, 0),
        collision_so_far(before, policy, origin_col, origin_row, sprite, i, 8) <==> collision_so_far(
            before,
            policy,
            origin_col,
            origin_row,
            sprite,
            i + 1,
            0,
        ),
{
    let next = i + 1;
    assert forall|k: int|
        #[trigger] drawn_before(policy, origin_col, origin_row, sprite, k, i, 8) <==> drawn_before(
            policy,
            origin_col,
            origin_row,
            sprite,
            k,
            next,
            0,
        ) by {}
    assert forall|k: int| 0 <= k < DISPLAY_CELLS implies cells[k] == (before[k]
        != #[trigger] drawn_before(policy, origin_col, origin_row, sprite, k, next, 0)) by {
        assert(cells[k] == (before[k] != drawn_before(
            policy,
            origin_col,
            origin_row,
            sprite,
            k,
            i,
            8,
        )));
    }
    if collision_so_far(before, policy, origin_col, origin_row, sprite, i, 8) {
        let w = choose|k: int|
            collided_before(before, policy, origin_col, origin_row, sprite, k, i, 8);
        assert(collided_before(before, policy, origin_col, origin_row, sprite, w, next, 0));
    }
    if collision_so_far(before, policy, origin_col, origin_row, sprite, next, 0) {
        let w = choose|k: int|
            collided_before(before, policy, origin_col, origin_row, sprite, k, next, 0);
        assert(collided_before(before, policy, origin_col, origin_row, sprite, w, i, 8));
    }
}

/// Having drawn every row is having drawn the sprite.
proof fn lemma_draw_done(
    before: Seq<bool>,
    cells: Seq<bool>,
    policy: EdgePolicy,
    origin_col: int,
    origin_row: int,
    sprite: Seq<u8>,
)
    requires
        before.len() == DISPLAY_CELLS,
        cells.len() == DISPLAY_CELLS,
        drawn_so_far(
            cells,
            before,
            policy,
            origin_col,
            origin_row,
            sprite,
            sprite.len() as int,
            0,
        ),
    ensures
        cells == blit_pixels(before, policy, origin_col, origin_row, sprite),
        collision_so_far(
            before,
            policy,
            origin_col,
            origin_row,
            sprite,
            sprite.len() as int,
            0,
        ) <==> blit_collides(before, policy, origin_col, origin_row, sprite),
{
    let n = sprite.len() as int;
    assert forall|k: int|
        #[trigger] drawn_before(policy, origin_col, origin_row, sprite, k, n, 0) <==> sprite_covers(
            policy,
            origin_col,
            origin_row,
            sprite,
            k % 64,
            k / 64,
        ) by {}
    assert forall|k: int| 0 <= k < DISPLAY_CELLS implies cells[k] == blit_pixels(
        before,
        policy,
        origin_col,
        origin_row,
        sprite,
    )[k] by {
        assert(cells[k] == (before[k] != drawn_before(
            policy,
            origin_col,
            origin_row,
            sprite,
            k,
            n,
            0,
        )));
    }
    assert(cells =~= blit_pixels(before, policy, origin_col, origin_row, sprite));
    if collision_so_far(before, policy, origin_col, origin_row, sprite, n, 0) {
        let w = choose|k: int|
            collided_before(before, policy, origin_col, origin_row, sprite, k, n, 0);
        assert(collides_at(before, policy, origin_col, origin_row, sprite, w));
    }
    if blit_collides(before, policy, origin_col, origin_row, sprite) {
        let w = choose|k: int| collides_at(before, policy, origin_col, origin_row, sprite, k);
        assert(collided_before(before, policy, origin_col, origin_row, sprite, w, n, 0));
    }
}

/// A 64 by 32 grid of cells, each on or off.
#[derive(Clone, Debug)]
pub struct Display {
    cells: [bool; 2048],
    policy: EdgePolicy,
}

impl View for Display {
    type V = Seq<bool>;

    /// The cells row by row: cell (`col`, `row`) is at `row * 64 + col`.
    closed spec fn view(&self) -> Seq<bool> {
        self.cells@
    }
}

impl Display {
    /// The edge policy this display was created with.
    pub closed spec fn edge_policy(&self) -> EdgePolicy {
        self.policy
    }

    /// A display has 2048 cells.
    pub broadcast proof fn lemma_cell_count(&self)
        ensures
            #[trigger] self@.len() == DISPLAY_CELLS,
    {
    }

    /// A blank display with the given edge policy.
    pub fn new(policy: EdgePolicy) -> (display: Display)
        ensures
            display@ == blank(),
            display.edge_policy() == policy,
    {
        Display { cells: [false; 2048], policy }
    }

    /// The edge policy this display was created with.
    pub fn policy(&self) -> (policy: EdgePolicy)
        ensures
            policy == self.edge_policy(),
    {
        self.policy
    }

    /// The whole grid, row by row.
    pub fn cells(&self) -> (grid: &[bool; 2048])
        ensures
            grid@ == self@,
    {
        &self.cells
    }

    /// Reads the cell in column `col` of row `row`.
    pub fn pixel(&self, col: u8, row: u8) -> (cell: Result<bool, FaultKind>)
        ensures
            col < DISPLAY_WIDTH && row < DISPLAY_HEIGHT ==> cell == Ok::<bool, FaultKind>(
                self@[row * DISPLAY_WIDTH + col],
            ),
            !(col < DISPLAY_WIDTH && row < DISPLAY_HEIGHT) ==> cell == Err::<bool, FaultKind>(
                FaultKind::CellOutOfRange,
            ),
    {
        if (col as usize) < DISPLAY_WIDTH && (row as usize) < DISPLAY_HEIGHT {
            Ok(self.cells[row as usize * DISPLAY_WIDTH + col as usize])
        } else {
            Err(FaultKind::CellOutOfRange)
        }
    }

    /// Turns the cell in column `col` of row `row` on or off.
    pub fn set_pixel(&mut self, col: u8, row: u8, on: bool) -> (written: Result<(), FaultKind>)
        ensures
            col < DISPLAY_WIDTH && row < DISPLAY_HEIGHT ==> written is Ok && final(self)@ == old(
                self,
            )@.update(row * DISPLAY_WIDTH + col, on),
            !(col < DISPLAY_WIDTH && row < DISPLAY_HEIGHT) ==> written == Err::<(), FaultKind>(
                FaultKind::CellOutOfRange,
            ) && final(self)@ == old(self)@,
            final(self).edge_policy() == old(self).edge_policy(),
    {
        if (col as usize) < DISPLAY_WIDTH && (row as usize) < DISPLAY_HEIGHT {
            self.cells[row as usize * DISPLAY_WIDTH + col as usize] = on;
            Ok(())
        } else {
            Err(FaultKind::CellOutOfRange)
        }
    }

    /// Turns every cell off.
    pub fn clear(&mut self)
        ensures
            final(self)@ == blank(),
            final(self).edge_policy() == old(self).edge_policy(),
    {
        self.cells = [false; 2048];
    }

    /// Draws `sprite`, one byte per row and eight pixels per byte, with its
    /// top left corner at column `x % 64` of row `y % 32`. Every set sprite
    /// pixel flips the cell it lands on; pixels past the right or bottom edge
    /// follow the edge policy. Returns whether a cell that was on went off.
    pub fn draw_sprite(&mut self, x: u8, y: u8, sprite: &[u8]) -> (collision: bool)
        requires
            sprite@.len() <= MAX_SPRITE_ROWS,
        ensures
            final(self)@ == blit_pixels(
                old(self)@,
                old(self).edge_policy(),
                x as int % 64,
                y as int % 32,
                sprite@,
            ),
            collision == blit_collides(
                old(self)@,
                old(self).edge_policy(),
                x as int % 64,
                y as int % 32,
                sprite@,
            ),
            final(self).edge_policy() == old(self).edge_policy(),
    {
        let origin_col: usize = (x % 64) as usize;
        let origin_row: usize = (y % 32) as usize;
        let policy = self.policy;
        let ghost before = self.cells@;
        let ghost oc = origin_col as int;
        let ghost or = origin_row as int;
        let mut collision = false;
        let mut i: usize = 0;
        assert(drawn_so_far(self.cells@, before, policy, oc, or, sprite@, 0, 0));
        assert(!collision_so_far(before, policy, oc, or, sprite@, 0, 0));
        while i < sprite.len()
            invariant
                i <= sprite@.len() <= MAX_SPRITE_ROWS,
                oc == origin_col < 64,
                or == origin_row < 32,
                self.policy == policy,
                before.len() == DISPLAY_CELLS,
                drawn_so_far(self.cells@, before, policy, oc, or, sprite@, i as int, 0),
                collision <==> collision_so_far(before, policy, oc, or, sprite@, i as int, 0),
            decreases sprite@.len() - i,
        {
            let bits = u8_to_bits(sprite[i]);
            let mut j: usize = 0;
            while j < 8
                invariant
                    i < sprite@.len() <= MAX_SPRITE_ROWS,
                    j <= 8,
                    oc == origin_col < 64,
                    or == origin_row < 32,
                    self.policy == policy,
                    before.len() == DISPLAY_CELLS,
                    forall|p: int| 0 <= p < 8 ==> bits@[p] == msb_bit(sprite@[i as int], p),
                    drawn_so_far(self.cells@, before, policy, oc, or, sprite@, i as int, j as int),
                    collision <==> collision_so_far(
                        before,
                        policy,
                        oc,
                        or,
                        sprite@,
                        i as int,
                        j as int,
                    ),
                decreases 8 - j,
            {
                let row = origin_row + i;
                let col = origin_col + j;
                let target: Option<usize> = match policy {
                    EdgePolicy::Clip => if row < DISPLAY_HEIGHT && col < DISPLAY_WIDTH {
                        Some(row * DISPLAY_WIDTH + col)
                    } else {
                        None
                    },
                    EdgePolicy::Wrap => Some(
                        (row % DISPLAY_HEIGHT) * DISPLAY_WIDTH + col % DISPLAY_WIDTH,
                    ),
                };
                let ghost cells_before = self.cells@;
                let ghost collision_before = collision;
                assert(pixel_target(policy, oc, or, i as int, j as int) == match target {
                    Some(k) => Some(k as int),
                    None => None::<int>,
                });
                match target {
                    Some(k) => {
                        if bits[j] {
                            if self.cells[k] {
                                collision = true;
                            }
                            self.cells[k] = !self.cells[k];
                        }
                    },
                    None => {},
                }
                proof {
                    lemma_draw_pixel(
                        before,
                        cells_before,
                        self.cells@,
                        policy,
                        oc,
                        or,
                        sprite@,
                        i as int,
                        j as int,
                        collision_before,
                    );
                }
                j += 1;
            }
            proof {
                lemma_draw_row_done(before, self.cells@, policy, oc, or, sprite@, i as int);
            }
            i += 1;
        }
        proof {
            lemma_draw_done(before, self.cells@, policy, oc, or, sprite@);
        }
        collision
    }
}

} // verus!
