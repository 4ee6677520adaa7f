//! Laws of the instruction set, proved from the semantics in
//! [`crate::engine`] and [`crate::display`].

use vstd::prelude::*;
use crate::bits::msb_bit;
use crate::display::{
    blank, blit_collides, blit_pixels, collides_at, lemma_target_is_offset, pixel_target,
    sprite_covers, sprite_offset, EdgePolicy, DISPLAY_CELLS, MAX_SPRITE_ROWS,
};
use crate::engine::{draw_column, draw_row, draw_sprite_bytes, execute_spec};
use crate::fault::FaultKind;
use crate::instruction::{n_of, nn_of, nnn_of, opcode_of, x_of, y_of};
use crate::machine::{after_release, State, FLAG_REGISTER, MEMORY_SIZE, STACK_LIMIT};
use crate::scheduler::{batch_spec, lemma_batch_halts, Progress};

verus! {

/// The flag of an addition or subtraction is exactly the carry or the
/// no-borrow bit.
///
/// After `8XY4` the flag register holds 1 if VX + VY exceeded 255 and else 0;
/// after `8XY5`, 1 if VX >= VY and else 0; after `8XY7`, 1 if VY >= VX and
/// else 0. This holds whichever registers X and Y name, the same register
/// and the flag register included. Unless X names the flag register, VX
/// holds the sum or difference modulo 256.
pub proof fn lemma_flag_is_carry_or_no_borrow(
    state: State,
    word: u16,
    keys: Seq<bool>,
    random: u8,
)
    requires
        state.wf(),
        opcode_of(word) == 0x8,
        n_of(word) == 0x4 || n_of(word) == 0x5 || n_of(word) == 0x7,
    ensures
        execute_spec(state, word, keys, random) matches Ok(next) && {
            let vx = state.registers[x_of(word) as int];
            let vy = state.registers[y_of(word) as int];
            let flag = next.registers[FLAG_REGISTER as int];
            let result = next.registers[x_of(word) as int];
            &&& n_of(word) == 0x4 ==> flag == (if vx + vy > 255 {
                1u8
            } else {
                0u8
            })
            &&& n_of(word) == 0x5 ==> flag == (if vx >= vy {
                1u8
            } else {
                0u8
            })
            &&& n_of(word) == 0x7 ==> flag == (if vy >= vx {
                1u8
            } else {
                0u8
            })
            &&& x_of(word) != FLAG_REGISTER && n_of(word) == 0x4 ==> result == (vx + vy) % 256
            &&& x_of(word) != FLAG_REGISTER && n_of(word) == 0x5 ==> result == (vx - vy) % 256
            &&& x_of(word) != FLAG_REGISTER && n_of(word) == 0x7 ==> result == (vy - vx) % 256
        },
{
}

/// Storing registers and loading them back restores them.
///
/// If `FX55` stores V0 to VX, then `FX65` with the same X and the same index
/// pointer gives V0 to VX the values they had at the store, whatever the
/// registers held in between.
pub proof fn lemma_store_then_load_restores(
    state: State,
    store: u16,
    load: u16,
    between: Seq<u8>,
    keys: Seq<bool>,
    random: u8,
)
    requires
        state.wf(),
        between.len() == state.registers.len(),
        opcode_of(store) == 0xF,
        nn_of(store) == 0x55,
        opcode_of(load) == 0xF,
        nn_of(load) == 0x65,
        x_of(load) == x_of(store),
        state.index + x_of(store) < MEMORY_SIZE,
    ensures
        execute_spec(state, store, keys, random) matches Ok(stored) && execute_spec(
            State { registers: between, ..stored },
            load,
            keys,
            random,
        ) matches Ok(loaded) && forall|r: int|
            0 <= r <= x_of(store) ==> loaded.registers[r] == state.registers[r],
{
}

/// Clearing the display twice is clearing it once.
///
/// `00E0` leaves every cell off, and a second `00E0` leaves the display as
/// the first one did.
pub proof fn lemma_clear_is_idempotent(state: State, keys: Seq<bool>, random: u8)
    requires
        state.wf(),
    ensures
        execute_spec(state, 0x00E0, keys, random) matches Ok(once) && execute_spec(
            once,
            0x00E0,
            keys,
            random,
        ) matches Ok(twice) && once.pixels == blank() && twice.pixels == once.pixels && (forall|
            k: int,
        |
            0 <= k < DISPLAY_CELLS ==> !once.pixels[k]),
{
}

/// Whether row `i`, column `j` of `sprite` is a set pixel that lands on the
/// display when the sprite is drawn at (`column`, `row`).
pub open spec fn lands_lit(
    policy: EdgePolicy,
    column: int,
    row: int,
    sprite: Seq<u8>,
    i: int,
    j: int,
) -> bool {
    0 <= i < sprite.len() && 0 <= j < 8 && msb_bit(sprite[i], j) && pixel_target(
        policy,
        column,
        row,
        i,
        j,
    ) is Some
}

/// Every set sprite pixel flips the cell it lands on, and no other cell
/// changes.
///
/// Under the clip policy the pixels past the right or the bottom edge land
/// nowhere; under the wrap policy they land at the opposite edge.
pub proof fn lemma_blit_flips_targets(
    pixels: Seq<bool>,
    policy: EdgePolicy,
    column: int,
    row: int,
    sprite: Seq<u8>,
    k: int,
)
    requires
        pixels.len() == DISPLAY_CELLS,
        0 <= column < 64,
        0 <= row < 32,
        sprite.len() <= MAX_SPRITE_ROWS,
        0 <= k < DISPLAY_CELLS,
    ensures
        blit_pixels(pixels, policy, column, row, sprite)[k] == !pixels[k] <==> exists|
            i: int,
            j: int,
        |
            #![trigger pixel_target(policy, column, row, i, j)]
            lands_lit(policy, column, row, sprite, i, j) && pixel_target(policy, column, row, i, j)
                == Some(k),
{
    let i = sprite_offset(policy, row, k / 64, 32);
    let j = sprite_offset(policy, column, k % 64, 64);
    if sprite_covers(policy, column, row, sprite, k % 64, k / 64) {
        lemma_target_is_offset(policy, column, row, i, j, k);
        assert(lands_lit(policy, column, row, sprite, i, j) && pixel_target(
            policy,
            column,
            row,
            i,
            j,
        ) == Some(k));
    }
    if exists|i: int, j: int|
        #![trigger pixel_target(policy, column, row, i, j)]
        lands_lit(policy, column, row, sprite, i, j) && pixel_target(policy, column, row, i, j)
            == Some(k) {
        let (wi, wj) = choose|i: int, j: int|
            #![trigger pixel_target(policy, column, row, i, j)]
            lands_lit(policy, column, row, sprite, i, j) && pixel_target(
                policy,
                column,
                row,
                i,
                j,
            ) == Some(k);
        lemma_target_is_offset(policy, column, row, wi, wj, k);
    }
}

/// Under the clip policy no cell to the left of the sprite's origin or above
/// it changes: what falls past the right or bottom edge does not come back
/// at the opposite one.
pub proof fn lemma_clip_keeps_cells_before_origin(
    pixels: Seq<bool>,
    column: int,
    row: int,
    sprite: Seq<u8>,
    k: int,
)
    requires
        pixels.len() == DISPLAY_CELLS,
        0 <= k < DISPLAY_CELLS,
        k % 64 < column || k / 64 < row,
    ensures
        blit_pixels(pixels, EdgePolicy::Clip, column, row, sprite)[k] == pixels[k],
{
}

/// Under the wrap policy a set sprite pixel that falls past the right or the
/// bottom edge flips the cell that many places in from the opposite edge.
pub proof fn lemma_wrap_carries_pixels_over(
    pixels: Seq<bool>,
    column: int,
    row: int,
    sprite: Seq<u8>,
    i: int,
    j: int,
)
    requires
        pixels.len() == DISPLAY_CELLS,
        0 <= column < 64,
        0 <= row < 32,
        sprite.len() <= MAX_SPRITE_ROWS,
        0 <= i < sprite.len(),
        0 <= j < 8,
        msb_bit(sprite[i], j),
    ensures
        ({
            let landing = ((row + i) % 32) * 64 + (column + j) % 64;
            blit_pixels(pixels, EdgePolicy::Wrap, column, row, sprite)[landing] == !pixels[landing]
        }),
{
    let landing = ((row + i) % 32) * 64 + (column + j) % 64;
    lemma_target_is_offset(EdgePolicy::Wrap, column, row, i, j, landing);
}

/// Drawing a sprite a second time undoes the first drawing.
pub proof fn lemma_blit_twice_restores(
    pixels: Seq<bool>,
    policy: EdgePolicy,
    column: int,
    row: int,
    sprite: Seq<u8>,
)
    requires
        pixels.len() == DISPLAY_CELLS,
    ensures
        blit_pixels(
            blit_pixels(pixels, policy, column, row, sprite),
            policy,
            column,
            row,
            sprite,
        ) == pixels,
{
    assert(blit_pixels(
        blit_pixels(pixels, policy, column, row, sprite),
        policy,
        column,
        row,
        sprite,
    ) =~= pixels);
}

/// Drawing a sprite twice on a blank display collides the second time, and
/// not the first.
///
/// The sprite must have a set pixel that lands on the display. Under the
/// wrap policy every set pixel does; under the clip policy a sprite whose set
/// pixels all lie past an edge draws nothing, and collides with nothing.
pub proof fn lemma_redraw_collides(policy: EdgePolicy, column: int, row: int, sprite: Seq<u8>)
    requires
        0 <= column < 64,
        0 <= row < 32,
        sprite.len() <= MAX_SPRITE_ROWS,
        exists|i: int, j: int| lands_lit(policy, column, row, sprite, i, j),
    ensures
        !blit_collides(blank(), policy, column, row, sprite),
        blit_collides(
            blit_pixels(blank(), policy, column, row, sprite),
            policy,
            column,
            row,
            sprite,
        ),
{
    assert forall|k: int| !#[trigger] collides_at(blank(), policy, column, row, sprite, k) by {}
    let (i, j) = choose|i: int, j: int| lands_lit(policy, column, row, sprite, i, j);
    let k = pixel_target(policy, column, row, i, j)->Some_0;
    lemma_target_is_offset(policy, column, row, i, j, k);
    let first = blit_pixels(blank(), policy, column, row, sprite);
    assert(sprite_covers(policy, column, row, sprite, k % 64, k / 64));
    assert(first[k]);
    assert(collides_at(first, policy, column, row, sprite, k));
}

/// Under the wrap policy every sprite pixel lands on the display, so a
/// sprite with a byte that is not zero has a set pixel that lands.
pub proof fn lemma_wrapped_sprite_lands(column: int, row: int, sprite: Seq<u8>, i: int)
    requires
        0 <= i < sprite.len(),
        sprite[i] != 0,
    ensures
        exists|r: int, j: int| lands_lit(EdgePolicy::Wrap, column, row, sprite, r, j),
{
    let byte = sprite[i];
    assert(byte != 0 ==> (byte >> 7u8) & 1u8 == 1u8 || (byte >> 6u8) & 1u8 == 1u8 || (byte >> 5u8)
        & 1u8 == 1u8 || (byte >> 4u8) & 1u8 == 1u8 || (byte >> 3u8) & 1u8 == 1u8 || (byte >> 2u8)
        & 1u8 == 1u8 || (byte >> 1u8) & 1u8 == 1u8 || (byte >> 0u8) & 1u8 == 1u8) by (bit_vector);
    if msb_bit(byte, 0) {
        assert(lands_lit(EdgePolicy::Wrap, column, row, sprite, i, 0));
    } else if msb_bit(byte, 1) {
        assert(lands_lit(EdgePolicy::Wrap, column, row, sprite, i, 1));
    } else if msb_bit(byte, 2) {
        assert(lands_lit(EdgePolicy::Wrap, column, row, sprite, i, 2));
    } else if msb_bit(byte, 3) {
        assert(lands_lit(EdgePolicy::Wrap, column, row, sprite, i, 3));
    } else if msb_bit(byte, 4) {
        assert(lands_lit(EdgePolicy::Wrap, column, row, sprite, i, 4));
    } else if msb_bit(byte, 5) {
        assert(lands_lit(EdgePolicy::Wrap, column, row, sprite, i, 5));
    } else if msb_bit(byte, 6) {
        assert(lands_lit(EdgePolicy::Wrap, column, row, sprite, i, 6));
    } else {
        assert(msb_bit(byte, 7));
        assert(lands_lit(EdgePolicy::Wrap, column, row, sprite, i, 7));
    }
}

/// The instruction `DXYN`, executed twice on a blank display with the same
/// origin, clears the flag register the first time and sets it the second
/// time, and leaves the display blank again.
///
/// The sprite must have a set pixel that lands on the display, and the
/// second drawing must have the origin of the first: the first drawing writes
/// the flag register, so where X or Y names it, its old value must give the
/// origin that zero gives.
pub proof fn lemma_draw_twice_sets_flag(state: State, word: u16, keys: Seq<bool>, random: u8)
    requires
        state.wf(),
        opcode_of(word) == 0xD,
        state.pixels == blank(),
        state.index + n_of(word) <= MEMORY_SIZE,
        x_of(word) == FLAG_REGISTER ==> state.registers[FLAG_REGISTER as int] % 64 == 0,
        y_of(word) == FLAG_REGISTER ==> state.registers[FLAG_REGISTER as int] % 32 == 0,
        exists|i: int, j: int|
            lands_lit(
                state.policy,
                draw_column(state, x_of(word) as int),
                draw_row(state, y_of(word) as int),
                draw_sprite_bytes(state, n_of(word) as int),
                i,
                j,
            ),
    ensures
        execute_spec(state, word, keys, random) matches Ok(first) && execute_spec(
            first,
            word,
            keys,
            random,
        ) matches Ok(second) && first.registers[FLAG_REGISTER as int] == 0
            && second.registers[FLAG_REGISTER as int] == 1 && second.pixels == blank(),
{
    let column = draw_column(state, x_of(word) as int);
    let row = draw_row(state, y_of(word) as int);
    let sprite = draw_sprite_bytes(state, n_of(word) as int);
    lemma_redraw_collides(state.policy, column, row, sprite);
    lemma_blit_twice_restores(state.pixels, state.policy, column, row, sprite);
}

/// A call overflows the stack exactly when sixteen return addresses are on
/// it; any other call puts one more on it.
pub proof fn lemma_call_overflows_when_full(state: State, word: u16, keys: Seq<bool>, random: u8)
    requires
        state.wf(),
        opcode_of(word) == 0x2,
    ensures
        state.stack.len() == STACK_LIMIT <==> execute_spec(state, word, keys, random) == Err::<
            State,
            FaultKind,
        >(FaultKind::StackOverflow),
        state.stack.len() < STACK_LIMIT ==> (execute_spec(state, word, keys, random) matches Ok(
            next,
        ) && next.stack.len() == state.stack.len() + 1),
{
}

/// While the key-wait latch is pending, a batch retires nothing and changes
/// nothing.
pub proof fn lemma_pending_latch_suspends(
    state: State,
    keys: Seq<bool>,
    draws: Seq<u8>,
    budget: nat,
)
    requires
        state.key_wait is Some,
    ensures
        batch_spec(state, keys, draws, budget) == (Progress {
            state,
            retired: 0,
            fault: None,
        }),
{
    lemma_batch_halts(state, keys, draws, 0, budget);
}

/// The instruction `FX0A` suspends the machine until a key is released, and
/// the released key's code is then in VX.
///
/// After `FX0A` the latch is pending for register X and no batch retires
/// anything; once a key is released, its code is in VX and the latch is idle.
pub proof fn lemma_key_wait_suspends_until_release(
    state: State,
    word: u16,
    key: u8,
    keys: Seq<bool>,
    draws: Seq<u8>,
    budget: nat,
    random: u8,
)
    requires
        state.wf(),
        opcode_of(word) == 0xF,
        nn_of(word) == 0x0A,
    ensures
        execute_spec(state, word, keys, random) matches Ok(waiting) && waiting.key_wait == Some(
            x_of(word),
        ) && batch_spec(waiting, keys, draws, budget) == (Progress {
            state: waiting,
            retired: 0,
            fault: None,
        }) && after_release(waiting, key).key_wait is None && after_release(
            waiting,
            key,
        ).registers[x_of(word) as int] == key,
{
    let waiting = execute_spec(state, word, keys, random)->Ok_0;
    lemma_pending_latch_suspends(waiting, keys, draws, budget);
}

/// Whether the program counter and every return address of `state` are
/// even.
pub open spec fn word_aligned(state: State) -> bool {
    state.pc % 2 == 0 && forall|d: int| 0 <= d < state.stack.len() ==> state.stack[d] % 2 == 0
}

/// The program counter stays word-aligned as long as jumps name even
/// addresses.
///
/// An instruction that retires on an aligned state leaves the state aligned,
/// unless it is a jump or a call (`1NNN`, `2NNN`, `BNNN`) to an odd address.
pub proof fn lemma_alignment_is_kept(state: State, word: u16, keys: Seq<bool>, random: u8)
    requires
        state.wf(),
        word_aligned(state),
        opcode_of(word) == 0x1 || opcode_of(word) == 0x2 ==> nnn_of(word) % 2 == 0,
        opcode_of(word) == 0xB ==> (nnn_of(word) + state.registers[0]) % 2 == 0,
    ensures
        execute_spec(state, word, keys, random) matches Ok(next) ==> word_aligned(next),
{
}

} // verus!
