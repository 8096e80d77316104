use vstd::prelude::*;
use crate::emulator::machine::{
    cycle_is_random, cycle_spec, execute_spec, fetch_spec, flag, origin, visible_rows, word_at,
    wrap8, Machine, FLAG_REGISTER,
};
use crate::emulator::screen::{
    blit, lemma_blit_clips_at_last_column, lemma_blit_twice_restores, touches,
};
use crate::emulator::memory::{MEMORY_SIZE, STACK_SIZE};
use crate::emulator::opcode::{decode_spec, is_instruction, lemma_decode_fields, Opcode};
use crate::error::Chip8Error;

verus! {

/// Two add-immediate instructions on one register add the sum of their
/// immediates to it, modulo 256, and change nothing else: no flag records the
/// carry.
pub proof fn lemma_add_immediate_accumulates(
    m: Machine,
    first: Opcode,
    second: Opcode,
    keys: Seq<bool>,
    random: u8,
)
    requires
        m.wf(),
        first.wf(),
        second.wf(),
        first.first_nibble == 0x7,
        second.first_nibble == 0x7,
        first.x == second.x,
    ensures
        execute_spec(m, first, keys, random) is Ok,
        execute_spec(execute_spec(m, first, keys, random)->Ok_0, second, keys, random) == Ok::<
            Machine,
            Chip8Error,
        >(
            Machine {
                v: m.v.update(
                    first.x as int,
                    wrap8(m.v[first.x as int] + first.nn + second.nn),
                ),
                ..m
            },
        ),
{
    lemma_decode_fields(first.opcode);
    let x = first.x as int;
    let vx = m.v[x];
    let m1 = execute_spec(m, first, keys, random)->Ok_0;
    assert(m1 == Machine { v: m.v.update(x, wrap8(vx + first.nn)), ..m });
    let m2 = execute_spec(m1, second, keys, random)->Ok_0;
    assert(m2 == Machine { v: m1.v.update(x, wrap8(m1.v[x] + second.nn)), ..m1 });
    lemma_wrap8_absorbs(vx + first.nn, second.nn as int);
    assert(m2.v =~= m.v.update(x, wrap8(vx + first.nn + second.nn)));
}

/// Reducing a sum to 8 bits gives the same whether or not its first part was
/// reduced before.
proof fn lemma_wrap8_absorbs(a: int, b: int)
    requires
        0 <= a < 0x200,
        0 <= b < 0x100,
    ensures
        wrap8(wrap8(a) + b) == wrap8(a + b),
{
}

/// Adding one register to another sets the flag register to 1 if the sum of
/// the two bytes exceeds 255 and to 0 if it does not. Unless the flag
/// register is the target, the target holds the sum modulo 256.
pub proof fn lemma_add_registers_sets_carry(m: Machine, op: Opcode, keys: Seq<bool>, random: u8)
    requires
        m.wf(),
        op.wf(),
        op.first_nibble == 0x8,
        op.n == 4,
    ensures
        execute_spec(m, op, keys, random) is Ok,
        execute_spec(m, op, keys, random)->Ok_0.v[FLAG_REGISTER as int] == flag(
            m.v[op.x as int] + m.v[op.y as int] > 255,
        ),
        op.x != FLAG_REGISTER ==> execute_spec(m, op, keys, random)->Ok_0.v[op.x as int] == wrap8(
            m.v[op.x as int] + m.v[op.y as int],
        ),
{
    lemma_decode_fields(op.opcode);
}

/// Subtracting `Vy` from `Vx`, where `Vx` is not the flag register, sets the
/// flag register to 1 if `Vx` was greater than `Vy` and to 0 if it was not,
/// and leaves the difference modulo 256 in `Vx`.
pub proof fn lemma_subtract_registers_sets_no_borrow(
    m: Machine,
    op: Opcode,
    keys: Seq<bool>,
    random: u8,
)
    requires
        m.wf(),
        op.wf(),
        op.first_nibble == 0x8,
        op.n == 5,
        op.x != FLAG_REGISTER,
    ensures
        execute_spec(m, op, keys, random) is Ok,
        execute_spec(m, op, keys, random)->Ok_0.v[FLAG_REGISTER as int] == flag(
            m.v[op.x as int] > m.v[op.y as int],
        ),
        execute_spec(m, op, keys, random)->Ok_0.v[op.x as int] == wrap8(
            m.v[op.x as int] - m.v[op.y as int],
        ),
{
    lemma_decode_fields(op.opcode);
}

/// A call followed by a return brings the program counter back to where it
/// stood when the call was carried out, which is just past the call, and
/// leaves the stack pointer as it was. The call needs room on the stack.
pub proof fn lemma_call_then_return(
    m: Machine,
    call: Opcode,
    ret: Opcode,
    keys: Seq<bool>,
    random: u8,
)
    requires
        m.wf(),
        call.wf(),
        ret.wf(),
        call.first_nibble == 0x2,
        ret.opcode == 0x00EE,
        m.sp < STACK_SIZE,
    ensures
        execute_spec(m, call, keys, random) is Ok,
        execute_spec(m, call, keys, random)->Ok_0.pc == call.nnn,
        execute_spec(execute_spec(m, call, keys, random)->Ok_0, ret, keys, random) is Ok,
        execute_spec(execute_spec(m, call, keys, random)->Ok_0, ret, keys, random)->Ok_0.pc
            == m.pc,
        execute_spec(execute_spec(m, call, keys, random)->Ok_0, ret, keys, random)->Ok_0.sp
            == m.sp,
{
    lemma_decode_fields(ret.opcode);
}

/// The same round trip as two whole cycles: where the word at the program
/// counter is a call to an address that holds a return, and the stack has
/// room, the two cycles succeed and leave the program counter just past the
/// call and the stack pointer as it was.
pub proof fn lemma_call_return_cycles(m: Machine, keys: Seq<bool>, random: u8)
    requires
        m.wf(),
        m.pc + 1 < MEMORY_SIZE,
        decode_spec(word_at(m.ram, m.pc as int)).first_nibble == 0x2,
        decode_spec(word_at(m.ram, m.pc as int)).nnn + 1 < MEMORY_SIZE,
        word_at(m.ram, decode_spec(word_at(m.ram, m.pc as int)).nnn as int) == 0x00EE,
        m.sp < STACK_SIZE,
    ensures
        cycle_spec(m, keys, random).1 is Ok,
        cycle_spec(cycle_spec(m, keys, random).0, keys, random).1 is Ok,
        cycle_spec(cycle_spec(m, keys, random).0, keys, random).0.pc == m.pc + 2,
        cycle_spec(cycle_spec(m, keys, random).0, keys, random).0.sp == m.sp,
{
    let call = decode_spec(word_at(m.ram, m.pc as int));
    lemma_decode_fields(call.opcode);
    lemma_decode_fields(0x00EE);
    let fetched = fetch_spec(m)->Ok_0.1;
    let called = cycle_spec(m, keys, random).0;
    assert(called == execute_spec(fetched, call, keys, random)->Ok_0);
    assert(called.ram == m.ram);
    assert(called.pc == call.nnn);
}

/// Clearing the screen twice gives what clearing it once gives: a buffer of
/// zeros with the redraw flag set.
pub proof fn lemma_clear_screen_idempotent(m: Machine, op: Opcode, keys: Seq<bool>, random: u8)
    requires
        m.wf(),
        op.wf(),
        op.opcode == 0x00E0,
    ensures
        execute_spec(m, op, keys, random) is Ok,
        execute_spec(m, op, keys, random)->Ok_0.draw_dirty,
        execute_spec(m, op, keys, random)->Ok_0.vram == Seq::new(m.vram.len(), |p: int| 0u8),
        execute_spec(execute_spec(m, op, keys, random)->Ok_0, op, keys, random) == execute_spec(
            m,
            op,
            keys,
            random,
        ),
{
    lemma_decode_fields(op.opcode);
    let once = execute_spec(m, op, keys, random)->Ok_0;
    let twice = execute_spec(once, op, keys, random)->Ok_0;
    assert(twice.vram =~= once.vram);
}

/// A cycle that does not run a random-number instruction comes out the same
/// whatever byte the generator would have given.
pub proof fn lemma_random_byte_matters_only_to_random_instruction(
    m: Machine,
    keys: Seq<bool>,
    first: u8,
    second: u8,
)
    requires
        !cycle_is_random(m),
    ensures
        cycle_spec(m, keys, first) == cycle_spec(m, keys, second),
{
}

/// A word that is no instruction leaves the machine as it is.
pub proof fn lemma_unknown_word_is_ignored(m: Machine, op: Opcode, keys: Seq<bool>, random: u8)
    requires
        m.wf(),
        op.wf(),
        !is_instruction(op),
    ensures
        execute_spec(m, op, keys, random) == Ok::<Machine, Chip8Error>(m),
{
    lemma_decode_fields(op.opcode);
    assert(execute_spec(m, op, keys, random)->Ok_0 =~= m);
}

/// No instruction takes the machine out of its valid states: the parts keep
/// their sizes, the stack pointer stays within the stack, and pixels stay 0
/// or 1. An instruction that fails leaves the machine untouched, so the same
/// holds of a whole cycle.
pub proof fn lemma_execute_preserves_wf(m: Machine, op: Opcode, keys: Seq<bool>, random: u8)
    requires
        m.wf(),
        op.wf(),
    ensures
        execute_spec(m, op, keys, random) matches Ok(after) ==> after.wf() && after.width
            == m.width && after.height == m.height,
{
    lemma_decode_fields(op.opcode);
}

/// A cycle keeps the machine in its valid states, however it ends.
pub proof fn lemma_cycle_preserves_wf(m: Machine, keys: Seq<bool>, random: u8)
    requires
        m.wf(),
    ensures
        cycle_spec(m, keys, random).0.wf(),
{
    if fetch_spec(m) is Ok {
        let word = fetch_spec(m)->Ok_0.0;
        let fetched = fetch_spec(m)->Ok_0.1;
        lemma_decode_fields(word);
        lemma_execute_preserves_wf(fetched, decode_spec(word), keys, random);
    }
}

/// Only clearing the screen and drawing change the pixel buffer or the
/// redraw flag.
pub proof fn lemma_pixels_change_only_by_clear_and_draw(
    m: Machine,
    op: Opcode,
    keys: Seq<bool>,
    random: u8,
)
    requires
        m.wf(),
        op.wf(),
        op.opcode != 0x00E0,
        op.first_nibble != 0xD,
    ensures
        execute_spec(m, op, keys, random) matches Ok(after) ==> after.vram == m.vram
            && after.draw_dirty == m.draw_dirty,
{
    lemma_decode_fields(op.opcode);
}

/// Only the decimal store and the register dump write to memory, only a call
/// writes to the stack's storage, and only the two timer instructions set a
/// timer.
pub proof fn lemma_stores_are_the_only_writers(m: Machine, op: Opcode, keys: Seq<bool>, random: u8)
    requires
        m.wf(),
        op.wf(),
    ensures
        execute_spec(m, op, keys, random) matches Ok(after) ==> {
            &&& after.ram != m.ram ==> op.first_nibble == 0xF && (op.nn == 0x33 || op.nn == 0x55)
            &&& after.stack != m.stack ==> op.first_nibble == 0x2
            &&& after.delay != m.delay ==> op.first_nibble == 0xF && op.nn == 0x15
            &&& after.sound != m.sound ==> op.first_nibble == 0xF && op.nn == 0x18
        },
{
    lemma_decode_fields(op.opcode);
}

/// Dumping registers `V0` to `Vx` and loading them again from the same
/// place brings back what they held, whatever was done to them in between.
pub proof fn lemma_dump_then_load_restores(
    m: Machine,
    dump: Opcode,
    load: Opcode,
    scrambled: Seq<u8>,
    keys: Seq<bool>,
    random: u8,
)
    requires
        m.wf(),
        dump.wf(),
        load.wf(),
        dump.first_nibble == 0xF && dump.nn == 0x55,
        load.first_nibble == 0xF && load.nn == 0x65,
        dump.x == load.x,
        scrambled.len() == m.v.len(),
        m.i + dump.x < MEMORY_SIZE,
    ensures
        execute_spec(m, dump, keys, random) is Ok,
        execute_spec(
            Machine { v: scrambled, ..execute_spec(m, dump, keys, random)->Ok_0 },
            load,
            keys,
            random,
        ) is Ok,
        forall|r: int|
            0 <= r <= dump.x ==> execute_spec(
                Machine { v: scrambled, ..execute_spec(m, dump, keys, random)->Ok_0 },
                load,
                keys,
                random,
            )->Ok_0.v[r] == m.v[r],
{
    lemma_decode_fields(dump.opcode);
}

/// Drawing the same sprite twice at the same place, with coordinates that do
/// not come from the flag register, restores the pixel buffer. If the first
/// drawing changed a pixel and reported no collision, the second reports one.
pub proof fn lemma_draw_twice_restores(m: Machine, op: Opcode, keys: Seq<bool>, random: u8)
    requires
        m.wf(),
        op.wf(),
        op.first_nibble == 0xD,
        op.x != FLAG_REGISTER,
        op.y != FLAG_REGISTER,
        execute_spec(m, op, keys, random) is Ok,
    ensures
        execute_spec(execute_spec(m, op, keys, random)->Ok_0, op, keys, random) is Ok,
        execute_spec(execute_spec(m, op, keys, random)->Ok_0, op, keys, random)->Ok_0.vram
            == m.vram,
        execute_spec(m, op, keys, random)->Ok_0.vram != m.vram && execute_spec(
            m,
            op,
            keys,
            random,
        )->Ok_0.v[FLAG_REGISTER as int] == 0 ==> execute_spec(
            execute_spec(m, op, keys, random)->Ok_0,
            op,
            keys,
            random,
        )->Ok_0.v[FLAG_REGISTER as int] == 1,
{
    lemma_decode_fields(op.opcode);
    let col0 = origin(m.v[op.x as int], m.width);
    let row0 = origin(m.v[op.y as int], m.height);
    let rows = visible_rows(op.n, row0, m.height);
    let sprite = m.ram.subrange(m.i as int, m.i + rows);
    let once = execute_spec(m, op, keys, random)->Ok_0;
    assert(once.vram == blit(m.vram, sprite, m.width as int, row0 as int, col0 as int));
    lemma_blit_twice_restores(m.vram, sprite, m.width as int, row0 as int, col0 as int);
    if !touches(m.vram, sprite, m.width as int, row0 as int, col0 as int) {
        assert(once.vram =~= m.vram);
    }
}

/// A sprite drawn with its corner in the last column changes pixels of that
/// column only: it is cut off at the edge and does not come back in at
/// column 0. The buffer keeps its length, so nothing is written outside it.
pub proof fn lemma_draw_at_last_column_clips(
    m: Machine,
    op: Opcode,
    keys: Seq<bool>,
    random: u8,
    p: int,
)
    requires
        m.wf(),
        op.wf(),
        op.first_nibble == 0xD,
        m.width > 0,
        origin(m.v[op.x as int], m.width) == m.width - 1,
        0 <= p < m.vram.len(),
        p % (m.width as int) != m.width - 1,
    ensures
        execute_spec(m, op, keys, random) matches Ok(after) ==> after.vram.len() == m.vram.len()
            && after.vram[p] == m.vram[p],
{
    lemma_decode_fields(op.opcode);
    let row0 = origin(m.v[op.y as int], m.height);
    let rows = visible_rows(op.n, row0, m.height);
    let sprite = m.ram.subrange(m.i as int, m.i + rows);
    lemma_blit_clips_at_last_column(
        m.vram,
        sprite,
        m.width as int,
        m.height as int,
        row0 as int,
        p,
    );
}

} // verus!
