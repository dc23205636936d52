//! What holds of the machine whatever program it runs, proved over the model.

use vstd::prelude::*;
use crate::instruction::nibble;
use crate::screen::{draw_sprite, screen_wf, sprite_collides, sprite_hits};
use crate::state::{lemma_highest_pressed, Fault, MachineState};

verus! {

/// Whether the pixel `(px, py)` is off in `before` and on in `after`.
pub open spec fn turned_on(before: Seq<Seq<bool>>, after: Seq<Seq<bool>>, px: int, py: int) -> bool {
    !before[px][py] && after[px][py]
}

/// Drawing a sprite twice at the same place gives back the framebuffer as it
/// was, and the second draw collides exactly if the first one turned some
/// pixel on.
pub proof fn law_draw_twice(screen: Seq<Seq<bool>>, sprite: Seq<u8>, x0: int, y0: int)
    requires
        screen_wf(screen),
    ensures
        draw_sprite(draw_sprite(screen, sprite, x0, y0), sprite, x0, y0) == screen,
        sprite_collides(draw_sprite(screen, sprite, x0, y0), sprite, x0, y0) <==> exists|
            px: int,
            py: int,
        |
            0 <= px < 64 && 0 <= py < 32 && #[trigger] turned_on(
                screen,
                draw_sprite(screen, sprite, x0, y0),
                px,
                py,
            ),
{
    let once = draw_sprite(screen, sprite, x0, y0);
    let twice = draw_sprite(once, sprite, x0, y0);
    assert forall|px: int, py: int| 0 <= px < 64 && 0 <= py < 32 implies #[trigger] twice[px][py]
        == screen[px][py] by {}
    assert(twice =~~= screen);
    if sprite_collides(once, sprite, x0, y0) {
        let (px, py) = choose|px: int, py: int|
            0 <= px < 64 && 0 <= py < 32 && #[trigger] sprite_hits(once, sprite, x0, y0, px, py);
        assert(turned_on(screen, once, px, py));
    }
    if exists|px: int, py: int|
        0 <= px < 64 && 0 <= py < 32 && #[trigger] turned_on(screen, once, px, py) {
        let (px, py) = choose|px: int, py: int|
            0 <= px < 64 && 0 <= py < 32 && #[trigger] turned_on(screen, once, px, py);
        assert(sprite_hits(once, sprite, x0, y0, px, py));
    }
}

/// The draw instruction executed twice in a row, with coordinates from
/// registers other than the flag register, leaves the framebuffer as it was.
/// After the second draw the flag register is 1 exactly if the first draw
/// turned some pixel on.
pub proof fn law_display_twice(s: MachineState, x: u8, y: u8, n: u8)
    requires
        s.wf(),
        x < 15,
        y < 15,
        n < 16,
        s.i + n <= 4096,
    ensures
        s.display(x, y, n).display(x, y, n).screen == s.screen,
        s.display(x, y, n).display(x, y, n).pc == s.pc + 4,
        s.display(x, y, n).display(x, y, n).v(0xF) == 1 <==> exists|px: int, py: int|
            0 <= px < 64 && 0 <= py < 32 && #[trigger] turned_on(
                s.screen,
                s.display(x, y, n).screen,
                px,
                py,
            ),
        s.display(x, y, n).display(x, y, n).v(0xF) == 0 || s.display(x, y, n).display(x, y, n).v(
            0xF,
        ) == 1,
{
    let once = s.display(x, y, n);
    assert(once.sprite(n) == s.sprite(n));
    assert(once.v(x) == s.v(x));
    assert(once.v(y) == s.v(y));
    law_draw_twice(s.screen, s.sprite(n), s.v(x) as int % 64, s.v(y) as int % 32);
}

/// Every instruction that defines a carry, borrow, shifted-out bit or
/// collision leaves exactly 0 or 1 in the flag register.
pub proof fn law_flag_is_a_bit(s: MachineState, x: u8, y: u8, n: u8)
    requires
        s.wf(),
        x < 16,
        y < 16,
    ensures
        s.add_reg(x, y).v(0xF) <= 1,
        s.sub_reg(x, y).v(0xF) <= 1,
        s.shr(x, y).v(0xF) <= 1,
        s.subn(x, y).v(0xF) <= 1,
        s.shl(x, y).v(0xF) <= 1,
        s.display(x, y, n).v(0xF) <= 1,
{
}

/// An instruction that can be executed leaves the state well formed: in
/// particular the call stack never holds more than sixteen return addresses.
pub proof fn law_execute_keeps_wf(s: MachineState, raw: u16, byte: u8)
    requires
        s.ready(),
        s.fault_of(raw) is None,
    ensures
        s.execute(raw, byte).wf(),
        0 <= s.execute(raw, byte).depth() <= 16,
{
    lemma_highest_pressed(s.key_map, 16);
}

/// A cycle that can run leaves the state well formed: in particular the call
/// stack never holds more than sixteen return addresses.
pub proof fn law_cycle_keeps_wf(s: MachineState, key_map: Seq<bool>, byte: u8)
    requires
        s.wf(),
        key_map.len() == 16,
        s.fault() is None,
    ensures
        s.cycle(key_map, byte).wf(),
        0 <= s.cycle(key_map, byte).depth() <= 16,
{
    let ticked = s.tick(key_map);
    assert(ticked.fault_of(ticked.fetch()) == s.fault_of(s.fetch()));
    law_execute_keeps_wf(ticked, ticked.fetch(), byte);
}

/// The state after one cycle for each of `inputs`, a key map and a random
/// byte, in their order.
pub open spec fn cycles(s: MachineState, inputs: Seq<(Seq<bool>, u8)>) -> MachineState
    decreases inputs.len(),
{
    if inputs.len() == 0 {
        s
    } else {
        cycles(s, inputs.drop_last()).cycle(inputs.last().0, inputs.last().1)
    }
}

/// Whether each of the cycles for `inputs` can run in the state that the
/// cycles before it lead to.
pub open spec fn cycles_can_run(s: MachineState, inputs: Seq<(Seq<bool>, u8)>) -> bool
    decreases inputs.len(),
{
    inputs.len() == 0 || (cycles_can_run(s, inputs.drop_last()) && inputs.last().0.len() == 16
        && cycles(s, inputs.drop_last()).fault() is None)
}

/// However many cycles run, the state stays well formed and the call stack
/// never holds more than sixteen return addresses.
pub proof fn law_cycles_keep_wf(s: MachineState, inputs: Seq<(Seq<bool>, u8)>)
    requires
        s.wf(),
        cycles_can_run(s, inputs),
    ensures
        cycles(s, inputs).wf(),
        0 <= cycles(s, inputs).depth() <= 16,
    decreases inputs.len(),
{
    if inputs.len() > 0 {
        law_cycles_keep_wf(s, inputs.drop_last());
        law_cycle_keeps_wf(cycles(s, inputs.drop_last()), inputs.last().0, inputs.last().1);
    }
}

/// A call with sixteen return addresses on the stack is a fault, not a
/// seventeenth entry.
pub proof fn law_call_on_full_stack(s: MachineState)
    requires
        s.wf(),
        s.fetchable(),
        s.fetch() / 0x1000 == 0x2,
        s.depth() == 16,
    ensures
        s.fault() == Some(Fault::StackOverflow),
{
}

/// A return with nothing on the stack is a fault.
pub proof fn law_return_on_empty_stack(s: MachineState)
    requires
        s.wf(),
        s.fetchable(),
        s.fetch() == 0x00EE,
        s.depth() == 0,
    ensures
        s.fault() == Some(Fault::StackUnderflow),
{
}

/// An even address from 0x200 to 0xFFF: where an instruction of a program
/// can stand.
pub open spec fn valid_pc(pc: int) -> bool {
    pc % 2 == 0 && 0x200 <= pc <= 0xFFF
}

/// Whether a return to the instruction after the call at `address` lands on
/// a valid address.
pub open spec fn valid_return(address: u16) -> bool {
    valid_pc(address + 2)
}

/// The program counter is on a valid address and so is every instruction
/// that a return can lead to.
pub open spec fn control_ok(s: MachineState) -> bool {
    &&& valid_pc(s.pc)
    &&& forall|k: int| 0 <= k <= s.sp ==> valid_return(#[trigger] s.stack[k])
}

/// A transfer of control.
pub enum Branch {
    Jump(u16),
    Call(u16),
    Return,
}

/// Whether a well-formed program can hold the branch `b` at the program
/// counter of `s`: its target is a valid address, a call has room on the
/// stack and an instruction behind it to return to, and a return has a call
/// that it belongs to.
pub open spec fn branch_ok(s: MachineState, b: Branch) -> bool {
    match b {
        Branch::Jump(nnn) => valid_pc(nnn as int),
        Branch::Call(nnn) => valid_pc(nnn as int) && s.depth() < 16 && valid_pc(s.pc + 2),
        Branch::Return => s.depth() > 0,
    }
}

/// The state after the branch `b`.
pub open spec fn branch(s: MachineState, b: Branch) -> MachineState {
    match b {
        Branch::Jump(nnn) => s.jump(nnn),
        Branch::Call(nnn) => s.call(nnn),
        Branch::Return => s.ret(),
    }
}

/// The state after the branches `bs`, taken one after the other.
pub open spec fn branches(s: MachineState, bs: Seq<Branch>) -> MachineState
    decreases bs.len(),
{
    if bs.len() == 0 {
        s
    } else {
        branch(branches(s, bs.drop_last()), bs.last())
    }
}

/// Whether each of the branches `bs` is one that a well-formed program can
/// hold, in the state in which it is taken.
pub open spec fn branches_ok(s: MachineState, bs: Seq<Branch>) -> bool
    decreases bs.len(),
{
    bs.len() == 0 || (branches_ok(s, bs.drop_last()) && branch_ok(
        branches(s, bs.drop_last()),
        bs.last(),
    ))
}

/// A jump, call or return of a well-formed program leads to an even address
/// from 0x200 to 0xFFF, and keeps every return address such that the return
/// leads to one.
pub proof fn law_branch_keeps_control(s: MachineState, b: Branch)
    requires
        s.wf(),
        control_ok(s),
        branch_ok(s, b),
    ensures
        branch(s, b).wf(),
        control_ok(branch(s, b)),
        valid_pc(branch(s, b).pc),
{
}

/// Any sequence of jumps, calls and returns of a well-formed program leaves
/// the program counter on an even address from 0x200 to 0xFFF.
pub proof fn law_branches_keep_control(s: MachineState, bs: Seq<Branch>)
    requires
        s.wf(),
        control_ok(s),
        branches_ok(s, bs),
    ensures
        branches(s, bs).wf(),
        control_ok(branches(s, bs)),
        valid_pc(branches(s, bs).pc),
    decreases bs.len(),
{
    if bs.len() > 0 {
        law_branches_keep_control(s, bs.drop_last());
        law_branch_keeps_control(branches(s, bs.drop_last()), bs.last());
    }
}

/// Whether `raw` is the instruction that waits for a key.
pub open spec fn is_get_key(raw: u16) -> bool {
    raw / 0x1000 == 0xF && raw % 0x100 == 0x0A
}

/// Whether none of the sixteen keys is pressed.
pub open spec fn no_key_pressed(keys: Seq<bool>) -> bool {
    forall|k: int| 0 <= k < 16 ==> !keys[k]
}

/// While the machine waits for a key and none is pressed, cycle after cycle
/// leaves the program counter, the memory, the registers and the stack as
/// they are: the same instruction is still to be executed.
pub proof fn law_get_key_waits(s: MachineState, inputs: Seq<(Seq<bool>, u8)>)
    requires
        s.ready(),
        is_get_key(s.fetch()),
        forall|j: int|
            0 <= j < inputs.len() ==> (#[trigger] inputs[j]).0.len() == 16 && no_key_pressed(
                inputs[j].0,
            ),
    ensures
        cycles(s, inputs).ready(),
        cycles(s, inputs).pc == s.pc,
        cycles(s, inputs).memory == s.memory,
        cycles(s, inputs).registers == s.registers,
        cycles(s, inputs).stack == s.stack,
        cycles(s, inputs).sp == s.sp,
        cycles(s, inputs).i == s.i,
        cycles(s, inputs).screen == s.screen,
        cycles(s, inputs).fetch() == s.fetch(),
    decreases inputs.len(),
{
    if inputs.len() > 0 {
        let earlier = inputs.drop_last();
        law_get_key_waits(s, earlier);
        let keys = inputs.last().0;
        assert(keys.len() == 16 && no_key_pressed(keys));
        lemma_highest_pressed(keys, 16);
    }
}

/// Once a key is pressed, the cycle that executes the waiting instruction
/// puts the highest pressed key in VX and steps the program counter once.
pub proof fn law_get_key_resumes(s: MachineState, keys: Seq<bool>, byte: u8)
    requires
        s.ready(),
        is_get_key(s.fetch()),
        keys.len() == 16,
        !no_key_pressed(keys),
    ensures
        s.cycle(keys, byte).pc == s.pc + 2,
        s.cycle(keys, byte).v(nibble(s.fetch(), 1)) < 16,
        keys[s.cycle(keys, byte).v(nibble(s.fetch(), 1)) as int],
        forall|k: int| s.cycle(keys, byte).v(nibble(s.fetch(), 1)) < k < 16 ==> !keys[k],
{
    lemma_highest_pressed(keys, 16);
}

/// The timers go on ticking while the machine waits for a key.
pub proof fn law_timers_tick_while_waiting(s: MachineState, keys: Seq<bool>, byte: u8)
    requires
        s.ready(),
        is_get_key(s.fetch()),
        keys.len() == 16,
        no_key_pressed(keys),
    ensures
        s.cycle(keys, byte) == s.tick(keys),
        s.delay_timer > 0 ==> s.cycle(keys, byte).delay_timer == s.delay_timer - 1,
        s.sound_timer > 0 ==> s.cycle(keys, byte).sound_timer == s.sound_timer - 1,
{
    lemma_highest_pressed(keys, 16);
}

} // verus!
