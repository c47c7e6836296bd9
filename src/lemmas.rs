use vstd::prelude::*;

use crate::chip8::{Error, Quirks, State};
use crate::instruction::{decode, lemma_decode_in_range};
use crate::model::{
    addr, fetch, first_pressed, initial_view, key_view, ok, stack_pop, stack_push, step_view,
    timer_view, toggle_view, valid, MachineView,
};

verus! {

/// Pushes each of `vals` in turn, stopping at the first failure.
pub open spec fn push_all(s: Seq<u16>, vals: Seq<u16>) -> Result<Seq<u16>, Error>
    decreases vals.len(),
{
    if vals.len() == 0 {
        Ok(s)
    } else {
        match push_all(s, vals.drop_last()) {
            Ok(t) => stack_push(t, vals.last()),
            Err(e) => Err(e),
        }
    }
}

/// Pops `n` times, collecting the values in the order they came off.
pub open spec fn pop_n(s: Seq<u16>, n: nat) -> Result<(Seq<u16>, Seq<u16>), Error>
    decreases n,
{
    if n == 0 {
        Ok((Seq::empty(), s))
    } else {
        match stack_pop(s) {
            Ok((v, t)) => match pop_n(t, (n - 1) as nat) {
                Ok((vs, u)) => Ok((seq![v] + vs, u)),
                Err(e) => Err(e),
            },
            Err(e) => Err(e),
        }
    }
}

/// The stack is last in, first out: pushing values that fit, then popping
/// as many, hands them back in reverse order and leaves the stack as it
/// was.
pub proof fn lemma_stack_lifo(s: Seq<u16>, vals: Seq<u16>)
    requires
        s.len() + vals.len() <= 16,
    ensures
        push_all(s, vals) == Ok::<Seq<u16>, Error>(s + vals),
        pop_n(s + vals, vals.len()) == Ok::<(Seq<u16>, Seq<u16>), Error>((vals.reverse(), s)),
    decreases vals.len(),
{
    if vals.len() > 0 {
        let front = vals.drop_last();
        lemma_stack_lifo(s, front);
        assert((s + front).push(vals.last()) =~= s + vals);
        let whole = s + vals;
        assert(whole.last() == vals.last());
        assert(whole.drop_last() =~= s + front);
        assert(seq![vals.last()] + front.reverse() =~= vals.reverse());
    }
}

/// Pushes beyond sixteen entries fail with StackOverflow.
pub proof fn lemma_stack_overflow(s: Seq<u16>, vals: Seq<u16>)
    requires
        s.len() <= 16,
        s.len() + vals.len() > 16,
    ensures
        push_all(s, vals) == Err::<Seq<u16>, Error>(Error::StackOverflow),
    decreases vals.len(),
{
    let front = vals.drop_last();
    if s.len() + front.len() > 16 {
        lemma_stack_overflow(s, front);
    } else {
        lemma_stack_lifo(s, front);
    }
}

/// A pop from the empty stack fails with EmptyStack.
pub proof fn lemma_pop_empty()
    ensures
        stack_pop(Seq::empty()) == Err::<(u16, Seq<u16>), Error>(Error::EmptyStack),
{
}

/// Runs one step per byte of `rnds`, stopping at the first error.
pub open spec fn run(m: MachineView, rnds: Seq<u8>) -> (MachineView, Result<(), Error>)
    decreases rnds.len(),
{
    if rnds.len() == 0 {
        ok(m)
    } else {
        let (next, r) = step_view(m, rnds[0]);
        if r is Err {
            (next, r)
        } else {
            run(next, rnds.drop_first())
        }
    }
}

/// The instruction at the program counter waits for a key.
pub open spec fn at_wait_key(m: MachineView) -> bool {
    decode(fetch(m)).header == 0xf && decode(fetch(m)).nn == 0x0a
}

pub open spec fn no_key_held(m: MachineView) -> bool {
    forall|k: int| 0 <= k < 16 ==> !#[trigger] m.keypad[k]
}

/// `first_pressed` finds the lowest held key at or after `from`.
pub proof fn lemma_first_pressed(keys: Seq<bool>, from: int)
    requires
        0 <= from <= 16,
        keys.len() == 16,
    ensures
        from <= first_pressed(keys, from) <= 16,
        forall|j: int| from <= j < first_pressed(keys, from) ==> !#[trigger] keys[j],
        first_pressed(keys, from) < 16 ==> keys[first_pressed(keys, from)],
    decreases 16 - from,
{
    if from < 16 && !keys[from] {
        lemma_first_pressed(keys, from + 1);
    }
}

/// With no key held, a key wait changes nothing, however often it runs.
pub proof fn lemma_wait_key_stalls(m: MachineView, rnds: Seq<u8>)
    requires
        valid(m),
        at_wait_key(m),
        no_key_held(m),
    ensures
        run(m, rnds) == ok(m),
    decreases rnds.len(),
{
    if rnds.len() > 0 {
        lemma_first_pressed(m.keypad, 0);
        lemma_decode_in_range(fetch(m));
        if m.state == State::Running {
            assert(addr(addr(m.pc + 2) + 4094) == m.pc);
        }
        assert(step_view(m, rnds[0]) == ok(m));
        lemma_wait_key_stalls(m, rnds.drop_first());
    }
}

/// Once key `code` goes down during a key wait, the next step stores it
/// in Vx and moves past the wait.
pub proof fn lemma_wait_key_takes_key(m: MachineView, code: u8, rnd: u8)
    requires
        valid(m),
        m.state == State::Running,
        at_wait_key(m),
        no_key_held(m),
        code < 16,
    ensures
        ({
            let pressed = key_view(m, code, true);
            step_view(pressed, rnd) == ok(
                MachineView {
                    reg: m.reg.update(decode(fetch(m)).x as int, code),
                    pc: addr(m.pc + 2),
                    ..pressed
                },
            )
        }),
{
    let pressed = key_view(m, code, true);
    lemma_first_pressed(pressed.keypad, 0);
    lemma_decode_in_range(fetch(m));
    assert(fetch(pressed) == fetch(m));
    let f = first_pressed(pressed.keypad, 0);
    if f < code {
        assert(!pressed.keypad[f]);
    }
    if f > code {
        assert(!pressed.keypad[code as int]);
    }
}

/// What a host can do to a machine.
pub enum HostAction {
    Step(u8),
    Timer,
    KeyDown(u8),
    KeyUp(u8),
    Toggle,
    Terminate,
}

pub open spec fn act(m: MachineView, a: HostAction) -> MachineView {
    match a {
        HostAction::Step(rnd) => step_view(m, rnd).0,
        HostAction::Timer => timer_view(m),
        HostAction::KeyDown(k) => key_view(m, k, true),
        HostAction::KeyUp(k) => key_view(m, k, false),
        HostAction::Toggle => toggle_view(m),
        HostAction::Terminate => MachineView { state: State::Terminated, ..m },
    }
}

pub open spec fn act_all(m: MachineView, acts: Seq<HostAction>) -> MachineView
    decreases acts.len(),
{
    if acts.len() == 0 {
        m
    } else {
        act_all(act(m, acts[0]), acts.drop_first())
    }
}

/// The state a reset leaves: that of a machine freshly built with the same
/// program and quirks.
pub open spec fn reset_view(m: MachineView) -> MachineView {
    initial_view(m.rom, m.quirks)
}

/// No host action changes the program or the quirks.
pub proof fn lemma_act_keeps_program(m: MachineView, a: HostAction)
    ensures
        act(m, a).rom == m.rom,
        act(m, a).quirks == m.quirks,
{
}

/// Whatever a machine built from `rom` and `quirks` has gone through, a
/// reset brings it back to the state it was built in; a second reset
/// changes nothing.
pub proof fn lemma_reset_restores(rom: Seq<u8>, quirks: Quirks, acts: Seq<HostAction>)
    ensures
        reset_view(act_all(initial_view(rom, quirks), acts)) == initial_view(rom, quirks),
        reset_view(reset_view(act_all(initial_view(rom, quirks), acts))) == reset_view(
            act_all(initial_view(rom, quirks), acts),
        ),
    decreases acts.len(),
{
    lemma_program_kept(initial_view(rom, quirks), acts);
}

proof fn lemma_program_kept(m: MachineView, acts: Seq<HostAction>)
    ensures
        act_all(m, acts).rom == m.rom,
        act_all(m, acts).quirks == m.quirks,
    decreases acts.len(),
{
    if acts.len() > 0 {
        lemma_act_keeps_program(m, acts[0]);
        lemma_program_kept(act(m, acts[0]), acts.drop_first());
    }
}

} // verus!
