//! The frame scheduler: sixty ticks a second, each of which counts the timers
//! down once and then runs a bounded batch of instructions.
//!
//! The scheduler is idle between ticks and running within one. It becomes
//! running when more than a sixtieth of a second has passed since the last
//! tick, which the caller measures and [`Scheduler::poll`] judges.

use vstd::prelude::*;
use crate::engine::{draws_random, lemma_random_byte_unused, step, step_of, step_spec};
use crate::fault::Fault;
use crate::machine::{timer_after_frame, Machine, State};

verus! {

/// Nanoseconds in a second.
pub const NANOS_PER_SECOND: u64 = 1_000_000_000;

/// Ticks in a second.
pub const FRAMES_PER_SECOND: u64 = 60;

/// How far a batch of instructions got.
pub struct Progress {
    /// The state the batch left.
    pub state: State,
    /// The instructions that retired.
    pub retired: nat,
    /// The fault that ended the batch, if one did.
    pub fault: Option<Fault>,
}

/// Whether a batch that got as far as `progress` goes no further: it met a
/// fault, or the key-wait latch is pending.
pub open spec fn halted(progress: Progress) -> bool {
    progress.fault is Some || progress.state.key_wait is Some
}

/// How far a batch of at most `budget` instructions gets from `start`. The
/// batch ends early at a fault, and as soon as the key-wait latch is pending.
/// `draws[i]` is the random byte on offer to the instruction in place `i` of
/// the batch.
pub open spec fn batch_spec(start: State, keys: Seq<bool>, draws: Seq<u8>, budget: nat) -> Progress
    decreases budget,
{
    if budget == 0 {
        Progress { state: start, retired: 0, fault: None }
    } else {
        let before = batch_spec(start, keys, draws, (budget - 1) as nat);
        if halted(before) {
            before
        } else {
            match step_spec(before.state, keys, draws[budget - 1]) {
                Ok(next) => Progress { state: next, retired: before.retired + 1, fault: None },
                Err(fault) => Progress { fault: Some(fault), ..before },
            }
        }
    }
}

/// `state` with one display frame counted on both timers.
pub open spec fn timers_ticked(state: State) -> State {
    State {
        delay_timer: timer_after_frame(state.delay_timer),
        sound_timer: timer_after_frame(state.sound_timer),
        ..state
    }
}

/// What a tick reports when no fault ended it.
#[derive(Clone, Copy, Debug, PartialEq, Eq, Structural)]
pub struct FrameReport {
    /// The instructions that retired in this tick.
    pub retired: u32,
    /// Whether sound is on after this tick.
    pub sound_on: bool,
    /// Whether the key-wait latch is pending after this tick.
    pub waiting: bool,
}

/// Whether `after` and `result` are what a tick with a budget of `budget`
/// instructions makes of `before`: the timers count one frame, then the batch
/// runs.
pub open spec fn tick_of(
    before: State,
    keys: Seq<bool>,
    draws: Seq<u8>,
    budget: nat,
    after: State,
    result: Result<FrameReport, Fault>,
) -> bool {
    let progress = batch_spec(timers_ticked(before), keys, draws, budget);
    &&& after =~= progress.state
    &&& match progress.fault {
        Some(fault) => result == Err::<FrameReport, Fault>(fault),
        None => result == Ok::<FrameReport, Fault>(
            FrameReport {
                retired: progress.retired as u32,
                sound_on: progress.state.sound_timer > 0,
                waiting: progress.state.key_wait is Some,
            },
        ),
    }
}

/// A batch reads only the draws for the places it has.
pub proof fn lemma_batch_reads_prefix(
    start: State,
    keys: Seq<bool>,
    first: Seq<u8>,
    second: Seq<u8>,
    budget: nat,
)
    requires
        budget <= first.len(),
        budget <= second.len(),
        forall|i: int| 0 <= i < budget ==> first[i] == second[i],
    ensures
        batch_spec(start, keys, first, budget) == batch_spec(start, keys, second, budget),
    decreases budget,
{
    if budget > 0 {
        lemma_batch_reads_prefix(start, keys, first, second, (budget - 1) as nat);
    }
}

/// A batch that has halted stays where it is, whatever budget is left.
pub proof fn lemma_batch_halts(
    start: State,
    keys: Seq<bool>,
    draws: Seq<u8>,
    reached: nat,
    budget: nat,
)
    requires
        reached <= budget,
        halted(batch_spec(start, keys, draws, reached)),
    ensures
        batch_spec(start, keys, draws, budget) == batch_spec(start, keys, draws, reached),
    decreases budget,
{
    if budget > reached {
        lemma_batch_halts(start, keys, draws, reached, (budget - 1) as nat);
    }
}

/// A batch retires at most as many instructions as its budget.
pub proof fn lemma_batch_within_budget(start: State, keys: Seq<bool>, draws: Seq<u8>, budget: nat)
    ensures
        batch_spec(start, keys, draws, budget).retired <= budget,
        !halted(batch_spec(start, keys, draws, budget)) ==> batch_spec(
            start,
            keys,
            draws,
            budget,
        ).retired == budget,
    decreases budget,
{
    if budget > 0 {
        lemma_batch_within_budget(start, keys, draws, (budget - 1) as nat);
    }
}

/// Whether an instruction in one of the first `budget` places of the batch
/// uses its random byte.
pub open spec fn batch_draws_random(
    start: State,
    keys: Seq<bool>,
    draws: Seq<u8>,
    budget: nat,
) -> bool
    decreases budget,
{
    budget > 0 && {
        let before = batch_spec(start, keys, draws, (budget - 1) as nat);
        batch_draws_random(start, keys, draws, (budget - 1) as nat) || (!halted(before)
            && draws_random(before.state))
    }
}

/// A batch in which no instruction uses its random byte comes out the same
/// whatever bytes are on offer.
pub proof fn lemma_batch_is_determined(
    start: State,
    keys: Seq<bool>,
    first: Seq<u8>,
    second: Seq<u8>,
    budget: nat,
)
    requires
        !batch_draws_random(start, keys, first, budget),
    ensures
        batch_spec(start, keys, second, budget) == batch_spec(start, keys, first, budget),
    decreases budget,
{
    if budget > 0 {
        lemma_batch_is_determined(start, keys, first, second, (budget - 1) as nat);
        let before = batch_spec(start, keys, first, (budget - 1) as nat);
        if !halted(before) {
            lemma_random_byte_unused(before.state, keys, first[budget - 1], second[budget - 1]);
        }
    }
}

/// Whether a tick is due when `elapsed_nanos` nanoseconds have passed since
/// the last one: it is when that is more than a sixtieth of a second.
pub open spec fn frame_due_spec(elapsed_nanos: u64) -> bool {
    elapsed_nanos * FRAMES_PER_SECOND > NANOS_PER_SECOND
}

/// The frame scheduler, set up with the number of instructions a tick may
/// run.
#[derive(Clone, Copy, Debug)]
pub struct Scheduler {
    instructions_per_frame: u32,
}

impl View for Scheduler {
    type V = nat;

    /// The number of instructions a tick may run.
    closed spec fn view(&self) -> nat {
        self.instructions_per_frame as nat
    }
}

impl Scheduler {
    #[verifier::type_invariant]
    spec fn positive(self) -> bool {
        self.instructions_per_frame > 0
    }

    /// A scheduler that runs at most `instructions_per_frame` instructions in
    /// a tick, or `None` for a budget of zero.
    pub fn new(instructions_per_frame: u32) -> (scheduler: Option<Scheduler>)
        ensures
            instructions_per_frame == 0 ==> scheduler is None,
            instructions_per_frame > 0 ==> (scheduler matches Some(made) && made@
                == instructions_per_frame),
    {
        if instructions_per_frame == 0 {
            None
        } else {
            Some(Scheduler { instructions_per_frame })
        }
    }

    /// The number of instructions a tick may run.
    pub fn instructions_per_frame(&self) -> (budget: u32)
        ensures
            budget == self@,
            budget > 0,
    {
        proof {
            use_type_invariant(self);
        }
        self.instructions_per_frame
    }

    /// Whether a tick is due when `elapsed_nanos` nanoseconds have passed
    /// since the last one.
    pub fn frame_due(elapsed_nanos: u64) -> (due: bool)
        ensures
            due == frame_due_spec(elapsed_nanos),
    {
        elapsed_nanos > NANOS_PER_SECOND / FRAMES_PER_SECOND
    }

    /// Runs one tick: counts one frame on both timers, then executes
    /// instructions until the budget is spent, the key-wait latch is pending
    /// or a fault ends the run. Budget that is left is forfeited.
    ///
    /// The outcome is that of the batch for some random bytes, one on offer
    /// to each instruction. After a fault the machine is as the last retired
    /// instruction left it.
    pub fn tick(&self, machine: &mut Machine, keys: &[bool; 16]) -> (result: Result<
        FrameReport,
        Fault,
    >)
        ensures
            final(machine)@.wf(),
            exists|draws: Seq<u8>|
                draws.len() == self@ && tick_of(
                    old(machine)@,
                    keys@,
                    draws,
                    self@,
                    final(machine)@,
                    result,
                ),
    {
        let budget = self.instructions_per_frame();
        machine.tick_timers();
        let ghost start = machine@;
        let ghost mut draws: Seq<u8> = Seq::empty();
        let mut retired: u32 = 0;
        let mut pending: Option<Fault> = None;
        let mut waiting = false;
        let mut spent: u32 = 0;
        while spent < budget && pending.is_none() && !waiting
            invariant
                spent <= budget,
                machine@.wf(),
                draws.len() == spent,
                start == timers_ticked(old(machine)@),
                batch_spec(start, keys@, draws, spent as nat) == (Progress {
                    state: machine@,
                    retired: retired as nat,
                    fault: pending,
                }),
                retired <= spent,
                waiting ==> machine@.key_wait is Some,
            decreases
                    (budget - spent) + (if pending is None && !waiting {
                        1nat
                    } else {
                        0nat
                    }),
        {
            let ghost before = machine@;
            let ghost so_far = draws;
            let outcome = step(machine, keys);
            proof {
                let random = choose|random: u8|
                    step_of(before, keys@, random, machine@, outcome);
                draws = so_far.push(random);
                lemma_batch_reads_prefix(start, keys@, so_far, draws, spent as nat);
            }
            match outcome {
                Ok(true) => {
                    retired = retired + 1;
                    spent = spent + 1;
                },
                Ok(false) => {
                    waiting = true;
                    proof {
                        draws = so_far;
                    }
                },
                Err(fault) => {
                    pending = Some(fault);
                    spent = spent + 1;
                },
            }
        }
        let result = match pending {
            Some(fault) => Err(fault),
            None => Ok(
                FrameReport {
                    retired,
                    sound_on: machine.sound_on(),
                    waiting: machine.awaited_register().is_some(),
                },
            ),
        };
        proof {
            let full = Seq::new(
                budget as nat,
                |i: int|
                    if i < draws.len() {
                        draws[i]
                    } else {
                        0u8
                    },
            );
            lemma_batch_reads_prefix(start, keys@, draws, full, spent as nat);
            if spent < budget {
                lemma_batch_halts(start, keys@, full, spent as nat, budget as nat);
            }
            assert(full.len() == self@);
            assert(tick_of(old(machine)@, keys@, full, self@, machine@, result));
        }
        result
    }

    /// Judges whether a tick is due, `elapsed_nanos` nanoseconds after the
    /// last one, and runs it if so. While none is due the scheduler stays
    /// idle: the machine is untouched and `Ok(None)` comes back.
    pub fn poll(&self, machine: &mut Machine, elapsed_nanos: u64, keys: &[bool; 16]) -> (result:
        Result<Option<FrameReport>, Fault>)
        ensures
            !frame_due_spec(elapsed_nanos) ==> result == Ok::<Option<FrameReport>, Fault>(None)
                && final(machine)@ == old(machine)@,
            frame_due_spec(elapsed_nanos) ==> exists|draws: Seq<u8>|
                draws.len() == self@ && tick_of(
                    old(machine)@,
                    keys@,
                    draws,
                    self@,
                    final(machine)@,
                    match result {
                        Ok(report) => Ok::<FrameReport, Fault>(report->Some_0),
                        Err(fault) => Err::<FrameReport, Fault>(fault),
                    },
                ) && !(result matches Ok(None)),
    {
        if Scheduler::frame_due(elapsed_nanos) {
            match self.tick(machine, keys) {
                Ok(report) => Ok(Some(report)),
                Err(fault) => Err(fault),
            }
        } else {
            Ok(None)
        }
    }
}

} // verus!
