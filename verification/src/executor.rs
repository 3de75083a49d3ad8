//! The executor: the timed sequence of synthetic events that plays a macro.

use vstd::prelude::*;
use crate::model::{ActionEventType, Delay, KeyType, Macro};

verus! {

/// One thing the host does, in turn, to play a macro back.
#[derive(Debug, Clone, Copy, PartialEq, Eq, Hash, Structural)]
pub enum PlaybackStep {
    /// Emit a key-down event for the key with this code.
    KeyDown(u32),
    /// Emit a key-up event for the key with this code.
    KeyUp(u32),
    /// Block for this many milliseconds; emit nothing.
    Wait(Delay),
}

/// Emitting one event: the event, then the settle pause that lets the
/// operating system's input queue catch up.
pub open spec fn emission(event: PlaybackStep, settle: Delay) -> Seq<PlaybackStep> {
    seq![event, PlaybackStep::Wait(settle)]
}

/// What playing one action comes to.
///
/// A `Down` step presses, an `Up` step releases, and a `DownUp` step
/// presses, holds for the step's duration and releases; no step releases a
/// key on behalf of another. A delay waits. The reserved actions play
/// nothing.
pub open spec fn action_plan(action: ActionEventType, settle: Delay) -> Seq<PlaybackStep> {
    match action {
        ActionEventType::KeyPressEvent { data } => match data.keytype {
            KeyType::Down => emission(PlaybackStep::KeyDown(data.keypress), settle),
            KeyType::Up => emission(PlaybackStep::KeyUp(data.keypress), settle),
            KeyType::DownUp => emission(PlaybackStep::KeyDown(data.keypress), settle)
                + seq![PlaybackStep::Wait(data.press_duration)]
                + emission(PlaybackStep::KeyUp(data.keypress), settle),
        },
        ActionEventType::Delay { data } => seq![PlaybackStep::Wait(data)],
        ActionEventType::PhillipsHueCommand {  } => Seq::empty(),
        ActionEventType::OBS {  } => Seq::empty(),
        ActionEventType::DiscordCommand {  } => Seq::empty(),
        ActionEventType::UnicodeDirect {  } => Seq::empty(),
    }
}

/// What playing a sequence of actions comes to: the plans of the actions,
/// one after the other, in the order of the sequence.
pub open spec fn playback_plan(sequence: Seq<ActionEventType>, settle: Delay) -> Seq<PlaybackStep>
    decreases sequence.len(),
{
    if sequence.len() == 0 {
        Seq::empty()
    } else {
        playback_plan(sequence.drop_last(), settle) + action_plan(sequence.last(), settle)
    }
}

/// Adds the emission of `event` to `plan`.
fn send(plan: &mut Vec<PlaybackStep>, event: PlaybackStep, settle: Delay)
    ensures
        final(plan)@ == old(plan)@ + emission(event, settle),
{
    plan.push(event);
    plan.push(PlaybackStep::Wait(settle));
}

/// Lays out the playback of `macros`: every event to emit and every pause
/// to keep, in order.
///
/// `settle` is the pause, in milliseconds, that follows each emitted event.
/// The macro's declared kind does not enter into it: every macro is played
/// once, linearly.
pub fn execute_macro(macros: &Macro, settle: Delay) -> (plan: Vec<PlaybackStep>)
    ensures
        plan@ == playback_plan(macros@.sequence, settle),
{
    let mut plan: Vec<PlaybackStep> = Vec::new();
    let mut i: usize = 0;
    assert(macros.sequence@.take(0) =~= Seq::<ActionEventType>::empty());
    while i < macros.sequence.len()
        invariant
            i <= macros.sequence@.len(),
            plan@ == playback_plan(macros.sequence@.take(i as int), settle),
        decreases macros.sequence@.len() - i,
    {
        let ghost done = plan@;
        proof {
            let next = macros.sequence@.take(i as int + 1);
            assert(next.drop_last() =~= macros.sequence@.take(i as int));
            assert(next.last() == macros.sequence@[i as int]);
        }
        match macros.sequence[i] {
            ActionEventType::KeyPressEvent { data } => match data.keytype {
                KeyType::Down => send(&mut plan, PlaybackStep::KeyDown(data.keypress), settle),
                KeyType::Up => send(&mut plan, PlaybackStep::KeyUp(data.keypress), settle),
                KeyType::DownUp => {
                    send(&mut plan, PlaybackStep::KeyDown(data.keypress), settle);
                    plan.push(PlaybackStep::Wait(data.press_duration));
                    send(&mut plan, PlaybackStep::KeyUp(data.keypress), settle);
                },
            },
            ActionEventType::Delay { data } => plan.push(PlaybackStep::Wait(data)),
            ActionEventType::PhillipsHueCommand {  } => {},
            ActionEventType::OBS {  } => {},
            ActionEventType::DiscordCommand {  } => {},
            ActionEventType::UnicodeDirect {  } => {},
        }
        assert(plan@ =~= done + action_plan(macros.sequence@[i as int], settle));
        i += 1;
    }
    assert(macros.sequence@.take(i as int) =~= macros.sequence@);
    plan
}

/// Playing one sequence and then another is playing the two joined: each
/// action contributes its own steps, in its own place, whatever surrounds it.
pub proof fn lemma_playback_plan_concat(first: Seq<ActionEventType>, second: Seq<ActionEventType>, settle: Delay)
    ensures
        playback_plan(first + second, settle) == playback_plan(first, settle) + playback_plan(
            second,
            settle,
        ),
    decreases second.len(),
{
    if second.len() == 0 {
        assert(first + second =~= first);
        assert(playback_plan(first, settle) + playback_plan(second, settle) =~= playback_plan(
            first,
            settle,
        ));
    } else {
        let joined = first + second;
        assert(joined.drop_last() =~= first + second.drop_last());
        assert(joined.last() == second.last());
        lemma_playback_plan_concat(first, second.drop_last(), settle);
        assert(playback_plan(joined, settle) =~= playback_plan(first, settle) + playback_plan(
            second,
            settle,
        ));
    }
}

/// Every emitted event is followed at once by the settle pause.
pub proof fn lemma_settle_follows_every_emission(sequence: Seq<ActionEventType>, settle: Delay, at: int)
    requires
        0 <= at < playback_plan(sequence, settle).len(),
        !(playback_plan(sequence, settle)[at] is Wait),
    ensures
        at + 1 < playback_plan(sequence, settle).len(),
        playback_plan(sequence, settle)[at + 1] == PlaybackStep::Wait(settle),
    decreases sequence.len(),
{
    if sequence.len() > 0 {
        let front = playback_plan(sequence.drop_last(), settle);
        if at < front.len() {
            lemma_settle_follows_every_emission(sequence.drop_last(), settle, at);
        }
    }
}

/// Whether `action` is a key step that presses the key `code`.
pub open spec fn presses(action: ActionEventType, code: u32) -> bool {
    action matches ActionEventType::KeyPressEvent { data } && data.keypress == code && data.keytype
        != KeyType::Up
}

/// Whether `action` is a key step that releases the key `code`.
pub open spec fn releases(action: ActionEventType, code: u32) -> bool {
    action matches ActionEventType::KeyPressEvent { data } && data.keypress == code && data.keytype
        != KeyType::Down
}

/// A plan emits a key-down only for a step that presses that key, and a
/// key-up only for a step that releases it: a key that is pressed and left
/// held stays down until a later step lets it go.
pub proof fn lemma_emissions_come_from_key_steps(
    sequence: Seq<ActionEventType>,
    settle: Delay,
    at: int,
    code: u32,
)
    requires
        0 <= at < playback_plan(sequence, settle).len(),
    ensures
        playback_plan(sequence, settle)[at] == PlaybackStep::KeyDown(code) ==> exists|i: int|
            0 <= i < sequence.len() && presses(#[trigger] sequence[i], code),
        playback_plan(sequence, settle)[at] == PlaybackStep::KeyUp(code) ==> exists|i: int|
            0 <= i < sequence.len() && releases(#[trigger] sequence[i], code),
    decreases sequence.len(),
{
    if sequence.len() > 0 {
        let shorter = sequence.drop_last();
        let front = playback_plan(shorter, settle);
        if at < front.len() {
            lemma_emissions_come_from_key_steps(shorter, settle, at, code);
            if front[at] == PlaybackStep::KeyDown(code) {
                let i = choose|i: int| 0 <= i < shorter.len() && presses(#[trigger] shorter[i], code);
                assert(presses(sequence[i], code));
            }
            if front[at] == PlaybackStep::KeyUp(code) {
                let i = choose|i: int| 0 <= i < shorter.len() && releases(#[trigger] shorter[i], code);
                assert(releases(sequence[i], code));
            }
        } else {
            let i = sequence.len() - 1;
            assert(sequence[i] == sequence.last());
        }
    }
}

} // verus!
