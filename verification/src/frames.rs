//! What the bookkeeping rule implies, frame after frame.
//!
//! Every `update` of every handler replaces the duration table by
//! [`advance`] of it. The theorems here are about `advance`, and about
//! [`run`], which applies it once per frame of a recorded sequence; they
//! therefore hold for all three handlers alike.

use crate::rules::{
    activated, advance, bound_controls, duration_of, is_clicked, is_down, is_up, next_duration,
    press, release, Control, Input,
};
use vstd::prelude::*;

verus! {

/// The duration table after a sequence of frames, where `frames[k]` is the
/// set of controls that were active in frame `k`.
pub open spec fn run(
    controls: Set<Control>,
    durations: Map<Control, u32>,
    frames: Seq<Set<Control>>,
) -> Map<Control, u32>
    decreases frames.len(),
{
    if frames.len() == 0 {
        durations
    } else {
        advance(controls, run(controls, durations, frames.drop_last()), frames.last())
    }
}

/// After a frame, a bound control has duration zero exactly if it was not
/// active in that frame.
pub proof fn lemma_zero_means_inactive(
    controls: Set<Control>,
    durations: Map<Control, u32>,
    active: Set<Control>,
    control: Control,
)
    requires
        controls.contains(control),
    ensures
        duration_of(advance(controls, durations, active), control) == 0 <==> !active.contains(
            control,
        ),
{
}

/// A frame in which a bound control is active raises its duration by exactly
/// one, as long as the count fits in a `u32`.
pub proof fn lemma_active_adds_one(
    controls: Set<Control>,
    durations: Map<Control, u32>,
    active: Set<Control>,
    control: Control,
)
    requires
        controls.contains(control),
        active.contains(control),
        duration_of(durations, control) < u32::MAX,
    ensures
        duration_of(advance(controls, durations, active), control) == duration_of(
            durations,
            control,
        ) + 1,
{
}

/// A frame leaves the duration of a control that nothing is bound to as it
/// was, whether or not the control is called active.
pub proof fn lemma_unbound_untouched(
    controls: Set<Control>,
    durations: Map<Control, u32>,
    active: Set<Control>,
    control: Control,
)
    requires
        !controls.contains(control),
    ensures
        duration_of(advance(controls, durations, active), control) == duration_of(
            durations,
            control,
        ),
{
}

/// A control that starts up and is never active stays up through any number
/// of frames: its duration is zero, it is not down and it was not clicked.
/// In particular a control that no input is bound to never leaves zero.
pub proof fn lemma_never_active_stays_up(
    controls: Set<Control>,
    durations: Map<Control, u32>,
    frames: Seq<Set<Control>>,
    control: Control,
)
    requires
        duration_of(durations, control) == 0,
        forall|k: int| 0 <= k < frames.len() ==> !(#[trigger] frames[k]).contains(control),
    ensures
        duration_of(run(controls, durations, frames), control) == 0,
        is_up(run(controls, durations, frames), control),
        !is_down(run(controls, durations, frames), control),
        !is_clicked(run(controls, durations, frames), control),
    decreases frames.len(),
{
    if frames.len() > 0 {
        lemma_never_active_stays_up(controls, durations, frames.drop_last(), control);
    }
}

/// A bound control that is active in every one of `frames.len()` frames ends
/// with that many frames added to its duration, as long as the count fits in
/// a `u32`.
pub proof fn lemma_held_adds_frames(
    controls: Set<Control>,
    durations: Map<Control, u32>,
    frames: Seq<Set<Control>>,
    control: Control,
)
    requires
        controls.contains(control),
        forall|k: int| 0 <= k < frames.len() ==> (#[trigger] frames[k]).contains(control),
        duration_of(durations, control) + frames.len() <= u32::MAX,
    ensures
        duration_of(run(controls, durations, frames), control) == duration_of(durations, control)
            + frames.len(),
    decreases frames.len(),
{
    if frames.len() > 0 {
        lemma_held_adds_frames(controls, durations, frames.drop_last(), control);
    }
}

/// A bound control that starts up and is then active in every frame has,
/// after each frame, been held for as many frames as have passed. It reads
/// as clicked after the first of them and after no later one.
pub proof fn lemma_held_counts_frames(
    controls: Set<Control>,
    durations: Map<Control, u32>,
    frames: Seq<Set<Control>>,
    control: Control,
)
    requires
        controls.contains(control),
        duration_of(durations, control) == 0,
        forall|k: int| 0 <= k < frames.len() ==> (#[trigger] frames[k]).contains(control),
        frames.len() <= u32::MAX,
    ensures
        forall|n: int|
            0 <= n <= frames.len() ==> duration_of(
                #[trigger] run(controls, durations, frames.take(n)),
                control,
            ) == n,
        forall|n: int|
            0 <= n <= frames.len() ==> (is_clicked(
                #[trigger] run(controls, durations, frames.take(n)),
                control,
            ) <==> n == 1),
        forall|n: int|
            0 <= n <= frames.len() ==> (is_down(
                #[trigger] run(controls, durations, frames.take(n)),
                control,
            ) <==> n >= 1),
{
    assert forall|n: int| 0 <= n <= frames.len() implies duration_of(
        #[trigger] run(controls, durations, frames.take(n)),
        control,
    ) == n by {
        lemma_held_adds_frames(controls, durations, frames.take(n), control);
    }
}

/// However long a bound control has been held, the first frame in which it
/// is not active sets its duration back to zero.
pub proof fn lemma_release_resets(
    controls: Set<Control>,
    durations: Map<Control, u32>,
    active: Set<Control>,
    control: Control,
)
    requires
        controls.contains(control),
        !active.contains(control),
    ensures
        duration_of(advance(controls, durations, active), control) == 0,
        is_up(advance(controls, durations, active), control),
{
}

/// Where several inputs are bound to one control, any one of them being down
/// makes the control active, and the control's duration goes up by exactly
/// one per frame however many of them are down.
pub proof fn lemma_shared_control_counts_once(
    config: Map<Input, Control>,
    durations: Map<Control, u32>,
    inputs: Set<Input>,
    input: Input,
    control: Control,
)
    requires
        config.contains_pair(input, control),
        inputs.contains(input),
        duration_of(durations, control) < u32::MAX,
    ensures
        activated(config, inputs).contains(control),
        duration_of(
            advance(bound_controls(config), durations, activated(config, inputs)),
            control,
        ) == duration_of(durations, control) + 1,
        is_down(advance(bound_controls(config), durations, activated(config, inputs)), control),
{
}

/// A press, a release and a second press of one bound input, all before the
/// frame ends, leave its control pressed: the frame counts it as active.
pub proof fn lemma_last_edge_decides(
    config: Map<Input, Control>,
    durations: Map<Control, u32>,
    pressed: Set<Control>,
    input: Input,
)
    requires
        config.contains_key(input),
    ensures
        ({
            let after = press(config, release(config, press(config, pressed, input), input), input);
            let next = advance(bound_controls(config), durations, after);
            &&& after.contains(config[input])
            &&& duration_of(next, config[input]) == next_duration(
                duration_of(durations, config[input]),
                true,
            )
            &&& duration_of(durations, config[input]) == 0 ==> duration_of(next, config[input])
                == 1
        }),
{
    assert(config.contains_pair(input, config[input]));
}

/// A frame in which nothing is active leaves every bound control, and every
/// control that was up before, at zero. (A control that was held and has
/// since lost its last binding is not reset by a frame.)
pub proof fn lemma_idle_frame_resets(
    controls: Set<Control>,
    durations: Map<Control, u32>,
    control: Control,
)
    requires
        controls.contains(control) || duration_of(durations, control) == 0,
    ensures
        duration_of(advance(controls, durations, Set::<Control>::empty()), control) == 0,
{
}

/// Starting from an empty duration table, a frame in which nothing is active
/// leaves every control at zero.
pub proof fn lemma_idle_frame_after_forgetting(controls: Set<Control>, control: Control)
    ensures
        duration_of(
            advance(controls, Map::<Control, u32>::empty(), Set::<Control>::empty()),
            control,
        ) == 0,
{
}

} // verus!
