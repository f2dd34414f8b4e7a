//! The handler for engines that deliver input as press and release events.

use crate::rules::{
    advance, bound_controls, duration_of, first_wins, is_clicked, is_down, is_up, press, release,
    Control, Input,
};
use crate::store::{
    add_member, clear_set, copy_set, copy_table, drop_member, empty_set, empty_table, entries,
    holds, lookup, members, pairs_of,
};
use crate::table::{
    advance_table, bind_first, held_for, lemma_lists_once_len, lemma_marks_describe_frame,
};
use ahash::{AHashMap, AHashSet};
use vstd::prelude::*;

verus! {

/// `rows` reports every binding of `config` exactly once, in some order, each
/// with the number of frames its control has been held.
pub open spec fn reports_bindings(
    config: Map<Input, Control>,
    durations: Map<Control, u32>,
    rows: Seq<(Input, Control, u32)>,
) -> bool {
    &&& forall|n: int|
        0 <= n < rows.len() ==> config.contains_pair((#[trigger] rows[n]).0, rows[n].1)
            && rows[n].2 == duration_of(durations, rows[n].1)
    &&& forall|input: Input| #[trigger]
        config.contains_key(input) ==> exists|n: int|
            0 <= n < rows.len() && (#[trigger] rows[n]).0 == input
    &&& forall|m: int, n: int|
        0 <= m < n < rows.len() ==> (#[trigger] rows[m]).0 != (#[trigger] rows[n]).0
}

/// Input handler for an engine that reports input through events.
///
/// Feed it every press with [`on_input_down`](Self::on_input_down) and every
/// release with [`on_input_up`](Self::on_input_up) as the events arrive, and
/// call [`update`](Self::update) once per frame before reading any control.
/// Events only change which controls count as pressed; durations change in
/// `update` alone, so each changes exactly once per frame however many events
/// arrived and in whatever order.
#[derive(Debug)]
pub struct EventInputHandler {
    /// Maps inputs to the controls they activate.
    control_config: AHashMap<u32, u32>,
    /// How many consecutive frames each control has been held.
    control_time: AHashMap<u32, u32>,
    /// The controls that the events received so far leave pressed.
    pressed_controls: AHashSet<u32>,
}

impl EventInputHandler {
    /// The binding from inputs to controls.
    pub closed spec fn config(&self) -> Map<Input, Control> {
        entries(self.control_config)
    }

    /// The duration table: consecutive frames held, per control.
    pub closed spec fn durations(&self) -> Map<Control, u32> {
        entries(self.control_time)
    }

    /// The controls that the events received so far leave pressed.
    pub closed spec fn pressed(&self) -> Set<Control> {
        members(self.pressed_controls)
    }

    /// Creates a handler that binds no input.
    pub fn new() -> (handler: Self)
        ensures
            (handler.config() == Map::<Input, Control>::empty()),
            (handler.durations() == Map::<Control, u32>::empty()),
            handler.pressed() == Set::<Control>::empty(),
    {
        EventInputHandler {
            control_config: empty_table(),
            control_time: empty_table(),
            pressed_controls: empty_set(),
        }
    }

    /// Creates a handler with the given bindings. Where two pairs name the
    /// same input, the earlier pair is kept and the later one is ignored.
    pub fn new_with_controls(map: Vec<(Input, Control)>) -> (handler: Self)
        ensures
            handler.config() == first_wins(map@),
            (handler.durations() == Map::<Control, u32>::empty()),
            handler.pressed() == Set::<Control>::empty(),
    {
        EventInputHandler {
            control_config: bind_first(&map),
            control_time: empty_table(),
            pressed_controls: empty_set(),
        }
    }

    /// Records that `input` went down. Its control counts as pressed from now
    /// on; durations do not change before the next `update`. An input that is
    /// not bound is ignored.
    pub fn on_input_down(&mut self, input: Input)
        ensures
            final(self).pressed() == press(old(self).config(), old(self).pressed(), input),
            final(self).config() == old(self).config(),
            final(self).durations() == old(self).durations(),
    {
        match lookup(&self.control_config, input) {
            Some(control) => {
                add_member(&mut self.pressed_controls, control);
            },
            None => {},
        }
    }

    /// Records that `input` went up. Its control no longer counts as pressed,
    /// whichever input pressed it; durations do not change before the next
    /// `update`. An input that is not bound is ignored.
    pub fn on_input_up(&mut self, input: Input)
        ensures
            final(self).pressed() == release(old(self).config(), old(self).pressed(), input),
            final(self).config() == old(self).config(),
            final(self).durations() == old(self).durations(),
    {
        match lookup(&self.control_config, input) {
            Some(control) => {
                drop_member(&mut self.pressed_controls, control);
            },
            None => {},
        }
    }

    /// Releases every control at once. Durations are reset by the next
    /// `update`, not here. Calling this at the top of every frame, before
    /// `update`, would keep every control up for ever.
    pub fn clear_inputs(&mut self)
        ensures
            final(self).pressed() == Set::<Control>::empty(),
            final(self).config() == old(self).config(),
            final(self).durations() == old(self).durations(),
    {
        clear_set(&mut self.pressed_controls);
    }

    /// Moves on by one frame: every bound control that is pressed has been
    /// held one frame longer, every bound control that is not pressed has
    /// been held for zero frames. Call this once per frame, before reading.
    /// A duration that has reached `u32::MAX` stays there while the control
    /// is held.
    pub fn update(&mut self)
        ensures
            final(self).durations() == advance(
                bound_controls(old(self).config()),
                old(self).durations(),
                old(self).pressed(),
            ),
            final(self).config() == old(self).config(),
            final(self).pressed() == old(self).pressed(),
    {
        let bindings = pairs_of(&self.control_config);
        let mut marks: Vec<(Control, bool)> = Vec::new();
        let mut n: usize = 0;
        while n < bindings.len()
            invariant
                n <= bindings.len(),
                marks.len() == n,
                forall|k: int|
                    0 <= k < n ==> (#[trigger] marks[k]) == (
                        bindings[k].1,
                        members(self.pressed_controls).contains(bindings[k].1),
                    ),
            decreases bindings.len() - n,
        {
            let control = bindings[n].1;
            marks.push((control, holds(&self.pressed_controls, control)));
            n += 1;
        }
        proof {
            lemma_marks_describe_frame(
                self.config(),
                bindings@,
                marks@,
                self.pressed(),
                self.durations(),
            );
        }
        advance_table(&mut self.control_time, &marks);
    }

    /// The number of consecutive frames `ctrl` has been held, the latest
    /// frame included; zero for a control that is up, unbound or unknown.
    pub fn press_time(&self, ctrl: Control) -> (frames: u32)
        ensures
            frames == duration_of(self.durations(), ctrl),
    {
        held_for(&self.control_time, ctrl)
    }

    /// Whether `ctrl` is held: it has been pressed for one frame or more.
    pub fn down(&self, ctrl: Control) -> (held: bool)
        ensures
            held == is_down(self.durations(), ctrl),
    {
        self.press_time(ctrl) >= 1
    }

    /// Whether `ctrl` is up.
    pub fn up(&self, ctrl: Control) -> (idle: bool)
        ensures
            idle == is_up(self.durations(), ctrl),
    {
        self.press_time(ctrl) == 0
    }

    /// Whether `ctrl` went down in the latest frame.
    pub fn clicked(&self, ctrl: Control) -> (fresh: bool)
        ensures
            fresh == is_clicked(self.durations(), ctrl),
    {
        self.press_time(ctrl) == 1
    }

    /// Every bound input with its control and the number of frames that
    /// control has been held, read at the time of the call. Meant for
    /// releasing many inputs at once, as when a gamepad is unplugged.
    pub fn all_pressed(&self) -> (rows: Vec<(Input, Control, u32)>)
        ensures
            reports_bindings(self.config(), self.durations(), rows@),
            self.config().dom().finite(),
            rows.len() == self.config().dom().len(),
    {
        let bindings = pairs_of(&self.control_config);
        let mut rows: Vec<(Input, Control, u32)> = Vec::new();
        let mut n: usize = 0;
        while n < bindings.len()
            invariant
                n <= bindings.len(),
                rows.len() == n,
                forall|k: int|
                    0 <= k < n ==> (#[trigger] rows[k]) == (
                        bindings[k].0,
                        bindings[k].1,
                        duration_of(entries(self.control_time), bindings[k].1),
                    ),
            decreases bindings.len() - n,
        {
            let (input, control) = bindings[n];
            rows.push((input, control, held_for(&self.control_time, control)));
            n += 1;
        }
        proof {
            lemma_lists_once_len(self.config(), bindings@);
            assert forall|input: Input| #[trigger]
                self.config().contains_key(input) implies exists|k: int|
                0 <= k < rows.len() && (#[trigger] rows[k]).0 == input by {
                let k = choose|k: int|
                    0 <= k < bindings.len() && (#[trigger] bindings[k]).0 == input;
                assert(rows[k].0 == input);
            }
        }
        rows
    }

    /// The binding from inputs to controls.
    pub fn control_config(&self) -> (config: &AHashMap<u32, u32>)
        ensures
            entries(*config) == self.config(),
    {
        &self.control_config
    }

    /// The binding from inputs to controls, for editing. Durations already
    /// recorded stay as they are: a control whose last input is unbound while
    /// it is held keeps its duration. Pair an edit with
    /// [`clear_inputs`](Self::clear_inputs).
    pub fn control_config_mut(&mut self) -> (config: &mut AHashMap<u32, u32>)
        ensures
            entries(*config) == old(self).config(),
            final(self).config() == entries(*final(config)),
            final(self).durations() == old(self).durations(),
            final(self).pressed() == old(self).pressed(),
    {
        &mut self.control_config
    }
}

impl Default for EventInputHandler {
    fn default() -> (handler: Self)
        ensures
            (handler.config() == Map::<Input, Control>::empty()),
            (handler.durations() == Map::<Control, u32>::empty()),
            handler.pressed() == Set::<Control>::empty(),
    {
        EventInputHandler::new()
    }
}

impl Clone for EventInputHandler {
    fn clone(&self) -> (copy: Self)
        ensures
            copy.config() == self.config(),
            copy.durations() == self.durations(),
            copy.pressed() == self.pressed(),
    {
        EventInputHandler {
            control_config: copy_table(&self.control_config),
            control_time: copy_table(&self.control_time),
            pressed_controls: copy_set(&self.pressed_controls),
        }
    }
}

} // verus!
