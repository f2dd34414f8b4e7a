//! The handler for engines that hand out the list of inputs that are down.

use crate::rules::{
    activated, advance, bound_controls, duration_of, first_wins, is_clicked, is_down, is_up,
    Control, Input,
};
use crate::store::{clear_table, copy_table, empty_table, entries, pairs_of};
use crate::table::{
    advance_table, bind_first, controls_for, held_for, lemma_marks_describe_frame, mark_listed,
};
use ahash::AHashMap;
use vstd::prelude::*;

verus! {

/// Input handler for an engine that is polled for its input.
///
/// Once per frame, before reading any control, hand
/// [`update`](Self::update) the inputs that are down in that frame. The
/// handler remembers nothing about inputs between frames: only the durations
/// carry over.
#[derive(Debug)]
pub struct PollingInputHandler {
    /// Maps inputs to the controls they activate.
    control_config: AHashMap<u32, u32>,
    /// How many consecutive frames each control has been held.
    control_time: AHashMap<u32, u32>,
}

impl PollingInputHandler {
    /// The binding from inputs to controls.
    pub closed spec fn config(&self) -> Map<Input, Control> {
        entries(self.control_config)
    }

    /// The duration table: consecutive frames held, per control.
    pub closed spec fn durations(&self) -> Map<Control, u32> {
        entries(self.control_time)
    }

    /// Creates a handler that binds no input.
    pub fn new() -> (handler: Self)
        ensures
            (handler.config() == Map::<Input, Control>::empty()),
            (handler.durations() == Map::<Control, u32>::empty()),
    {
        PollingInputHandler { control_config: empty_table(), control_time: empty_table() }
    }

    /// Creates a handler with the given bindings. Where two pairs name the
    /// same input, the earlier pair is kept and the later one is ignored.
    pub fn new_with_controls(map: Vec<(Input, Control)>) -> (handler: Self)
        ensures
            handler.config() == first_wins(map@),
            (handler.durations() == Map::<Control, u32>::empty()),
    {
        PollingInputHandler { control_config: bind_first(&map), control_time: empty_table() }
    }

    /// Forgets every duration, so that every control reads as up at once.
    /// Calling this at the top of every frame, before `update`, would keep
    /// every duration from ever passing one.
    pub fn clear_inputs(&mut self)
        ensures
            (final(self).durations() == Map::<Control, u32>::empty()),
            final(self).config() == old(self).config(),
    {
        clear_table(&mut self.control_time);
    }

    /// Moves on by one frame, given the inputs that are down in it: every
    /// bound control with at least one of its inputs listed has been held one
    /// frame longer, every other bound control has been held for zero frames.
    /// Inputs that are not bound are ignored, and listing an input more than
    /// once is the same as listing it once. A duration that has reached
    /// `u32::MAX` stays there while the control is held.
    pub fn update(&mut self, pressed_inputs: Vec<Input>)
        ensures
            final(self).durations() == advance(
                bound_controls(old(self).config()),
                old(self).durations(),
                activated(old(self).config(), pressed_inputs@.to_set()),
            ),
            final(self).config() == old(self).config(),
    {
        let pressed_controls = controls_for(&self.control_config, &pressed_inputs);
        let bindings = pairs_of(&self.control_config);
        let marks = mark_listed(&bindings, &pressed_controls);
        proof {
            lemma_marks_describe_frame(
                self.config(),
                bindings@,
                marks@,
                pressed_controls@.to_set(),
                self.durations(),
            );
        }
        advance_table(&mut self.control_time, &marks);
    }

    /// The number of consecutive frames `ctrl` has been held, the latest
    /// frame included; zero for a control that is up, unbound or unknown.
    pub fn press_time(&self, ctrl: Control) -> (frames: u32)
        ensures
            frames == duration_of(self.durations(), ctrl),
    {
        held_for(&self.control_time, ctrl)
    }

    /// Whether `ctrl` is held: it has been pressed for one frame or more.
    pub fn down(&self, ctrl: Control) -> (held: bool)
        ensures
            held == is_down(self.durations(), ctrl),
    {
        self.press_time(ctrl) >= 1
    }

    /// Whether `ctrl` is up.
    pub fn up(&self, ctrl: Control) -> (idle: bool)
        ensures
            idle == is_up(self.durations(), ctrl),
    {
        self.press_time(ctrl) == 0
    }

    /// Whether `ctrl` went down in the latest frame.
    pub fn clicked(&self, ctrl: Control) -> (fresh: bool)
        ensures
            fresh == is_clicked(self.durations(), ctrl),
    {
        self.press_time(ctrl) == 1
    }

    /// The binding from inputs to controls.
    pub fn control_config(&self) -> (config: &AHashMap<u32, u32>)
        ensures
            entries(*config) == self.config(),
    {
        &self.control_config
    }

    /// The binding from inputs to controls, for editing. Durations already
    /// recorded stay as they are: a control whose last input is unbound while
    /// it is held keeps its duration. Pair an edit with
    /// [`clear_inputs`](Self::clear_inputs).
    pub fn control_config_mut(&mut self) -> (config: &mut AHashMap<u32, u32>)
        ensures
            entries(*config) == old(self).config(),
            final(self).config() == entries(*final(config)),
            final(self).durations() == old(self).durations(),
    {
        &mut self.control_config
    }
}

impl Default for PollingInputHandler {
    fn default() -> (handler: Self)
        ensures
            (handler.config() == Map::<Input, Control>::empty()),
            (handler.durations() == Map::<Control, u32>::empty()),
    {
        PollingInputHandler::new()
    }
}

impl Clone for PollingInputHandler {
    fn clone(&self) -> (copy: Self)
        ensures
            copy.config() == self.config(),
            copy.durations() == self.durations(),
    {
        PollingInputHandler {
            control_config: copy_table(&self.control_config),
            control_time: copy_table(&self.control_time),
        }
    }
}

} // verus!
