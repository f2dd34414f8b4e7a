//! The handler for engines that answer whether a given input is down.

use crate::rules::{
    activated, advance, bound_controls, duration_of, first_wins, is_clicked, is_down, is_up,
    lemma_activated_by_none, lemma_activated_insert, Control, Input,
};
use crate::store::{clear_table, copy_table, empty_table, entries, lists_once, pairs_of};
use crate::table::{
    advance_table, bind_first, held_for, lemma_marks_describe_frame, mark_listed,
};
use ahash::AHashMap;
use vstd::prelude::*;

verus! {

/// `answers` is a possible outcome of asking `is_pressed` about every input
/// that `config` binds: it holds the inputs for which the answer was yes.
pub open spec fn answers_for<F: FnMut(Input) -> bool>(
    config: Map<Input, Control>,
    is_pressed: F,
    answers: Set<Input>,
) -> bool {
    forall|input: Input| #[trigger]
        config.contains_key(input) ==> call_ensures(
            is_pressed,
            (input,),
            answers.contains(input),
        )
}

/// Input handler for an engine that can be asked about one input at a time.
///
/// Once per frame, before reading any control, hand
/// [`update`](Self::update) a function that tells whether an input is down.
/// It is asked about every bound input, once each, every frame; answers are
/// not cached, and two inputs bound to one control are both asked about.
#[derive(Debug)]
pub struct QueryInputHandler {
    /// Maps inputs to the controls they activate.
    control_config: AHashMap<u32, u32>,
    /// How many consecutive frames each control has been held.
    control_time: AHashMap<u32, u32>,
}

impl QueryInputHandler {
    /// The binding from inputs to controls.
    pub closed spec fn config(&self) -> Map<Input, Control> {
        entries(self.control_config)
    }

    /// The duration table: consecutive frames held, per control.
    pub closed spec fn durations(&self) -> Map<Control, u32> {
        entries(self.control_time)
    }

    /// Creates a handler that binds no input.
    pub fn new() -> (handler: Self)
        ensures
            (handler.config() == Map::<Input, Control>::empty()),
            (handler.durations() == Map::<Control, u32>::empty()),
    {
        QueryInputHandler { control_config: empty_table(), control_time: empty_table() }
    }

    /// Creates a handler with the given bindings. Where two pairs name the
    /// same input, the earlier pair is kept and the later one is ignored.
    pub fn new_with_controls(map: Vec<(Input, Control)>) -> (handler: Self)
        ensures
            handler.config() == first_wins(map@),
            (handler.durations() == Map::<Control, u32>::empty()),
    {
        QueryInputHandler { control_config: bind_first(&map), control_time: empty_table() }
    }

    /// Forgets every duration, so that every control reads as up at once.
    /// Calling this at the top of every frame, before `update`, would keep
    /// every duration from ever passing one.
    pub fn clear_inputs(&mut self)
        ensures
            (final(self).durations() == Map::<Control, u32>::empty()),
            final(self).config() == old(self).config(),
    {
        clear_table(&mut self.control_time);
    }

    /// Moves on by one frame, asking `is_pressed` which inputs are down:
    /// every bound control with at least one input answered yes has been held
    /// one frame longer, every other bound control has been held for zero
    /// frames. `is_pressed` is called once for every bound input and for no
    /// other. A duration that has reached `u32::MAX` stays there while the
    /// control is held.
    pub fn update<F: FnMut(Input) -> bool>(&mut self, mut is_pressed: F)
        requires
            forall|input: Input| #[trigger]
                old(self).config().contains_key(input) ==> call_requires(is_pressed, (input,)),
        ensures
            exists|answers: Set<Input>|
                answers_for(old(self).config(), is_pressed, answers) && final(self).durations()
                    == advance(
                    bound_controls(old(self).config()),
                    old(self).durations(),
                    #[trigger] activated(old(self).config(), answers),
                ),
            final(self).config() == old(self).config(),
    {
        let bindings = pairs_of(&self.control_config);
        let ghost config = self.config();
        let ghost asked = is_pressed;
        let ghost mut answers: Set<Input> = Set::empty();
        let mut pressed_controls: Vec<Control> = Vec::new();
        let mut n: usize = 0;
        proof {
            lemma_activated_by_none(config);
        }
        while n < bindings.len()
            invariant
                n <= bindings.len(),
                is_pressed == asked,
                config == entries(self.control_config),
                lists_once(config, bindings@),
                forall|input: Input| #[trigger]
                    config.contains_key(input) ==> call_requires(is_pressed, (input,)),
                forall|k: int|
                    0 <= k < n ==> call_ensures(
                        is_pressed,
                        ((#[trigger] bindings[k]).0,),
                        answers.contains(bindings[k].0),
                    ),
                forall|input: Input|
                    answers.contains(input) ==> exists|k: int|
                        0 <= k < n && (#[trigger] bindings[k]).0 == input,
                pressed_controls@.to_set() == activated(config, answers),
            decreases bindings.len() - n,
        {
            let (input, control) = bindings[n];
            if is_pressed(input) {
                proof {
                    lemma_activated_insert(config, answers, input);
                    pressed_controls@.lemma_push_to_set_commute(control);
                    answers = answers.insert(input);
                }
                pressed_controls.push(control);
            }
            n += 1;
        }
        let marks = mark_listed(&bindings, &pressed_controls);
        proof {
            lemma_marks_describe_frame(
                config,
                bindings@,
                marks@,
                pressed_controls@.to_set(),
                self.durations(),
            );
            assert(answers_for(config, is_pressed, answers));
        }
        advance_table(&mut self.control_time, &marks);
    }

    /// The number of consecutive frames `ctrl` has been held, the latest
    /// frame included; zero for a control that is up, unbound or unknown.
    pub fn press_time(&self, ctrl: Control) -> (frames: u32)
        ensures
            frames == duration_of(self.durations(), ctrl),
    {
        held_for(&self.control_time, ctrl)
    }

    /// Whether `ctrl` is held: it has been pressed for one frame or more.
    pub fn down(&self, ctrl: Control) -> (held: bool)
        ensures
            held == is_down(self.durations(), ctrl),
    {
        self.press_time(ctrl) >= 1
    }

    /// Whether `ctrl` is up.
    pub fn up(&self, ctrl: Control) -> (idle: bool)
        ensures
            idle == is_up(self.durations(), ctrl),
    {
        self.press_time(ctrl) == 0
    }

    /// Whether `ctrl` went down in the latest frame.
    pub fn clicked(&self, ctrl: Control) -> (fresh: bool)
        ensures
            fresh == is_clicked(self.durations(), ctrl),
    {
        self.press_time(ctrl) == 1
    }

    /// The binding from inputs to controls.
    pub fn control_config(&self) -> (config: &AHashMap<u32, u32>)
        ensures
            entries(*config) == self.config(),
    {
        &self.control_config
    }

    /// The binding from inputs to controls, for editing. Durations already
    /// recorded stay as they are: a control whose last input is unbound while
    /// it is held keeps its duration. Pair an edit with
    /// [`clear_inputs`](Self::clear_inputs).
    pub fn control_config_mut(&mut self) -> (config: &mut AHashMap<u32, u32>)
        ensures
            entries(*config) == old(self).config(),
            final(self).config() == entries(*final(config)),
            final(self).durations() == old(self).durations(),
    {
        &mut self.control_config
    }
}

impl Default for QueryInputHandler {
    fn default() -> (handler: Self)
        ensures
            (handler.config() == Map::<Input, Control>::empty()),
            (handler.durations() == Map::<Control, u32>::empty()),
    {
        QueryInputHandler::new()
    }
}

impl Clone for QueryInputHandler {
    fn clone(&self) -> (copy: Self)
        ensures
            copy.config() == self.config(),
            copy.durations() == self.durations(),
    {
        QueryInputHandler {
            control_config: copy_table(&self.control_config),
            control_time: copy_table(&self.control_time),
        }
    }
}

} // verus!
