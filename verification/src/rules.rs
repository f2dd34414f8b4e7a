//! The bookkeeping rule that every handler follows, as mathematics.
//!
//! A handler's state is a binding (`Map<Input, Control>`) and a duration table
//! (`Map<Control, u32>`). Each frame, every bound control that is active has
//! its duration raised by one and every bound control that is not active has
//! it set to zero. Controls that nothing is bound to are left alone.

use vstd::prelude::*;

verus! {

/// Identity of a physical input, as the host engine numbers it.
pub type Input = u32;

/// Identity of a semantic control, as the game numbers it.
pub type Control = u32;

/// The number of consecutive frames `control` has been held according to
/// `durations`. A control without an entry has not been held.
pub open spec fn duration_of(durations: Map<Control, u32>, control: Control) -> u32 {
    if durations.contains_key(control) {
        durations[control]
    } else {
        0
    }
}

/// The control has been held for at least one frame.
pub open spec fn is_down(durations: Map<Control, u32>, control: Control) -> bool {
    duration_of(durations, control) >= 1
}

/// The control is not held.
pub open spec fn is_up(durations: Map<Control, u32>, control: Control) -> bool {
    duration_of(durations, control) == 0
}

/// The control went from not held to held in the latest frame.
pub open spec fn is_clicked(durations: Map<Control, u32>, control: Control) -> bool {
    duration_of(durations, control) == 1
}

/// The controls that at least one input is bound to.
pub open spec fn bound_controls(config: Map<Input, Control>) -> Set<Control> {
    Set::new(|control: Control| exists|input: Input| config.contains_pair(input, control))
}

/// The controls that the inputs in `inputs` activate: a control is active as
/// soon as one of the inputs bound to it is.
pub open spec fn activated(config: Map<Input, Control>, inputs: Set<Input>) -> Set<Control> {
    Set::new(
        |control: Control|
            exists|input: Input| inputs.contains(input) && config.contains_pair(input, control),
    )
}

/// One control's duration after a frame. The count stops at `u32::MAX`
/// instead of wrapping, so a held control never reads as released.
pub open spec fn next_duration(previous: u32, active: bool) -> u32 {
    if !active {
        0
    } else if previous < u32::MAX {
        (previous + 1) as u32
    } else {
        u32::MAX
    }
}

/// The duration table after a frame in which exactly the controls in `active`
/// were active. Every control in `controls` gets an entry; all other entries
/// are kept as they are.
pub open spec fn advance(
    controls: Set<Control>,
    durations: Map<Control, u32>,
    active: Set<Control>,
) -> Map<Control, u32> {
    Map::new(
        |control: Control| controls.contains(control) || durations.contains_key(control),
        |control: Control|
            if controls.contains(control) {
                next_duration(duration_of(durations, control), active.contains(control))
            } else {
                durations[control]
            },
    )
}

/// The pressed set after a press of `input`: its control joins the set. An
/// input that is not bound changes nothing.
pub open spec fn press(config: Map<Input, Control>, pressed: Set<Control>, input: Input) -> Set<
    Control,
> {
    if config.contains_key(input) {
        pressed.insert(config[input])
    } else {
        pressed
    }
}

/// The pressed set after a release of `input`: its control leaves the set. An
/// input that is not bound changes nothing.
pub open spec fn release(config: Map<Input, Control>, pressed: Set<Control>, input: Input) -> Set<
    Control,
> {
    if config.contains_key(input) {
        pressed.remove(config[input])
    } else {
        pressed
    }
}

/// Entry `n` of `pairs` is the earliest entry that names its input.
pub open spec fn is_first(pairs: Seq<(Input, Control)>, n: int) -> bool {
    0 <= n < pairs.len() && forall|m: int| 0 <= m < n ==> pairs[m].0 != pairs[n].0
}

/// The binding that an ordered list of pairs describes. Where an input is
/// named more than once, the earliest pair decides and the later ones are
/// dropped.
pub open spec fn first_wins(pairs: Seq<(Input, Control)>) -> Map<Input, Control> {
    Map::new(
        |input: Input| exists|n: int| is_first(pairs, n) && pairs[n].0 == input,
        |input: Input| pairs[choose|n: int| is_first(pairs, n) && pairs[n].0 == input].1,
    )
}

/// The earliest pair that names an input is part of the binding.
pub proof fn lemma_first_wins_entry(pairs: Seq<(Input, Control)>, n: int)
    requires
        is_first(pairs, n),
    ensures
        first_wins(pairs).contains_pair(pairs[n].0, pairs[n].1),
{
    let m = choose|m: int| is_first(pairs, m) && pairs[m].0 == pairs[n].0;
    assert(m == n);
}

/// An input that some pair names is bound.
pub proof fn lemma_first_wins_binds(pairs: Seq<(Input, Control)>, n: int)
    requires
        0 <= n < pairs.len(),
    ensures
        first_wins(pairs).contains_key(pairs[n].0),
    decreases n,
{
    if !is_first(pairs, n) {
        let m = choose|m: int| 0 <= m < n && pairs[m].0 == pairs[n].0;
        lemma_first_wins_binds(pairs, m);
    }
}

/// Two maps that hold the same pairs are the same map.
pub proof fn lemma_same_pairs(a: Map<u32, u32>, b: Map<u32, u32>)
    requires
        forall|k: u32, v: u32| a.contains_pair(k, v) <==> b.contains_pair(k, v),
    ensures
        a == b,
{
    assert forall|k: u32| a.contains_key(k) == b.contains_key(k) by {
        if a.contains_key(k) {
            assert(a.contains_pair(k, a[k]));
        }
        if b.contains_key(k) {
            assert(b.contains_pair(k, b[k]));
        }
    }
    assert forall|k: u32| a.contains_key(k) implies a[k] == b[k] by {
        assert(a.contains_pair(k, a[k]));
    }
    assert(a =~= b);
}

/// Reading one more pair binds its input unless that input is bound already.
pub proof fn lemma_first_wins_push(pairs: Seq<(Input, Control)>, input: Input, control: Control)
    ensures
        first_wins(pairs.push((input, control))) == if first_wins(pairs).contains_key(input) {
            first_wins(pairs)
        } else {
            first_wins(pairs).insert(input, control)
        },
{
    let longer = pairs.push((input, control));
    let last = pairs.len() as int;
    let expected = if first_wins(pairs).contains_key(input) {
        first_wins(pairs)
    } else {
        first_wins(pairs).insert(input, control)
    };
    // Among the old pairs, the same ones come first as before.
    assert forall|n: int| 0 <= n < last implies is_first(longer, n) == is_first(pairs, n) by {
        if is_first(longer, n) {
            assert forall|m: int| 0 <= m < n implies pairs[m].0 != pairs[n].0 by {
                assert(longer[m] == pairs[m]);
            }
        }
    }
    // The new pair comes first exactly if no old pair names its input.
    if first_wins(pairs).contains_key(input) {
        let m = choose|m: int| is_first(pairs, m) && pairs[m].0 == input;
        assert(longer[m].0 == longer[last].0);
    } else {
        assert forall|m: int| 0 <= m < last implies longer[m].0 != longer[last].0 by {
            if pairs[m].0 == input {
                lemma_first_wins_binds(pairs, m);
            }
        }
        lemma_first_wins_entry(longer, last);
    }
    assert forall|i: Input, c: Control|
        first_wins(longer).contains_pair(i, c) <==> expected.contains_pair(i, c) by {
        if first_wins(longer).contains_pair(i, c) {
            let n = choose|n: int| is_first(longer, n) && longer[n].0 == i;
            if n < last {
                lemma_first_wins_entry(pairs, n);
            }
        }
        if first_wins(pairs).contains_pair(i, c) {
            let n = choose|n: int| is_first(pairs, n) && pairs[n].0 == i;
            lemma_first_wins_entry(longer, n);
        }
    }
    lemma_same_pairs(first_wins(longer), expected);
}

/// A pair is part of the binding built from a list exactly if it is the
/// earliest pair of the list that names its input.
pub proof fn lemma_first_wins_pairs(pairs: Seq<(Input, Control)>, input: Input, control: Control)
    ensures
        first_wins(pairs).contains_pair(input, control) <==> exists|n: int|
            is_first(pairs, n) && #[trigger] pairs[n] == (input, control),
{
    if first_wins(pairs).contains_pair(input, control) {
        let n = choose|n: int| is_first(pairs, n) && pairs[n].0 == input;
        assert(is_first(pairs, n) && pairs[n] == (input, control));
    }
    if exists|n: int| is_first(pairs, n) && #[trigger] pairs[n] == (input, control) {
        let n = choose|n: int| is_first(pairs, n) && #[trigger] pairs[n] == (input, control);
        lemma_first_wins_entry(pairs, n);
    }
}

/// Two pairs for one input bind it to the control of the first pair, and
/// bind nothing else.
pub proof fn lemma_duplicate_input_keeps_first(input: Input, first: Control, second: Control)
    ensures
        first_wins(seq![(input, first), (input, second)]) == map![input => first],
{
    let pairs = seq![(input, first), (input, second)];
    let expected = map![input => first];
    assert(is_first(pairs, 0));
    assert(!is_first(pairs, 1)) by {
        assert(pairs[0].0 == pairs[1].0);
    }
    assert forall|i: Input, c: Control|
        first_wins(pairs).contains_pair(i, c) <==> expected.contains_pair(i, c) by {
        lemma_first_wins_pairs(pairs, i, c);
    }
    lemma_same_pairs(first_wins(pairs), expected);
}

/// One more active input that is bound adds its control to the active ones.
pub proof fn lemma_activated_insert(config: Map<Input, Control>, inputs: Set<Input>, input: Input)
    ensures
        activated(config, inputs.insert(input)) == if config.contains_key(input) {
            activated(config, inputs).insert(config[input])
        } else {
            activated(config, inputs)
        },
{
    let before = activated(config, inputs);
    let after = activated(config, inputs.insert(input));
    let expected = if config.contains_key(input) {
        before.insert(config[input])
    } else {
        before
    };
    assert forall|c: Control| after.contains(c) == expected.contains(c) by {
        if before.contains(c) {
            let i = choose|i: Input| inputs.contains(i) && config.contains_pair(i, c);
            assert(inputs.insert(input).contains(i) && config.contains_pair(i, c));
        }
        if config.contains_key(input) && c == config[input] {
            assert(inputs.insert(input).contains(input) && config.contains_pair(input, c));
        }
    }
    assert(after =~= expected);
}

/// With no input active, no control is.
pub proof fn lemma_activated_by_none(config: Map<Input, Control>)
    ensures
        activated(config, Set::<Input>::empty()) == Set::<Control>::empty(),
{
    assert(activated(config, Set::<Input>::empty()) =~= Set::<Control>::empty());
}

} // verus!
