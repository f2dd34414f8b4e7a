//! Operations on the two tables that all handlers share: building a binding
//! from a list of pairs, reading a duration, and moving the duration table on
//! by one frame.

use crate::rules::{
    activated, advance, bound_controls, duration_of, first_wins, lemma_activated_by_none,
    lemma_activated_insert, lemma_first_wins_push, next_duration, Control, Input,
};
use crate::store::{empty_table, entries, lists_once, lookup, put};
use ahash::AHashMap;
use vstd::prelude::*;
use vstd::seq_lib::seq_to_set_is_finite;

verus! {

/// The controls that a list of marks names.
pub open spec fn marked(marks: Seq<(Control, bool)>) -> Set<Control> {
    Set::new(|control: Control| exists|n: int| 0 <= n < marks.len() && marks[n].0 == control)
}

/// The controls that a list of marks names as active.
pub open spec fn lit(marks: Seq<(Control, bool)>) -> Set<Control> {
    Set::new(
        |control: Control|
            exists|n: int| 0 <= n < marks.len() && marks[n].0 == control && marks[n].1,
    )
}

/// No control is marked both active and inactive.
pub open spec fn consistent(marks: Seq<(Control, bool)>) -> bool {
    forall|m: int, n: int|
        0 <= m < marks.len() && 0 <= n < marks.len() && marks[m].0 == marks[n].0 ==> marks[m].1
            == marks[n].1
}

/// Builds a binding from `pairs`, read front to back. An input that is
/// already bound keeps its control: of several pairs for one input the first
/// decides.
pub(crate) fn bind_first(pairs: &Vec<(Input, Control)>) -> (config: AHashMap<u32, u32>)
    ensures
        entries(config) == first_wins(pairs@),
{
    let mut config = empty_table();
    let mut n: usize = 0;
    while n < pairs.len()
        invariant
            n <= pairs.len(),
            entries(config) == first_wins(pairs@.take(n as int)),
        decreases pairs.len() - n,
    {
        let (input, control) = pairs[n];
        proof {
            lemma_first_wins_push(pairs@.take(n as int), input, control);
            assert(pairs@.take(n as int).push((input, control)) =~= pairs@.take(n + 1));
        }
        // Insert only where the input is still unbound, so that an earlier
        // pair is never overwritten by a later one.
        if lookup(&config, input).is_none() {
            put(&mut config, input, control);
        }
        n += 1;
    }
    assert(pairs@.take(n as int) =~= pairs@);
    config
}

/// The number of consecutive frames `control` has been held; zero where the
/// table has no entry for it.
pub(crate) fn held_for(durations: &AHashMap<u32, u32>, control: Control) -> (frames: u32)
    ensures
        frames == duration_of(entries(*durations), control),
{
    match lookup(durations, control) {
        Some(frames) => frames,
        None => 0,
    }
}

/// Moves the duration table on by one frame. Every marked control gets its
/// new duration, computed from the table as it was before the call, so a
/// control that is marked several times still advances by one.
pub(crate) fn advance_table(durations: &mut AHashMap<u32, u32>, marks: &Vec<(Control, bool)>)
    requires
        consistent(marks@),
    ensures
        entries(*final(durations)) == advance(
            marked(marks@),
            entries(*old(durations)),
            lit(marks@),
        ),
{
    let ghost before = entries(*durations);
    let mut plan: Vec<(Control, u32)> = Vec::new();
    let mut n: usize = 0;
    while n < marks.len()
        invariant
            n <= marks.len(),
            plan.len() == n,
            entries(*durations) == before,
            forall|k: int|
                0 <= k < n ==> (#[trigger] plan[k]) == (
                    marks[k].0,
                    next_duration(duration_of(before, marks[k].0), marks[k].1),
                ),
        decreases marks.len() - n,
    {
        let (control, active) = marks[n];
        let next: u32 = if active {
            held_for(durations, control).saturating_add(1)
        } else {
            0
        };
        plan.push((control, next));
        n += 1;
    }
    let mut n: usize = 0;
    while n < plan.len()
        invariant
            n <= plan.len(),
            plan.len() == marks.len(),
            consistent(marks@),
            forall|k: int|
                0 <= k < plan.len() ==> (#[trigger] plan[k]) == (
                    marks[k].0,
                    next_duration(duration_of(before, marks[k].0), marks[k].1),
                ),
            entries(*durations) == advance(marked(marks@.take(n as int)), before, lit(marks@)),
        decreases plan.len() - n,
    {
        let (control, next) = plan[n];
        proof {
            let shorter = marks@.take(n as int);
            let longer = marks@.take(n + 1);
            assert(longer[n as int] == marks@[n as int]);
            assert(lit(marks@).contains(control) == marks[n as int].1);
            assert forall|c: Control|
                marked(longer).contains(c) == (marked(shorter).contains(c) || c == control) by {
                if marked(shorter).contains(c) {
                    let k = choose|k: int| 0 <= k < shorter.len() && shorter[k].0 == c;
                    assert(longer[k].0 == c);
                }
                if marked(longer).contains(c) && c != control {
                    let k = choose|k: int| 0 <= k < longer.len() && longer[k].0 == c;
                    assert(shorter[k].0 == c);
                }
            }
            assert(advance(marked(shorter), before, lit(marks@)).insert(control, next)
                =~= advance(marked(longer), before, lit(marks@)));
        }
        put(durations, control, next);
        n += 1;
    }
    assert(marks@.take(n as int) =~= marks@);
}

/// Whether `wanted` occurs in `list`.
pub(crate) fn list_has(list: &Vec<u32>, wanted: u32) -> (found: bool)
    ensures
        found == list@.contains(wanted),
{
    let mut n: usize = 0;
    while n < list.len()
        invariant
            n <= list.len(),
            forall|k: int| 0 <= k < n ==> list[k] != wanted,
        decreases list.len() - n,
    {
        if list[n] == wanted {
            return true;
        }
        n += 1;
    }
    false
}

/// The controls that `inputs` activate under `config`, one for every listed
/// input that is bound. Inputs that are not bound are passed over, and an
/// input listed twice contributes its control twice.
pub(crate) fn controls_for(config: &AHashMap<u32, u32>, inputs: &Vec<Input>) -> (active: Vec<
    Control,
>)
    ensures
        active@.to_set() == activated(entries(*config), inputs@.to_set()),
{
    let mut active: Vec<Control> = Vec::new();
    let mut n: usize = 0;
    proof {
        lemma_activated_by_none(entries(*config));
    }
    while n < inputs.len()
        invariant
            n <= inputs.len(),
            active@.to_set() == activated(entries(*config), inputs@.take(n as int).to_set()),
        decreases inputs.len() - n,
    {
        let input = inputs[n];
        proof {
            assert(inputs@.take(n + 1) =~= inputs@.take(n as int).push(input));
            inputs@.take(n as int).lemma_push_to_set_commute(input);
            lemma_activated_insert(entries(*config), inputs@.take(n as int).to_set(), input);
        }
        match lookup(config, input) {
            Some(control) => {
                proof {
                    active@.lemma_push_to_set_commute(control);
                }
                active.push(control);
            },
            None => {},
        }
        n += 1;
    }
    assert(inputs@.take(n as int) =~= inputs@);
    active
}

/// Marks the control of every binding as active or not, according to whether
/// it occurs in `active`.
pub(crate) fn mark_listed(bindings: &Vec<(Input, Control)>, active: &Vec<Control>) -> (marks: Vec<
    (Control, bool),
>)
    ensures
        marks.len() == bindings.len(),
        forall|n: int|
            0 <= n < marks.len() ==> (#[trigger] marks[n]) == (
                bindings[n].1,
                active@.to_set().contains(bindings[n].1),
            ),
{
    let mut marks: Vec<(Control, bool)> = Vec::new();
    let mut n: usize = 0;
    while n < bindings.len()
        invariant
            n <= bindings.len(),
            marks.len() == n,
            forall|k: int|
                0 <= k < n ==> (#[trigger] marks[k]) == (
                    bindings[k].1,
                    active@.to_set().contains(bindings[k].1),
                ),
        decreases bindings.len() - n,
    {
        let control = bindings[n].1;
        marks.push((control, list_has(active, control)));
        n += 1;
    }
    marks
}

/// A list that holds every pair of a table once is as long as the table has
/// keys, and such a table has finitely many.
pub proof fn lemma_lists_once_len(contents: Map<u32, u32>, pairs: Seq<(u32, u32)>)
    requires
        lists_once(contents, pairs),
    ensures
        contents.dom().finite(),
        pairs.len() == contents.dom().len(),
{
    let keys = pairs.map_values(|pair: (u32, u32)| pair.0);
    assert(keys.no_duplicates()) by {
        assert forall|m: int, n: int|
            0 <= m < keys.len() && 0 <= n < keys.len() && m != n implies keys[m] != keys[n] by {
            if m < n {
                assert(pairs[m].0 != pairs[n].0);
            } else {
                assert(pairs[n].0 != pairs[m].0);
            }
        }
    }
    assert forall|key: u32| keys.to_set().contains(key) == contents.dom().contains(key) by {
        if keys.contains(key) {
            let n = choose|n: int| 0 <= n < keys.len() && keys[n] == key;
            assert(contents.contains_pair(pairs[n].0, pairs[n].1));
        }
        if contents.contains_key(key) {
            let n = choose|n: int| 0 <= n < pairs.len() && (#[trigger] pairs[n]).0 == key;
            assert(keys[n] == key);
        }
    }
    assert(keys.to_set() =~= contents.dom());
    keys.unique_seq_to_set();
    seq_to_set_is_finite(keys);
}

/// Marks that follow a binding's pairs one by one, each telling whether its
/// control is in `active`, describe a frame of that binding in which exactly
/// the controls in `active` are active.
pub proof fn lemma_marks_describe_frame(
    config: Map<Input, Control>,
    bindings: Seq<(Input, Control)>,
    marks: Seq<(Control, bool)>,
    active: Set<Control>,
    durations: Map<Control, u32>,
)
    requires
        lists_once(config, bindings),
        marks.len() == bindings.len(),
        forall|n: int|
            0 <= n < marks.len() ==> (#[trigger] marks[n]) == (
                bindings[n].1,
                active.contains(bindings[n].1),
            ),
    ensures
        consistent(marks),
        marked(marks) == bound_controls(config),
        advance(marked(marks), durations, lit(marks)) == advance(
            bound_controls(config),
            durations,
            active,
        ),
{
    assert forall|c: Control| marked(marks).contains(c) == bound_controls(config).contains(c) by {
        if marked(marks).contains(c) {
            let n = choose|n: int| 0 <= n < marks.len() && marks[n].0 == c;
            assert(config.contains_pair(bindings[n].0, c));
        }
        if bound_controls(config).contains(c) {
            let i = choose|i: Input| config.contains_pair(i, c);
            let n = choose|n: int| 0 <= n < bindings.len() && (#[trigger] bindings[n]).0 == i;
            assert(marks[n].0 == c);
        }
    }
    assert(marked(marks) =~= bound_controls(config));
    assert forall|c: Control| marked(marks).contains(c) implies lit(marks).contains(c)
        == active.contains(c) by {
        let n = choose|n: int| 0 <= n < marks.len() && marks[n].0 == c;
        assert(marks[n].1 == active.contains(c));
    }
    assert(advance(marked(marks), durations, lit(marks)) =~= advance(
        bound_controls(config),
        durations,
        active,
    ));
}

} // verus!
