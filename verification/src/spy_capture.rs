//! Capture through the `0x8110` spy tap: the per-model map of which buttons
//! are safe to dispatch from it, and the edge decoder that turns consecutive
//! button-state masks into [`CapturedInput`].
//!
//! Starting the tap never stops a button's native HID report. Only buttons
//! with no native report at all can be dispatched from it without
//! double-firing; every entry of a [`SpyButtonMap`] is one of those.

use vstd::prelude::*;

use super::button::ButtonId;
use super::mouse_button_spy::{
    law_pressed_is_ascending_and_exact, MouseButtonIndex, MouseButtonMask, BUTTON_LIMIT,
};

verus! {

/// One input captured from a device.
#[derive(Clone, Copy, Debug, PartialEq, Eq, Structural)]
pub enum CapturedInput {
    ButtonDown(ButtonId),
    ButtonUp(ButtonId),
}

/// One model's buttons captured through the `0x8110` spy tap.
#[derive(Clone, Debug)]
pub struct SpyButtonMap {
    /// Hex `ext` and primary model id of the model.
    pub model_key: &'static str,
    /// `(1-based spy index, dispatched ButtonId)` pairs.
    pub buttons: Vec<(u8, ButtonId)>,
}

/// The pairs name buttons that the spy can report and that gaming mice have,
/// and neither an ordinal nor a button occurs twice.
pub open spec fn is_well_formed(map: Seq<(u8, ButtonId)>) -> bool {
    &&& forall|i: int|
        0 <= i < map.len() ==> 1 <= (#[trigger] map[i]).0 <= BUTTON_LIMIT
            && ButtonId::GAMING_BUTTONS@.contains(map[i].1)
    &&& forall|i: int, j: int|
        0 <= i < j < map.len() ==> (#[trigger] map[i]).0 != (#[trigger] map[j]).0 && map[i].1
            != map[j].1
}

/// The pairs of the G502 X PLUS, as verified on hardware: 5 DPI Shift,
/// 9 Profile Cycling, 10 DPI Up, 11 DPI Down.
pub open spec fn g502_x_plus() -> Seq<(u8, ButtonId)> {
    seq![
        (5u8, ButtonId::DpiShift),
        (9u8, ButtonId::ProfileCycle),
        (10u8, ButtonId::DpiUp),
        (11u8, ButtonId::DpiDown),
    ]
}

/// Known G-series spy-owned button maps.
pub fn spy_button_maps() -> (maps: Vec<SpyButtonMap>)
    ensures
        maps@.len() == 1,
        maps@[0].model_key@ == "04099"@,
        maps@[0].buttons@ == g502_x_plus(),
{
    // 1 left, 2 right, 3 middle, 4/6 side and 7/8 wheel tilt have native
    // reports and are not listed. The firmware still acts on 5/9/10/11 itself
    // while in onboard mode; the tap cannot suppress that.
    let mut buttons: Vec<(u8, ButtonId)> = Vec::new();
    buttons.push((5, ButtonId::DpiShift));
    buttons.push((9, ButtonId::ProfileCycle));
    buttons.push((10, ButtonId::DpiUp));
    buttons.push((11, ButtonId::DpiDown));
    assert(buttons@ =~= g502_x_plus());
    let mut maps: Vec<SpyButtonMap> = Vec::new();
    maps.push(SpyButtonMap { model_key: "04099", buttons });
    maps
}

/// The spy-owned button map for `model_key`, if the device family is known.
pub fn spy_buttons_for_model(model_key: &str) -> (buttons: Option<Vec<(u8, ButtonId)>>)
    ensures
        match buttons {
            Some(buttons) => model_key@ == "04099"@ && buttons@ == g502_x_plus(),
            None => model_key@ != "04099"@,
        },
{
    let wanted = model_key.to_owned();
    let maps = spy_button_maps();
    for map in walked: maps
        invariant
            walked.seq() == maps@,
            wanted@ == model_key@,
            forall|i: int| 0 <= i < walked.index() ==> (#[trigger] maps@[i]).model_key@ != model_key@,
            maps@.len() == 1,
            maps@[0].model_key@ == "04099"@,
            maps@[0].buttons@ == g502_x_plus(),
    {
        if map.model_key.to_owned() == wanted {
            return Some(map.buttons);
        }
    }
    None
}

/// The edge of one mapped button between two masks.
pub open spec fn edge(
    previous: MouseButtonMask,
    current: MouseButtonMask,
    entry: (u8, ButtonId),
) -> Seq<CapturedInput> {
    let was_down = previous.is_down(entry.0 as int);
    let down = current.is_down(entry.0 as int);
    if down && !was_down {
        seq![CapturedInput::ButtonDown(entry.1)]
    } else if !down && was_down {
        seq![CapturedInput::ButtonUp(entry.1)]
    } else {
        Seq::empty()
    }
}

/// The edges of all mapped buttons between two masks, in map order.
pub open spec fn edges(
    previous: MouseButtonMask,
    current: MouseButtonMask,
    map: Seq<(u8, ButtonId)>,
) -> Seq<CapturedInput>
    decreases map.len(),
{
    if map.len() == 0 {
        Seq::empty()
    } else {
        edges(previous, current, map.drop_last()) + edge(previous, current, map.last())
    }
}

/// The down/up edges between two consecutive spy masks.
///
/// The spy reports the whole button state on every change. Bits outside `map`
/// are ignored: they are the natively-handled buttons this device never hands
/// to the spy path. An entry with ordinal 0 names no bit and is skipped.
pub fn spy_edges(
    previous: MouseButtonMask,
    current: MouseButtonMask,
    map: &[(u8, ButtonId)],
) -> (inputs: Vec<CapturedInput>)
    requires
        previous == current || (forall|i: int|
            0 <= i < map@.len() ==> (#[trigger] map@[i]).0 <= BUTTON_LIMIT),
    ensures
        inputs@ == edges(previous, current, map@),
{
    let mut inputs: Vec<CapturedInput> = Vec::new();
    if previous == current {
        proof {
            law_identical_masks_emit_nothing(previous, map@);
        }
        return inputs;
    }
    let mut at: usize = 0;
    assert(map@.take(0) =~= Seq::<(u8, ButtonId)>::empty());
    while at < map.len()
        invariant
            at <= map@.len(),
            forall|i: int| 0 <= i < map@.len() ==> (#[trigger] map@[i]).0 <= BUTTON_LIMIT,
            inputs@ == edges(previous, current, map@.take(at as int)),
        decreases map@.len() - at,
    {
        let (index, button) = map[at];
        let ghost before = inputs@;
        let was_down = previous.contains(index);
        let down = current.contains(index);
        if down && !was_down {
            inputs.push(CapturedInput::ButtonDown(button));
        } else if !down && was_down {
            inputs.push(CapturedInput::ButtonUp(button));
        }
        proof {
            let grown = map@.take(at + 1);
            assert(grown.drop_last() =~= map@.take(at as int));
            assert(inputs@ =~= before + edge(previous, current, grown.last()));
        }
        at = at + 1;
    }
    assert(map@.take(at as int) =~= map@);
    inputs
}

/// A mask that does not change emits nothing.
pub proof fn law_identical_masks_emit_nothing(mask: MouseButtonMask, map: Seq<(u8, ButtonId)>)
    ensures
        edges(mask, mask, map) == Seq::<CapturedInput>::empty(),
    decreases map.len(),
{
    if map.len() > 0 {
        law_identical_masks_emit_nothing(mask, map.drop_last());
    }
}

/// Only mapped buttons matter: masks that agree on them give the same edges.
pub proof fn law_unmapped_buttons_are_ignored(
    previous: MouseButtonMask,
    current: MouseButtonMask,
    other_previous: MouseButtonMask,
    other_current: MouseButtonMask,
    map: Seq<(u8, ButtonId)>,
)
    requires
        forall|i: int|
            0 <= i < map.len() ==> previous.is_down((#[trigger] map[i]).0 as int)
                == other_previous.is_down(map[i].0 as int) && current.is_down(map[i].0 as int)
                == other_current.is_down(map[i].0 as int),
    ensures
        edges(previous, current, map) == edges(other_previous, other_current, map),
    decreases map.len(),
{
    if map.len() > 0 {
        let before = map.drop_last();
        assert(forall|i: int| 0 <= i < before.len() ==> before[i] == map[i]);
        law_unmapped_buttons_are_ignored(
            previous,
            current,
            other_previous,
            other_current,
            before,
        );
        assert(map.last() == map[map.len() - 1]);
    }
}

/// The opposite edge of the same button.
pub open spec fn reversed(input: CapturedInput) -> CapturedInput {
    match input {
        CapturedInput::ButtonDown(button) => CapturedInput::ButtonUp(button),
        CapturedInput::ButtonUp(button) => CapturedInput::ButtonDown(button),
    }
}

/// Going back emits the opposite edges, in the same order: a press followed by
/// its release gives a down edge and then an up edge.
pub proof fn law_going_back_reverses_each_edge(
    previous: MouseButtonMask,
    current: MouseButtonMask,
    map: Seq<(u8, ButtonId)>,
)
    ensures
        edges(current, previous, map) == edges(previous, current, map).map_values(
            |input: CapturedInput| reversed(input),
        ),
    decreases map.len(),
{
    if map.len() > 0 {
        law_going_back_reverses_each_edge(previous, current, map.drop_last());
    }
    assert(edges(current, previous, map) =~= edges(previous, current, map).map_values(
        |input: CapturedInput| reversed(input),
    ));
}

/// The set of held buttons after one more input.
pub open spec fn after_input(held: Set<ButtonId>, input: CapturedInput) -> Set<ButtonId> {
    match input {
        CapturedInput::ButtonDown(button) => held.insert(button),
        CapturedInput::ButtonUp(button) => held.remove(button),
    }
}

/// The set of held buttons after a sequence of inputs.
pub open spec fn after_inputs(held: Set<ButtonId>, inputs: Seq<CapturedInput>) -> Set<ButtonId>
    decreases inputs.len(),
{
    if inputs.len() == 0 {
        held
    } else {
        after_input(after_inputs(held, inputs.drop_last()), inputs.last())
    }
}

/// The mapped buttons that a mask reports pressed.
pub open spec fn held_buttons(mask: MouseButtonMask, map: Seq<(u8, ButtonId)>) -> Set<ButtonId> {
    Set::new(
        |button: ButtonId|
            exists|i: int|
                0 <= i < map.len() && (#[trigger] map[i]).1 == button && mask.is_down(
                    map[i].0 as int,
                ),
    )
}

proof fn lemma_after_inputs_concat(
    held: Set<ButtonId>,
    first: Seq<CapturedInput>,
    second: Seq<CapturedInput>,
)
    ensures
        after_inputs(held, first + second) == after_inputs(after_inputs(held, first), second),
    decreases second.len(),
{
    if second.len() == 0 {
        assert(first + second =~= first);
    } else {
        lemma_after_inputs_concat(held, first, second.drop_last());
        assert((first + second).drop_last() =~= first + second.drop_last());
        assert((first + second).last() == second.last());
    }
}

/// After the edges of a prefix of the map, the prefix's buttons are as the
/// current mask says and every other button is as it was.
proof fn lemma_edges_move_mapped_buttons(
    held: Set<ButtonId>,
    previous: MouseButtonMask,
    current: MouseButtonMask,
    map: Seq<(u8, ButtonId)>,
)
    requires
        is_well_formed(map),
        forall|i: int|
            0 <= i < map.len() ==> held.contains((#[trigger] map[i]).1) == previous.is_down(
                map[i].0 as int,
            ),
    ensures
        forall|i: int|
            0 <= i < map.len() ==> after_inputs(held, edges(previous, current, map)).contains(
                (#[trigger] map[i]).1,
            ) == current.is_down(map[i].0 as int),
        forall|button: ButtonId|
            (forall|i: int| 0 <= i < map.len() ==> (#[trigger] map[i]).1 != button) ==> (
            #[trigger] after_inputs(held, edges(previous, current, map)).contains(button)
                == held.contains(button)),
    decreases map.len(),
{
    if map.len() > 0 {
        let before = map.drop_last();
        let last = map.len() - 1;
        assert(forall|i: int| 0 <= i < before.len() ==> before[i] == map[i]);
        assert(is_well_formed(before));
        lemma_edges_move_mapped_buttons(held, previous, current, before);
        let early = edges(previous, current, before);
        let late = edge(previous, current, map[last]);
        let middle = after_inputs(held, early);
        let end = after_inputs(held, edges(previous, current, map));
        lemma_after_inputs_concat(held, early, late);
        reveal_with_fuel(after_inputs, 2);
        assert(forall|i: int| 0 <= i < before.len() ==> (#[trigger] before[i]).1 != map[last].1);
        assert(middle.contains(map[last].1) == held.contains(map[last].1));
        if late.len() > 0 {
            assert(late.drop_last() =~= Seq::<CapturedInput>::empty());
        }
        assert forall|i: int| 0 <= i < map.len() implies end.contains((#[trigger] map[i]).1)
            == current.is_down(map[i].0 as int) by {
            if i < last {
                assert(before[i] == map[i]);
                assert(map[i].1 != map[last].1);
            }
        }
        assert forall|button: ButtonId|
            (forall|i: int| 0 <= i < map.len() ==> (#[trigger] map[i]).1 != button) implies (
        #[trigger] end.contains(button) == held.contains(button)) by {
            assert(map[last].1 != button);
            assert(forall|i: int| 0 <= i < before.len() ==> (#[trigger] before[i]).1 != button) by {
                assert(forall|i: int| 0 <= i < before.len() ==> (#[trigger] before[i]) == map[i]);
            }
        }
    }
}

/// Whoever applies the edges to the set of held buttons holds, after each
/// mask, exactly the mapped buttons that the mask reports pressed.
pub proof fn law_edges_keep_held_buttons_in_step(
    previous: MouseButtonMask,
    current: MouseButtonMask,
    map: Seq<(u8, ButtonId)>,
)
    requires
        is_well_formed(map),
    ensures
        after_inputs(held_buttons(previous, map), edges(previous, current, map)) == held_buttons(
            current,
            map,
        ),
{
    let held = held_buttons(previous, map);
    assert forall|i: int| 0 <= i < map.len() implies held.contains((#[trigger] map[i]).1)
        == previous.is_down(map[i].0 as int) by {
        if held.contains(map[i].1) {
            let j = choose|j: int|
                0 <= j < map.len() && (#[trigger] map[j]).1 == map[i].1 && previous.is_down(
                    map[j].0 as int,
                );
            assert(j == i);
        }
    }
    lemma_edges_move_mapped_buttons(held, previous, current, map);
    let end = after_inputs(held, edges(previous, current, map));
    assert forall|button: ButtonId| #[trigger] end.contains(button) == held_buttons(
        current,
        map,
    ).contains(button) by {
        if exists|i: int| 0 <= i < map.len() && (#[trigger] map[i]).1 == button {
            let i = choose|i: int| 0 <= i < map.len() && (#[trigger] map[i]).1 == button;
            assert(end.contains(map[i].1) == current.is_down(map[i].0 as int));
            if held_buttons(current, map).contains(button) {
                let j = choose|j: int|
                    0 <= j < map.len() && (#[trigger] map[j]).1 == button && current.is_down(
                        map[j].0 as int,
                    );
                assert(j == i);
            }
        } else {
            assert(!held.contains(button));
        }
    }
    assert(end =~= held_buttons(current, map));
}

/// The inputs of a whole session, from the first mask to the last.
pub open spec fn session_inputs(
    masks: Seq<MouseButtonMask>,
    map: Seq<(u8, ButtonId)>,
) -> Seq<CapturedInput>
    decreases masks.len(),
{
    if masks.len() <= 1 {
        Seq::empty()
    } else {
        session_inputs(masks.drop_last(), map) + edges(
            masks[masks.len() - 2],
            masks[masks.len() - 1],
            map,
        )
    }
}

/// Over a session of any length, the held buttons end up as the last mask
/// reports them.
pub proof fn law_session_ends_with_the_last_mask(
    masks: Seq<MouseButtonMask>,
    map: Seq<(u8, ButtonId)>,
)
    requires
        is_well_formed(map),
        masks.len() > 0,
    ensures
        after_inputs(held_buttons(masks[0], map), session_inputs(masks, map)) == held_buttons(
            masks.last(),
            map,
        ),
    decreases masks.len(),
{
    if masks.len() > 1 {
        let before = masks.drop_last();
        let previous = masks[masks.len() - 2];
        law_session_ends_with_the_last_mask(before, map);
        assert(before.last() == previous);
        assert(before[0] == masks[0]);
        lemma_after_inputs_concat(
            held_buttons(masks[0], map),
            session_inputs(before, map),
            edges(previous, masks.last(), map),
        );
        law_edges_keep_held_buttons_in_step(previous, masks.last(), map);
    }
}

/// Every known map is well formed.
pub proof fn law_spy_button_maps_are_well_formed()
    ensures
        is_well_formed(g502_x_plus()),
{
    let gaming = ButtonId::GAMING_BUTTONS@;
    assert(gaming[0] == ButtonId::DpiShift);
    assert(gaming[1] == ButtonId::ProfileCycle);
    assert(gaming[2] == ButtonId::DpiUp);
    assert(gaming[3] == ButtonId::DpiDown);
}

/// The listed buttons hold the one with this ordinal.
pub open spec fn is_listed(pressed: Seq<MouseButtonIndex>, ordinal: u8) -> bool {
    exists|i: int| 0 <= i < pressed.len() && (#[trigger] pressed[i])@ == ordinal
}

proof fn lemma_listed_is_down(
    mask: MouseButtonMask,
    pressed: Seq<MouseButtonIndex>,
    ordinal: u8,
)
    requires
        pressed.map_values(|index: MouseButtonIndex| index@) == mask.down(),
    ensures
        is_listed(pressed, ordinal) <==> mask.is_down(ordinal as int),
{
    let listed = pressed.map_values(|index: MouseButtonIndex| index@);
    law_pressed_is_ascending_and_exact(mask);
    assert(mask.down().contains(ordinal) <==> mask.is_down(ordinal as int));
    if is_listed(pressed, ordinal) {
        let i = choose|i: int| 0 <= i < pressed.len() && (#[trigger] pressed[i])@ == ordinal;
        assert(listed[i] == ordinal);
    }
    if listed.contains(ordinal) {
        let i = choose|i: int| 0 <= i < listed.len() && listed[i] == ordinal;
        assert(pressed[i]@ == ordinal);
    }
}

/// A mapped button has a down edge exactly if it is pressed in the current
/// mask and was not in the previous one, an up edge exactly the other way
/// round, and no edge otherwise.
pub proof fn law_one_button_has_one_edge(
    previous: MouseButtonMask,
    current: MouseButtonMask,
    map: &[(u8, ButtonId)],
    ordinal: u8,
    button: ButtonId,
    before: Vec<MouseButtonIndex>,
    now: Vec<MouseButtonIndex>,
    inputs: Vec<CapturedInput>,
)
    requires
        map@ == seq![(ordinal, button)],
        call_ensures(MouseButtonMask::pressed, (previous,), before),
        call_ensures(MouseButtonMask::pressed, (current,), now),
        call_ensures(spy_edges, (previous, current, map), inputs),
    ensures
        is_listed(now@, ordinal) && !is_listed(before@, ordinal) ==> inputs@ == seq![
            CapturedInput::ButtonDown(button),
        ],
        is_listed(before@, ordinal) && !is_listed(now@, ordinal) ==> inputs@ == seq![
            CapturedInput::ButtonUp(button),
        ],
        is_listed(before@, ordinal) == is_listed(now@, ordinal) ==> inputs@.len() == 0,
{
    lemma_listed_is_down(previous, before@, ordinal);
    lemma_listed_is_down(current, now@, ordinal);
    assert(map@.drop_last() =~= Seq::<(u8, ButtonId)>::empty());
    assert(map@.last() == (ordinal, button));
    reveal_with_fuel(edges, 2);
    assert(inputs@ =~= edge(previous, current, (ordinal, button)));
}

proof fn lemma_edges_of_two_maps(
    previous: MouseButtonMask,
    current: MouseButtonMask,
    first: Seq<(u8, ButtonId)>,
    second: Seq<(u8, ButtonId)>,
)
    ensures
        edges(previous, current, first + second) == edges(previous, current, first) + edges(
            previous,
            current,
            second,
        ),
    decreases second.len(),
{
    if second.len() == 0 {
        assert(first + second =~= first);
        assert(edges(previous, current, first) + Seq::<CapturedInput>::empty() =~= edges(
            previous,
            current,
            first,
        ));
    } else {
        lemma_edges_of_two_maps(previous, current, first, second.drop_last());
        assert((first + second).drop_last() =~= first + second.drop_last());
        assert((first + second).last() == second.last());
        assert(edges(previous, current, first + second) =~= edges(previous, current, first)
            + edges(previous, current, second));
    }
}

/// Each entry of the map is decoded on its own, in the order of the map: the
/// edges for two maps one after the other are the edges for the first, then
/// those for the second.
pub proof fn law_edges_come_entry_by_entry(
    previous: MouseButtonMask,
    current: MouseButtonMask,
    first: &[(u8, ButtonId)],
    second: &[(u8, ButtonId)],
    both: &[(u8, ButtonId)],
    first_inputs: Vec<CapturedInput>,
    second_inputs: Vec<CapturedInput>,
    inputs: Vec<CapturedInput>,
)
    requires
        both@ == first@ + second@,
        call_ensures(spy_edges, (previous, current, first), first_inputs),
        call_ensures(spy_edges, (previous, current, second), second_inputs),
        call_ensures(spy_edges, (previous, current, both), inputs),
    ensures
        inputs@ == first_inputs@ + second_inputs@,
{
    lemma_edges_of_two_maps(previous, current, first@, second@);
}

/// Edges can be asked for with every map whose ordinals the spy can report,
/// and with any map where the mask does not change.
pub proof fn law_edges_can_be_asked_for(
    previous: MouseButtonMask,
    current: MouseButtonMask,
    map: &[(u8, ButtonId)],
)
    requires
        previous == current || forall|i: int| 0 <= i < map@.len() ==> (#[trigger] map@[i]).0 <= 16,
    ensures
        call_requires(spy_edges, (previous, current, map)),
{
}

/// The model that is known is found by its own key and by no other, and the
/// list of maps and the lookup agree.
pub proof fn law_known_models_are_found_by_their_key(
    maps: Vec<SpyButtonMap>,
    model_key: &str,
    found: Option<Vec<(u8, ButtonId)>>,
)
    requires
        call_ensures(spy_button_maps, (), maps),
        call_ensures(spy_buttons_for_model, (model_key,), found),
    ensures
        maps@.len() == 1,
        found is Some <==> model_key@ == maps@[0].model_key@,
        found is Some <==> model_key@ == "04099"@,
        found matches Some(buttons) ==> buttons@ == maps@[0].buttons@,
{
}

/// Only buttons without a native report are captured: the left, right, middle,
/// side and wheel-tilt buttons of the known model are in no map, and each
/// gaming button is in it once, in the order of the gaming buttons and of the
/// ordinals.
pub proof fn law_native_buttons_are_not_captured(
    model_key: &str,
    buttons: Vec<(u8, ButtonId)>,
)
    requires
        call_ensures(spy_buttons_for_model, (model_key,), Some(buttons)),
    ensures
        forall|i: int|
            0 <= i < buttons@.len() ==> {
                let ordinal = (#[trigger] buttons@[i]).0;
                &&& !(1 <= ordinal <= 4)
                &&& !(6 <= ordinal <= 8)
                &&& ordinal == 5 || 9 <= ordinal <= 11
            },
        forall|i: int, j: int|
            0 <= i < j < buttons@.len() ==> (#[trigger] buttons@[i]).0 < (#[trigger] buttons@[j]).0,
        buttons@.map_values(|entry: (u8, ButtonId)| entry.1) == ButtonId::GAMING_BUTTONS@,
{
    let gaming = ButtonId::GAMING_BUTTONS@;
    assert(gaming[0] == ButtonId::DpiShift && gaming[1] == ButtonId::ProfileCycle);
    assert(gaming[2] == ButtonId::DpiUp && gaming[3] == ButtonId::DpiDown);
    assert(buttons@.map_values(|entry: (u8, ButtonId)| entry.1) =~= gaming);
}

} // verus!
