use vstd::prelude::*;

verus! {

/// The phase of a round.
#[derive(Clone, Copy, Debug, PartialEq, Eq, Hash, Structural)]
pub enum GameState {
    Start,
    Running,
    Paused,
    GameOver,
}

impl Default for GameState {
    fn default() -> (state: GameState)
        ensures
            state == GameState::Start,
    {
        GameState::Start
    }
}

/// The state that a toggle press leads to.
pub open spec fn toggled(state: GameState) -> GameState {
    match state {
        GameState::Start => GameState::Running,
        GameState::Running => GameState::Paused,
        GameState::Paused => GameState::Running,
        GameState::GameOver => GameState::Running,
    }
}

/// The toggle key from tick to tick: it turns the level of the key, held or
/// not, into presses.
#[derive(Clone, Copy, Debug, PartialEq, Eq, Structural)]
pub struct ToggleKey {
    pub held: bool,
}

impl ToggleKey {
    /// A key that is not held.
    pub fn new() -> (key: ToggleKey)
        ensures
            !key.held,
    {
        ToggleKey { held: false }
    }

    /// Takes the level of the key at this tick and says whether it is newly
    /// pressed: held now and not at the tick before.
    pub fn press(&mut self, down: bool) -> (pressed: bool)
        ensures
            pressed == (down && !old(self).held),
            final(self).held == down,
    {
        let pressed = down && !self.held;
        self.held = down;
        pressed
    }
}

/// The presses that a key gives over the ticks at which it has the levels
/// `levels`, if it was `held` or not before the first of them.
pub open spec fn presses(held: bool, levels: Seq<bool>) -> Seq<bool>
    decreases levels.len(),
{
    if levels.len() == 0 {
        Seq::empty()
    } else {
        seq![levels[0] && !held] + presses(levels[0], levels.drop_first())
    }
}

/// The state that a run of ticks leads to by the toggle signal alone, if
/// `pressed` says at which of them the key was pressed.
pub open spec fn state_after(state: GameState, pressed: Seq<bool>) -> GameState
    decreases pressed.len(),
{
    if pressed.len() == 0 {
        state
    } else if pressed[0] {
        state_after(toggled(state), pressed.drop_first())
    } else {
        state_after(state, pressed.drop_first())
    }
}

/// A key that stays held gives no press.
pub proof fn lemma_held_key_gives_no_press(state: GameState, levels: Seq<bool>)
    requires
        forall|i: int| 0 <= i < levels.len() ==> levels[i],
    ensures
        presses(true, levels) == Seq::new(levels.len(), |i: int| false),
        state_after(state, presses(true, levels)) == state,
    decreases levels.len(),
{
    if levels.len() > 0 {
        let rest = levels.drop_first();
        assert forall|i: int| 0 <= i < rest.len() implies rest[i] by {
            assert(levels[i + 1]);
        }
        lemma_held_key_gives_no_press(state, rest);
        assert(presses(true, levels) =~= Seq::new(levels.len(), |i: int| false));
        assert(presses(true, levels).drop_first() =~= presses(true, rest));
    } else {
        assert(presses(true, levels) =~= Seq::new(levels.len(), |i: int| false));
    }
}

/// A key that is pressed and then held over any number of ticks gives one
/// press, at the first of them, and so one transition, not one per tick.
pub proof fn lemma_held_key_toggles_once(state: GameState, levels: Seq<bool>)
    requires
        levels.len() > 0,
        forall|i: int| 0 <= i < levels.len() ==> levels[i],
    ensures
        presses(false, levels) == Seq::new(levels.len(), |i: int| i == 0),
        state_after(state, presses(false, levels)) == toggled(state),
{
    let rest = levels.drop_first();
    assert forall|i: int| 0 <= i < rest.len() implies rest[i] by {
        assert(levels[i + 1]);
    }
    assert(levels[0]);
    lemma_held_key_gives_no_press(toggled(state), rest);
    assert(presses(false, levels) =~= Seq::new(levels.len(), |i: int| i == 0));
    assert(presses(false, levels).drop_first() =~= presses(true, rest));
}

} // verus!
