//! Bindable input combinations: an action fires when every unit input of
//! one of its combinations is held.

use vstd::prelude::*;

verus! {

use crate::input::{KeyCode, MouseButton};

/// One indivisible input: a key, a mouse button, or a wheel direction.
#[derive(Clone, Copy, Debug, PartialEq, Eq, Structural, PartialOrd, Ord, Hash)]
pub enum UnitInput {
    Key(KeyCode),
    Mouse(MouseButton),
    WheelUp,
    WheelDown,
}

/// An action a player can bind inputs to.
#[derive(Clone, Copy, Debug, PartialEq, Eq, Structural, PartialOrd, Ord, Hash)]
pub enum InputAction {
    GoLeft,
    GoRight,
    GoForward,
    GoBackward,
    CameraMove,
    CameraRotate,
    Zoom,
    Dezoom,
    Rotate,
    Close,
    Select,
    NoSnapping,
    HideInterface,
}

/// All unit inputs of a combination need to match at once.
#[derive(Clone, Debug)]
pub struct InputCombination(pub Vec<UnitInput>);

/// Any one of these combinations triggers the action.
#[derive(Clone, Debug)]
pub struct InputCombinations(pub Vec<InputCombination>);

/// Every unit input of `combo` appears among `held`.
pub open spec fn combo_held(combo: InputCombination, held: Seq<UnitInput>) -> bool {
    forall|i: int| 0 <= i < combo.0@.len() ==> held.contains(#[trigger] combo.0@[i])
}

impl InputCombination {
    /// A combination over the given unit inputs.
    pub fn new(inputs: Vec<UnitInput>) -> (r: InputCombination)
        ensures
            r.0@ == inputs@,
    {
        InputCombination(inputs)
    }

    /// Whether every unit input of the combination appears among `held`.
    pub fn matches_held(&self, held: &Vec<UnitInput>) -> (r: bool)
        ensures
            r == combo_held(*self, held@),
    {
        let n = self.0.len();
        let mut i: usize = 0;
        while i < n
            invariant
                n == self.0@.len(),
                0 <= i <= n,
                forall|k: int| 0 <= k < i ==> held@.contains(#[trigger] self.0@[k]),
            decreases n - i,
        {
            let want = self.0[i];
            let mut found = false;
            let m = held.len();
            let mut j: usize = 0;
            while j < m
                invariant
                    m == held@.len(),
                    0 <= j <= m,
                    found == exists|k: int| 0 <= k < j && held@[k] == want,
                decreases m - j,
            {
                if held[j] == want {
                    found = true;
                }
                j = j + 1;
            }
            if !found {
                proof {
                    assert(!held@.contains(self.0@[i as int]));
                }
                return false;
            }
            i = i + 1;
        }
        true
    }
}

impl InputCombinations {
    /// Combinations over the given alternatives.
    pub fn new(combos: Vec<InputCombination>) -> (r: InputCombinations)
        ensures
            r.0@ == combos@,
    {
        InputCombinations(combos)
    }

    /// Whether any one combination is fully held.
    pub fn any_matches(&self, held: &Vec<UnitInput>) -> (r: bool)
        ensures
            r == exists|c: int| 0 <= c < self.0@.len() && combo_held(#[trigger] self.0@[c], held@),
    {
        let n = self.0.len();
        let mut c: usize = 0;
        while c < n
            invariant
                n == self.0@.len(),
                0 <= c <= n,
                forall|k: int| 0 <= k < c ==> !combo_held(#[trigger] self.0@[k], held@),
            decreases n - c,
        {
            if self.0[c].matches_held(held) {
                return true;
            }
            c = c + 1;
        }
        false
    }
}

} // verus!
