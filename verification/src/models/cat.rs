use vstd::prelude::*;
use vstd::std_specs::convert::FromSpecImpl;

verus! {

/// The avatar's behavioural state. Exactly one is current at any time.
#[derive(Debug, Clone, Copy, PartialEq, Eq, Structural)]
pub enum CatState {
    Idle,
    Coding,
    Celebrating,
    Frustrated,
    Sleeping,
    Tired,
    Interaction,
}

impl Default for CatState {
    fn default() -> (state: Self)
        ensures
            state == CatState::Idle,
    {
        CatState::Idle
    }
}

impl CatState {
    /// A transient state has a built-in lifetime and always reverts to `Idle`.
    pub open spec fn is_transient(self) -> bool {
        self == CatState::Celebrating || self == CatState::Frustrated
            || self == CatState::Interaction
    }

    /// Whether this state has a built-in lifetime.
    pub fn transient(&self) -> (b: bool)
        ensures
            b == self.is_transient(),
    {
        match self {
            CatState::Celebrating | CatState::Frustrated | CatState::Interaction => true,
            _ => false,
        }
    }
}

/// The face the avatar shows.
#[derive(Debug, Clone, Copy, PartialEq, Eq, Structural)]
pub enum CatMood {
    Happy,
    Sad,
    Sleeping,
    Focused,
    Excited,
}

/// The mood that belongs to each state.
pub open spec fn mood_of(state: CatState) -> CatMood {
    match state {
        CatState::Idle => CatMood::Happy,
        CatState::Coding => CatMood::Focused,
        CatState::Celebrating => CatMood::Excited,
        CatState::Frustrated => CatMood::Sad,
        CatState::Sleeping => CatMood::Sleeping,
        CatState::Tired => CatMood::Sad,
        CatState::Interaction => CatMood::Happy,
    }
}

impl<'a> From<&'a CatState> for CatMood {
    fn from(state: &'a CatState) -> (mood: Self) {
        match state {
            CatState::Idle => CatMood::Happy,
            CatState::Coding => CatMood::Focused,
            CatState::Celebrating => CatMood::Excited,
            CatState::Frustrated => CatMood::Sad,
            CatState::Sleeping => CatMood::Sleeping,
            CatState::Tired => CatMood::Sad,
            CatState::Interaction => CatMood::Happy,
        }
    }
}

impl<'a> FromSpecImpl<&'a CatState> for CatMood {
    open spec fn obeys_from_spec() -> bool {
        true
    }

    open spec fn from_spec(state: &'a CatState) -> Self {
        mood_of(*state)
    }
}

/// Everything the presentation layer needs to draw the avatar.
#[derive(Debug, Clone, Copy, PartialEq, Eq, Structural)]
pub struct CatInfo {
    pub state: CatState,
    pub mood: CatMood,
    pub level: u32,
    pub exp: u32,
    pub exp_to_next: u32,
    pub streak_days: u32,
}

} // verus!
