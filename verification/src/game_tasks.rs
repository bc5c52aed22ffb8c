//! The tasks that the scheduler runs each frame, and what the interface
//! tells the game.

use vstd::prelude::*;

verus! {

/// One task of a frame.
#[derive(Clone, Copy, PartialEq, Eq, Structural, Hash, Debug)]
pub enum GameTask {
    ApplyEvents,
    Main,
    AfterMain,
    PrepareRendering,
    SendFramebuf,
    WaitForPresent,
    DoEventsAndMouse,
    RenderEverything,
    TickAllSets,
    ResetCounters,
    ClearFramebuf,
    ClearZbuf,
    ChangePhase,
    DoAllUIRead,
    DoAllUIWrite,
    UpdateSoundPositions,
    UpdateSoundEverythingElse,
}

/// What a player has done in the interface.
#[derive(Clone, Hash, PartialEq, Eq)]
pub enum GameUserEvent {
    ClickedCoolButton,
    ClickedBadButton,
    IncreasedThatValue(String),
    DecreasedThatValue(String),
    ChoseThatValue(String, String),
}

} // verus!
