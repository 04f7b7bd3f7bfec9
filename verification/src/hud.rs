use vstd::prelude::*;

verus! {

/// The buttons of the heads-up display.
#[derive(Clone, Copy, Debug, PartialEq, Eq, Structural)]
pub enum ButtonKey {
    BaseExit,
    EventExit,
    ExploreExit,
    EnterEvent,
    LeaveEvent,
    GameOver,
}

/// The two lines of a dialog.
#[derive(Clone, Copy, Debug, PartialEq, Eq, Structural)]
pub enum DialogKey {
    DialogTitle,
    DialogDescribe,
}

/// Marks a scene object as a button of the given kind.
#[derive(Clone, Copy, Debug, PartialEq, Eq, Structural)]
pub struct ButtonType {
    pub key: ButtonKey,
}

/// Marks a scene object as a line of a dialog.
#[derive(Clone, Copy, Debug, PartialEq, Eq, Structural)]
pub struct DialogType {
    pub key: DialogKey,
}

/// Marks the scene object under which the lines of a dialog hang.
#[derive(Clone, Copy, Debug, PartialEq, Eq, Structural)]
pub struct HudDialog;

/// Marks the scene object under which the buttons of a dialog hang.
#[derive(Clone, Copy, Debug, PartialEq, Eq, Structural)]
pub struct HudNavigate;

/// Marks what is taken down together with the display.
#[derive(Clone, Copy, Debug, PartialEq, Eq, Structural)]
pub struct HudCleanup;

/// The ways to play.
#[derive(Clone, Copy, Debug, Hash, PartialEq, Eq, Structural)]
pub enum GameMode {
    GameOver,
    BaseGrid,
    EventGrid,
    ExploreGrid,
}

/// The states of the program.
#[derive(Clone, Copy, Debug, Hash, PartialEq, Eq, Structural)]
pub enum AppState {
    MainLoading,
    MainMenu,
    GameLoading,
    GamePlay(GameMode),
    Credits,
}

/// Sent when the player has answered the dialog of a cell.
#[derive(Clone, Copy, Debug, PartialEq, Eq, Structural)]
pub struct EndHexEvent {
    pub enter: bool,
}

/// Sent when the player has arrived at a cell.
#[derive(Clone, Copy, Debug, PartialEq, Eq, Structural)]
pub struct StartHexEvent {
    pub seed: i64,
}

/// Sent when the game is lost.
pub struct GameOverEvent {
    pub message: String,
}

/// What a click does to the stack of states.
#[derive(Clone, Copy, Debug, PartialEq, Eq, Structural)]
pub enum StateChange {
    Stay,
    Replace(AppState),
    Push(AppState),
    Pop,
}

/// All that a click on a button asks for.
#[derive(Clone, Copy, Debug, PartialEq, Eq, Structural)]
pub struct Click {
    pub state: StateChange,
    pub answer: Option<EndHexEvent>,
    pub close_dialog: bool,
}

impl Default for EndHexEvent {
    fn default() -> (e: EndHexEvent)
        ensures
            e == (EndHexEvent { enter: false }),
    {
        EndHexEvent { enter: false }
    }
}

impl Default for StartHexEvent {
    fn default() -> (e: StartHexEvent)
        ensures
            e == (StartHexEvent { seed: 0 }),
    {
        StartHexEvent { seed: 0 }
    }
}

impl ButtonType {
    /// What a click on a button of each kind asks for: the three exits that
    /// end a game go back to loading, the exit of an event drops the state on
    /// top, entering an event puts the event on top and answers yes, and
    /// leaving closes the dialog and answers no.
    pub open spec fn spec_click(self) -> Click {
        match self.key {
            ButtonKey::BaseExit | ButtonKey::ExploreExit | ButtonKey::GameOver => Click {
                state: StateChange::Replace(AppState::MainLoading),
                answer: None,
                close_dialog: false,
            },
            ButtonKey::EventExit => Click {
                state: StateChange::Pop,
                answer: None,
                close_dialog: false,
            },
            ButtonKey::EnterEvent => Click {
                state: StateChange::Push(AppState::GamePlay(GameMode::EventGrid)),
                answer: Some(EndHexEvent { enter: true }),
                close_dialog: false,
            },
            ButtonKey::LeaveEvent => Click {
                state: StateChange::Stay,
                answer: Some(EndHexEvent { enter: false }),
                close_dialog: true,
            },
        }
    }

    pub fn click(&self) -> (c: Click)
        ensures
            c == self.spec_click(),
    {
        match self.key {
            ButtonKey::BaseExit => Click {
                state: StateChange::Replace(AppState::MainLoading),
                answer: None,
                close_dialog: false,
            },
            ButtonKey::EventExit => Click {
                state: StateChange::Pop,
                answer: None,
                close_dialog: false,
            },
            ButtonKey::ExploreExit => Click {
                state: StateChange::Replace(AppState::MainLoading),
                answer: None,
                close_dialog: false,
            },
            ButtonKey::EnterEvent => Click {
                state: StateChange::Push(AppState::GamePlay(GameMode::EventGrid)),
                answer: Some(EndHexEvent { enter: true }),
                close_dialog: false,
            },
            ButtonKey::LeaveEvent => Click {
                state: StateChange::Stay,
                answer: Some(EndHexEvent { enter: false }),
                close_dialog: true,
            },
            ButtonKey::GameOver => Click {
                state: StateChange::Replace(AppState::MainLoading),
                answer: None,
                close_dialog: false,
            },
        }
    }
}

impl GameOverEvent {
    /// The message for a ship that has lost its hull.
    pub fn destroyed() -> (e: GameOverEvent)
        ensures
            e.message@ == "Your ship was destroyed."@,
    {
        GameOverEvent { message: "Your ship was destroyed.".to_string() }
    }

    /// The message for a ship that has run out of energy.
    pub fn stranded() -> (e: GameOverEvent)
        ensures
            e.message@ == "No more energy, your ship is stranded."@,
    {
        GameOverEvent { message: "No more energy, your ship is stranded.".to_string() }
    }
}

} // verus!
