//! Which screen is shown, and the way back.

use vstd::prelude::*;

verus! {

/// A screen of the client.
#[derive(Debug, Clone, Copy, PartialEq, Eq, Structural)]
pub enum Screen {
    MainMenu,
    InGame,
    PauseMenu,
    Settings,
}

/// A stack of screens: the top one is shown, the ones below are where
/// going back leads. The stack is never empty.
#[derive(Debug)]
pub struct UiState {
    /// The screens below the top one, lowest first.
    below: Vec<Screen>,
    top: Screen,
}

impl View for UiState {
    type V = Seq<Screen>;

    closed spec fn view(&self) -> Seq<Screen> {
        self.below@.push(self.top)
    }
}

/// The stack after the Escape key was pressed: from the game to the pause
/// menu, nowhere from the main menu, and back from any other screen.
pub open spec fn after_escape(stack: Seq<Screen>) -> Seq<Screen> {
    if stack.len() == 0 {
        stack
    } else if stack.last() == Screen::InGame {
        stack.push(Screen::PauseMenu)
    } else if stack.last() == Screen::MainMenu {
        stack
    } else {
        after_pop(stack)
    }
}

/// The stack after going back: without its top, unless that is all it has.
pub open spec fn after_pop(stack: Seq<Screen>) -> Seq<Screen> {
    if stack.len() > 1 {
        stack.drop_last()
    } else {
        stack
    }
}

impl UiState {
    /// The state that shows the main menu, with nothing below it.
    pub fn new() -> (state: UiState)
        ensures
            state@ == seq![Screen::MainMenu],
    {
        UiState { below: Vec::new(), top: Screen::MainMenu }
    }

    /// The screen that is shown.
    pub fn current_screen(&self) -> (screen: &Screen)
        ensures
            self@.len() > 0,
            *screen == self@.last(),
    {
        &self.top
    }

    /// Shows `screen`, keeping the current one to go back to.
    pub fn push(&mut self, screen: Screen)
        ensures
            final(self)@ == old(self)@.push(screen),
    {
        self.below.push(self.top);
        self.top = screen;
    }

    /// Goes back to the screen below, if there is one.
    pub fn pop(&mut self)
        ensures
            final(self)@ == after_pop(old(self)@),
    {
        if let Some(screen) = self.below.pop() {
            self.top = screen;
        }
    }

    /// Shows `screen` and forgets the way back.
    pub fn reset(&mut self, screen: Screen)
        ensures
            final(self)@ == seq![screen],
    {
        self.below.clear();
        self.top = screen;
    }

    /// Reacts to the Escape key.
    pub fn escape(&mut self)
        ensures
            final(self)@ == after_escape(old(self)@),
    {
        match *self.current_screen() {
            Screen::InGame => {
                self.push(Screen::PauseMenu);
            },
            Screen::MainMenu => {},
            _ => {
                self.pop();
            },
        }
    }
}

impl Default for UiState {
    fn default() -> (state: UiState)
        ensures
            state@ == seq![Screen::MainMenu],
    {
        UiState::new()
    }
}

} // verus!
