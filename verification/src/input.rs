//! Key bindings: which command a key stands for, and what a command does to
//! the view.

use crate::sort::SortKey;
use crate::ui_state::{App, AppView};
use vstd::prelude::*;

verus! {

/// A key as the terminal reports it.
#[derive(Clone, Copy, Debug, PartialEq, Eq, Structural)]
pub enum Key {
    Char(char),
    Esc,
    Up,
    Down,
    Left,
    Right,
    Tab,
    BackTab,
    Backspace,
    Other,
}

/// What the operator asks for.
#[derive(Clone, Copy, Debug, PartialEq, Eq, Structural)]
pub enum Command {
    /// Clear the filter if there is one, else leave the program.
    Leave,
    /// Refresh now.
    Refresh,
    /// Terminate the selected process.
    Kill,
    ToggleHelp,
    Previous,
    Next,
    PreviousTab,
    NextTab,
    ToggleSort,
    SortBy(SortKey),
    Backspace,
    /// Add a character to the filter.
    Type(char),
    Nothing,
}

/// What the driver has to do after a command was handled.
#[derive(Clone, Copy, Debug, PartialEq, Eq, Structural)]
pub enum Effect {
    Nothing,
    /// Leave the program.
    Quit,
    /// Request a refresh.
    RequestRefresh,
    /// Ask for the termination of the process, then request a refresh.
    Terminate(u32),
}

/// The command that a key stands for, with or without the control key held.
pub open spec fn command_of(key: Key, ctrl: bool) -> Command {
    match key {
        Key::Esc => Command::Leave,
        Key::Up => Command::Previous,
        Key::Down => Command::Next,
        Key::Left => Command::PreviousTab,
        Key::Right => Command::NextTab,
        Key::Tab => Command::NextTab,
        Key::BackTab => Command::PreviousTab,
        Key::Backspace => Command::Backspace,
        Key::Other => Command::Nothing,
        Key::Char(c) => if c == ' ' {
            Command::ToggleSort
        } else if !ctrl {
            Command::Type(c)
        } else if c == 'q' || c == 'c' {
            Command::Leave
        } else if c == 'r' {
            Command::Refresh
        } else if c == 'k' {
            Command::Kill
        } else if c == 'h' {
            Command::ToggleHelp
        } else if c == '1' {
            Command::SortBy(SortKey::Pid)
        } else if c == '2' {
            Command::SortBy(SortKey::Name)
        } else if c == '3' {
            Command::SortBy(SortKey::Cpu)
        } else if c == '4' {
            Command::SortBy(SortKey::Memory)
        } else if c == '5' {
            Command::SortBy(SortKey::Status)
        } else if c == '6' {
            Command::SortBy(SortKey::User)
        } else if c == '7' {
            Command::SortBy(SortKey::StartTime)
        } else {
            Command::Nothing
        },
    }
}

/// The command that a key stands for.
pub fn command_for(key: Key, ctrl: bool) -> (command: Command)
    ensures
        command == command_of(key, ctrl),
{
    match key {
        Key::Esc => Command::Leave,
        Key::Up => Command::Previous,
        Key::Down => Command::Next,
        Key::Left => Command::PreviousTab,
        Key::Right => Command::NextTab,
        Key::Tab => Command::NextTab,
        Key::BackTab => Command::PreviousTab,
        Key::Backspace => Command::Backspace,
        Key::Other => Command::Nothing,
        Key::Char(c) => {
            if c == ' ' {
                Command::ToggleSort
            } else if !ctrl {
                Command::Type(c)
            } else if c == 'q' || c == 'c' {
                Command::Leave
            } else if c == 'r' {
                Command::Refresh
            } else if c == 'k' {
                Command::Kill
            } else if c == 'h' {
                Command::ToggleHelp
            } else if c == '1' {
                Command::SortBy(SortKey::Pid)
            } else if c == '2' {
                Command::SortBy(SortKey::Name)
            } else if c == '3' {
                Command::SortBy(SortKey::Cpu)
            } else if c == '4' {
                Command::SortBy(SortKey::Memory)
            } else if c == '5' {
                Command::SortBy(SortKey::Status)
            } else if c == '6' {
                Command::SortBy(SortKey::User)
            } else if c == '7' {
                Command::SortBy(SortKey::StartTime)
            } else {
                Command::Nothing
            }
        },
    }
}

/// Whether handling `command` takes the view from `before` to `after` and
/// asks the driver for `effect`.
pub open spec fn handled(before: AppView, command: Command, after: AppView, effect: Effect) -> bool {
    match command {
        Command::Leave => if before.filter.len() > 0 {
            after == (AppView { filter: Seq::empty(), ..before }) && effect
                == Effect::RequestRefresh
        } else {
            after == before && effect == Effect::Quit
        },
        Command::Refresh => after == before && effect == Effect::RequestRefresh,
        Command::Kill => after == before && effect == (match before.selected_pid() {
            Some(pid) => Effect::Terminate(pid),
            None => Effect::Nothing,
        }),
        Command::ToggleHelp => after == (AppView { show_help: !before.show_help, ..before })
            && effect == Effect::Nothing,
        Command::Previous => after == before.after_previous() && effect == Effect::Nothing,
        Command::Next => after == before.after_next() && effect == Effect::Nothing,
        Command::PreviousTab => after == before.after_previous_tab() && effect
            == Effect::Nothing,
        Command::NextTab => after == before.after_next_tab() && effect == Effect::Nothing,
        Command::ToggleSort => (AppView {
            sort_ascending: !before.sort_ascending,
            ..before
        }).is_sorted_as(after) && effect == Effect::Nothing,
        Command::SortBy(key) => before.with_sort_key(key).is_sorted_as(after) && effect
            == Effect::Nothing,
        Command::Backspace => after == (AppView {
            filter: if before.filter.len() == 0 {
                before.filter
            } else {
                before.filter.drop_last()
            },
            ..before
        }).after_update_selection() && effect == Effect::Nothing,
        Command::Type(c) => after == (AppView {
            filter: before.filter.push(c),
            ..before
        }).after_update_selection() && effect == Effect::Nothing,
        Command::Nothing => after == before && effect == Effect::Nothing,
    }
}

/// Handles a command and says what is left for the driver to do.
pub fn handle(app: &mut App, command: Command) -> (effect: Effect)
    ensures
        handled(old(app)@, command, final(app)@, effect),
{
    match command {
        Command::Leave => {
            if app.clear_filter() {
                Effect::RequestRefresh
            } else {
                assert(app@ == old(app)@) by {
                    assert(app@.filter =~= old(app)@.filter);
                }
                Effect::Quit
            }
        },
        Command::Refresh => Effect::RequestRefresh,
        Command::Kill => match app.kill_selected_process() {
            Some(pid) => Effect::Terminate(pid),
            None => Effect::Nothing,
        },
        Command::ToggleHelp => {
            app.toggle_help();
            Effect::Nothing
        },
        Command::Previous => {
            app.previous();
            Effect::Nothing
        },
        Command::Next => {
            app.next();
            Effect::Nothing
        },
        Command::PreviousTab => {
            app.previous_tab();
            Effect::Nothing
        },
        Command::NextTab => {
            app.next_tab();
            Effect::Nothing
        },
        Command::ToggleSort => {
            app.toggle_sort();
            Effect::Nothing
        },
        Command::SortBy(key) => {
            app.set_sort_key(key);
            Effect::Nothing
        },
        Command::Backspace => {
            app.backspace_filter();
            Effect::Nothing
        },
        Command::Type(c) => {
            app.add_to_filter(c);
            Effect::Nothing
        },
        Command::Nothing => Effect::Nothing,
    }
}

} // verus!
