use psr::collector::{Answers, ProcessMonitor};
use psr::input::{command_for, handle, Command, Effect, Key};
use psr::process::{ProcessInfo, RawSample};
use psr::sort::SortKey;
use psr::status::OsStatus;
use psr::ui_state::App;

fn row(pid: u32, name: &str, cpu: u64) -> ProcessInfo {
    let mut monitor = ProcessMonitor::new(0);
    monitor.merge(
        &RawSample {
            pid,
            name: name.to_string(),
            cpu_usage: cpu,
            memory: 0,
            status: OsStatus::Run,
            run_time: 0,
            cmd: Vec::new(),
            parent: None,
        },
        true,
        &Answers::new(),
        0,
    )
}

fn app_of_three() -> App {
    let mut app = App::new(0);
    app.processes = vec![row(1, "a", 10), row(2, "b", 30), row(3, "c", 20)];
    app
}

#[test]
fn keys_without_control() {
    assert_eq!(command_for(Key::Esc, false), Command::Leave);
    assert_eq!(command_for(Key::Up, false), Command::Previous);
    assert_eq!(command_for(Key::Down, false), Command::Next);
    assert_eq!(command_for(Key::Left, false), Command::PreviousTab);
    assert_eq!(command_for(Key::Right, false), Command::NextTab);
    assert_eq!(command_for(Key::Tab, false), Command::NextTab);
    assert_eq!(command_for(Key::BackTab, false), Command::PreviousTab);
    assert_eq!(command_for(Key::Backspace, false), Command::Backspace);
    assert_eq!(command_for(Key::Other, false), Command::Nothing);
    assert_eq!(command_for(Key::Char(' '), false), Command::ToggleSort);
    assert_eq!(command_for(Key::Char('q'), false), Command::Type('q'));
    assert_eq!(command_for(Key::Char('1'), false), Command::Type('1'));
    assert_eq!(command_for(Key::Char('Z'), false), Command::Type('Z'));
}

#[test]
fn keys_with_control() {
    assert_eq!(command_for(Key::Char('q'), true), Command::Leave);
    assert_eq!(command_for(Key::Char('c'), true), Command::Leave);
    assert_eq!(command_for(Key::Esc, true), Command::Leave);
    assert_eq!(command_for(Key::Char('r'), true), Command::Refresh);
    assert_eq!(command_for(Key::Char('k'), true), Command::Kill);
    assert_eq!(command_for(Key::Char('h'), true), Command::ToggleHelp);
    assert_eq!(command_for(Key::Char(' '), true), Command::ToggleSort);
    assert_eq!(command_for(Key::Char('1'), true), Command::SortBy(SortKey::Pid));
    assert_eq!(command_for(Key::Char('2'), true), Command::SortBy(SortKey::Name));
    assert_eq!(command_for(Key::Char('3'), true), Command::SortBy(SortKey::Cpu));
    assert_eq!(command_for(Key::Char('4'), true), Command::SortBy(SortKey::Memory));
    assert_eq!(command_for(Key::Char('5'), true), Command::SortBy(SortKey::Status));
    assert_eq!(command_for(Key::Char('6'), true), Command::SortBy(SortKey::User));
    assert_eq!(command_for(Key::Char('7'), true), Command::SortBy(SortKey::StartTime));
    assert_eq!(command_for(Key::Char('8'), true), Command::Nothing);
    assert_eq!(command_for(Key::Char('x'), true), Command::Nothing);
    assert_eq!(command_for(Key::Up, true), Command::Previous);
}

#[test]
fn leave_clears_the_filter_before_it_quits() {
    let mut app = app_of_three();
    app.filter = "a".to_string();
    assert_eq!(handle(&mut app, Command::Leave), Effect::RequestRefresh);
    assert_eq!(app.filter, "");
    assert_eq!(handle(&mut app, Command::Leave), Effect::Quit);
}

#[test]
fn refresh_and_kill_are_left_to_the_driver() {
    let mut app = app_of_three();
    assert_eq!(handle(&mut app, Command::Refresh), Effect::RequestRefresh);
    app.selected_index = 1;
    assert_eq!(handle(&mut app, Command::Kill), Effect::Terminate(2));
    assert_eq!(app.processes.len(), 3);
    let mut empty = App::new(0);
    assert_eq!(handle(&mut empty, Command::Kill), Effect::Nothing);
}

#[test]
fn commands_change_the_view() {
    let mut app = app_of_three();
    assert_eq!(handle(&mut app, Command::Next), Effect::Nothing);
    assert_eq!(app.selected_index, 1);
    assert_eq!(handle(&mut app, Command::Previous), Effect::Nothing);
    assert_eq!(app.selected_index, 0);
    assert_eq!(handle(&mut app, Command::NextTab), Effect::Nothing);
    assert_eq!(app.current_tab, 1);
    assert_eq!(handle(&mut app, Command::PreviousTab), Effect::Nothing);
    assert_eq!(app.current_tab, 0);
    assert_eq!(handle(&mut app, Command::ToggleHelp), Effect::Nothing);
    assert!(app.show_help);
    assert_eq!(handle(&mut app, Command::Nothing), Effect::Nothing);
}

#[test]
fn sort_commands_sort_the_list() {
    let mut app = app_of_three();
    assert_eq!(handle(&mut app, Command::SortBy(SortKey::Cpu)), Effect::Nothing);
    assert!(app.sort_ascending);
    assert_eq!(app.processes.iter().map(|p| p.pid).collect::<Vec<_>>(), vec![1, 3, 2]);
    assert_eq!(handle(&mut app, Command::ToggleSort), Effect::Nothing);
    assert_eq!(app.processes.iter().map(|p| p.pid).collect::<Vec<_>>(), vec![2, 3, 1]);
    assert_eq!(handle(&mut app, Command::SortBy(SortKey::Pid)), Effect::Nothing);
    assert_eq!(app.processes.iter().map(|p| p.pid).collect::<Vec<_>>(), vec![3, 2, 1]);
}

#[test]
fn typing_edits_the_filter() {
    let mut app = app_of_three();
    assert_eq!(handle(&mut app, Command::Type('b')), Effect::Nothing);
    assert_eq!(app.filter, "b");
    assert_eq!(app.processes.iter().map(|p| p.pid).collect::<Vec<_>>(), vec![2]);
    assert_eq!(handle(&mut app, Command::Backspace), Effect::Nothing);
    assert_eq!(app.filter, "");
}
