use yalv::list::parse_virsh_output;
use yalv::session::{list_args, state_color, Action, App, Effect, Event, Key, Mode, StateColor};

fn three_vms() -> App {
    let out = " Id Name State\n----\n 1 alpha running\n - beta shut off\n 3 gamma paused\n";
    App::new(parse_virsh_output(out), true)
}

#[test]
fn starts_on_first_record() {
    let app = three_vms();
    assert_eq!(app.selected, Some(0));
    assert!(matches!(app.mode, Mode::Normal));
    let empty = App::new(Vec::new(), false);
    assert_eq!(empty.selected, None);
}

#[test]
fn navigation_wraps_both_ways() {
    let mut app = three_vms();
    app.previous();
    assert_eq!(app.selected, Some(2));
    app.next();
    assert_eq!(app.selected, Some(0));
    app.handle_event(Event::Key(Key::Char('j')));
    assert_eq!(app.selected, Some(1));
    app.handle_event(Event::Key(Key::Up));
    assert_eq!(app.selected, Some(0));
}

#[test]
fn navigation_on_empty_list_is_a_no_op() {
    let mut app = App::new(Vec::new(), true);
    app.next();
    assert_eq!(app.selected, None);
    app.previous();
    assert_eq!(app.selected, None);
}

#[test]
fn details_recomputed_only_when_name_changes() {
    let mut app = three_vms();
    let mut recomputed = 0;
    for _ in 0..3 {
        app.handle_event(Event::Key(Key::Down));
        if let Some(name) = app.update_info_cache() {
            recomputed += 1;
            app.set_info(name.clone(), format!("info {name}"));
        }
        assert!(app.update_info_cache().is_none());
    }
    assert_eq!(recomputed, 3);
    let cached = app.info_cache.clone().unwrap();
    assert_eq!(cached.0, "alpha");
}

#[test]
fn details_dropped_without_selection() {
    let mut app = three_vms();
    let name = app.update_info_cache().unwrap();
    assert_eq!(name, "alpha");
    app.set_info(name, "x".to_string());
    app.refresh_vms(Vec::new());
    assert_eq!(app.selected, None);
    assert!(app.update_info_cache().is_none());
    assert!(app.info_cache.is_none());
}

#[test]
fn refresh_clamps_selection() {
    let mut app = three_vms();
    app.previous();
    assert_eq!(app.selected, Some(2));
    app.refresh_vms(parse_virsh_output("h\ns\n 1 alpha running\n"));
    assert_eq!(app.selected, Some(0));
    assert!(app.info_cache.is_none());
}

#[test]
fn confirm_mode_ignores_other_keys() {
    let mut app = three_vms();
    app.handle_event(Event::Key(Key::Char('d')));
    assert!(matches!(app.mode, Mode::Confirm { action: Action::Shutdown, .. }));
    for k in [Key::Char('q'), Key::Down, Key::Enter, Key::Char('x'), Key::Backspace] {
        assert!(matches!(app.handle_event(Event::Key(k)), Effect::Nothing));
        assert!(matches!(app.mode, Mode::Confirm { .. }));
        assert_eq!(app.selected, Some(0));
    }
    match app.handle_event(Event::Key(Key::Char('y'))) {
        Effect::Lifecycle(action, name) => {
            assert_eq!(action, Action::Shutdown);
            assert_eq!(name, "alpha");
            assert_eq!(action.command(), "shutdown");
        }
        _ => panic!("expected a lifecycle action"),
    }
    assert!(matches!(app.mode, Mode::Normal));
}

#[test]
fn start_needs_shut_off_machine() {
    let mut app = three_vms();
    app.handle_event(Event::Key(Key::Char('u')));
    assert!(matches!(app.mode, Mode::Normal));
    app.next();
    app.handle_event(Event::Key(Key::Char('u')));
    assert!(matches!(app.mode, Mode::Confirm { action: Action::Start, .. }));
    assert!(matches!(app.handle_event(Event::Key(Key::Esc)), Effect::Nothing));
    assert!(matches!(app.mode, Mode::Normal));
}

#[test]
fn console_and_quit() {
    let mut app = three_vms();
    match app.handle_event(Event::Key(Key::Enter)) {
        Effect::Console(name) => assert_eq!(name, "alpha"),
        _ => panic!("expected a console"),
    }
    app.next();
    assert!(matches!(app.handle_event(Event::Key(Key::Enter)), Effect::Nothing));
    assert!(matches!(app.handle_event(Event::Key(Key::Char('q'))), Effect::Quit));
    assert!(matches!(app.handle_event(Event::Tick), Effect::Refresh));
}

#[test]
fn toggle_inactive_asks_refresh() {
    let mut app = three_vms();
    assert!(matches!(app.handle_event(Event::Key(Key::Char('A'))), Effect::Refresh));
    assert!(!app.show_all);
    assert_eq!(list_args(app.show_all), vec!["list"]);
    assert_eq!(list_args(true), vec!["list", "--all"]);
}

#[test]
fn ssh_user_entry() {
    let mut app = three_vms();
    match app.handle_event(Event::Key(Key::Char('s'))) {
        Effect::ResolveAddresses(name) => assert_eq!(name, "alpha"),
        _ => panic!("expected an address lookup"),
    }
    app.addresses_resolved("alpha".to_string(), &Vec::new());
    assert!(matches!(app.mode, Mode::Normal));
    app.addresses_resolved("alpha".to_string(), &vec!["10.0.0.9".to_string(), "10.0.0.8".to_string()]);
    assert!(matches!(app.mode, Mode::SshInput { .. }));
    assert!(matches!(app.handle_event(Event::Key(Key::Enter)), Effect::Nothing));
    for c in [' ', 'r', 'o', 'x'] {
        app.handle_event(Event::Key(Key::Char(c)));
    }
    app.handle_event(Event::Key(Key::Backspace));
    app.handle_event(Event::Key(Key::Char('o')));
    app.handle_event(Event::Key(Key::Char('t')));
    assert_eq!(app.input_text(), " root");
    match app.handle_event(Event::Key(Key::Enter)) {
        Effect::Ssh(name, dest) => {
            assert_eq!(name, "alpha");
            assert_eq!(dest, "root@10.0.0.9");
        }
        _ => panic!("expected a remote shell"),
    }
    assert!(matches!(app.mode, Mode::Normal));
    assert_eq!(app.input_text(), "");
}

#[test]
fn ssh_cancel_clears_input() {
    let mut app = three_vms();
    app.addresses_resolved("alpha".to_string(), &vec!["10.0.0.9".to_string()]);
    app.handle_event(Event::Key(Key::Char('a')));
    app.handle_event(Event::Key(Key::Esc));
    assert!(matches!(app.mode, Mode::Normal));
    assert!(app.input.is_empty());
}

#[test]
fn state_colours() {
    assert_eq!(state_color("running"), StateColor::Green);
    assert_eq!(state_color("shut off"), StateColor::Red);
    assert_eq!(state_color("paused"), StateColor::Yellow);
    assert_eq!(state_color("crashed"), StateColor::Plain);
    assert_eq!(Action::Start.label(), "Start");
    assert_eq!(Action::Shutdown.label(), "Shut down");
    assert_eq!(Action::Start.command(), "start");
}
