use ether_pinger::addr::{distinct_addrs, has_addr, HostAddr};
use ether_pinger::app::{App, Host, KeyInput};
use ether_pinger::registry::{TaskCommand, TaskRegistry};
use ether_pinger::stats::AppMode;

fn a(n: u32) -> HostAddr {
    HostAddr::V4(n)
}

fn three_hosts() -> App {
    App::new(vec![a(1), a(2), a(3)], AppMode::Icmp, 80)
}

fn selected(app: &App) -> Vec<bool> {
    app.hosts().iter().map(|h| h.selected).collect()
}

#[test]
fn a_new_session_selects_and_runs_nothing() {
    let app = App::new(vec![a(1), HostAddr::V6(2)], AppMode::Http, 8080);
    assert_eq!(app.mode(), AppMode::Http);
    assert_eq!(app.port(), 8080);
    assert_eq!(
        *app.hosts(),
        vec![Host { ip: a(1), selected: false }, Host { ip: HostAddr::V6(2), selected: false }]
    );
    assert_eq!(app.selected_index(), 0);
    assert!(!app.should_quit());
    assert!(!app.paused());
    assert_eq!(app.running_count(), 0);
    assert_eq!(app.selected_count(), 0);
}

#[test]
fn toggle_starts_and_stops_the_host_under_the_cursor() {
    let mut app = three_hosts();
    assert_eq!(app.toggle_selection(), vec![TaskCommand::Start(a(1))]);
    assert_eq!(selected(&app), vec![true, false, false]);
    assert!(app.is_running(a(1)));
    assert_eq!(app.toggle_selection(), vec![TaskCommand::Stop(a(1))]);
    assert_eq!(selected(&app), vec![false, false, false]);
    assert!(!app.is_running(a(1)));
    assert_eq!(app.running_count(), 0);
}

#[test]
fn toggle_without_hosts_does_nothing() {
    let mut app = App::new(vec![], AppMode::Icmp, 80);
    assert_eq!(app.toggle_selection(), vec![]);
    app.move_selection(1);
    assert_eq!(app.selected_index(), 0);
    assert_eq!(app.select_all(), vec![]);
    assert_eq!(app.deselect_all(), vec![]);
    assert_eq!(app.toggle_pause(), vec![]);
}

#[test]
fn toggling_while_paused_starts_nothing_and_resume_starts_one() {
    let mut app = three_hosts();
    assert_eq!(app.toggle_pause(), vec![]);
    assert!(app.paused());
    app.move_selection(1);
    assert_eq!(app.toggle_selection(), vec![]);
    assert_eq!(selected(&app), vec![false, true, false]);
    assert_eq!(app.running_count(), 0);
    assert_eq!(app.toggle_pause(), vec![TaskCommand::Start(a(2))]);
    assert!(!app.paused());
    assert!(app.is_running(a(2)));
    assert_eq!(app.running_count(), 1);
}

#[test]
fn pausing_stops_every_loop_and_keeps_the_selection() {
    let mut app = three_hosts();
    app.select_all();
    assert_eq!(
        app.toggle_pause(),
        vec![TaskCommand::Stop(a(1)), TaskCommand::Stop(a(2)), TaskCommand::Stop(a(3))]
    );
    assert_eq!(selected(&app), vec![true, true, true]);
    assert_eq!(app.running_count(), 0);
    assert_eq!(
        app.toggle_pause(),
        vec![TaskCommand::Start(a(1)), TaskCommand::Start(a(2)), TaskCommand::Start(a(3))]
    );
    assert_eq!(app.running_count(), 3);
}

#[test]
fn select_all_starts_only_what_was_not_selected() {
    let mut app = three_hosts();
    app.move_selection(1);
    app.toggle_selection();
    assert_eq!(app.select_all(), vec![TaskCommand::Start(a(1)), TaskCommand::Start(a(3))]);
    assert_eq!(selected(&app), vec![true, true, true]);
    assert_eq!(app.selected_count(), 3);
    assert_eq!(app.running_count(), 3);
    assert_eq!(app.select_all(), vec![]);
}

#[test]
fn select_all_while_paused_only_marks() {
    let mut app = three_hosts();
    app.toggle_pause();
    assert_eq!(app.select_all(), vec![]);
    assert_eq!(selected(&app), vec![true, true, true]);
    assert_eq!(app.running_count(), 0);
}

#[test]
fn deselect_all_stops_everything_and_twice_is_harmless() {
    let mut app = three_hosts();
    app.select_all();
    assert_eq!(
        app.deselect_all(),
        vec![TaskCommand::Stop(a(1)), TaskCommand::Stop(a(2)), TaskCommand::Stop(a(3))]
    );
    assert_eq!(selected(&app), vec![false, false, false]);
    assert_eq!(app.running_count(), 0);
    assert_eq!(app.deselect_all(), vec![]);
    assert_eq!(app.running_count(), 0);
    // a stray toggle after that starts the host again, once
    assert_eq!(app.toggle_selection(), vec![TaskCommand::Start(a(1))]);
    assert_eq!(app.running_count(), 1);
}

#[test]
fn stop_twice_in_a_row_is_a_no_op() {
    let mut registry = TaskRegistry::new();
    let mut commands = Vec::new();
    registry.start(a(1), &mut commands);
    registry.start(a(2), &mut commands);
    registry.start(a(1), &mut commands);
    registry.start(HostAddr::V6(1), &mut commands);
    assert_eq!(
        commands,
        vec![
            TaskCommand::Start(a(1)),
            TaskCommand::Start(a(2)),
            TaskCommand::Start(HostAddr::V6(1)),
        ]
    );
    let mut stops = Vec::new();
    registry.stop(a(1), &mut stops);
    registry.stop(a(1), &mut stops);
    registry.stop(a(9), &mut stops);
    assert_eq!(stops, vec![TaskCommand::Stop(a(1))]);
    assert!(!registry.is_running(a(1)));
    assert!(registry.is_running(a(2)));
    assert!(registry.is_running(HostAddr::V6(1)));
    assert!(!registry.is_running(HostAddr::V6(2)));
}

#[test]
fn shutdown_leaves_nothing_running() {
    let mut app = three_hosts();
    app.select_all();
    assert_eq!(
        app.shutdown(),
        vec![TaskCommand::Stop(a(1)), TaskCommand::Stop(a(2)), TaskCommand::Stop(a(3))]
    );
    assert_eq!(app.running_count(), 0);
    assert_eq!(app.shutdown(), vec![]);
}

#[test]
fn shutdown_with_nothing_selected_is_safe() {
    let mut app = three_hosts();
    assert_eq!(app.shutdown(), vec![]);
    assert_eq!(app.running_count(), 0);
    let mut empty = App::new(vec![], AppMode::Http, 80);
    assert_eq!(empty.shutdown(), vec![]);
}

#[test]
fn the_cursor_goes_round_at_both_ends() {
    let mut app = three_hosts();
    app.move_selection(-1);
    assert_eq!(app.selected_index(), 2);
    app.move_selection(1);
    assert_eq!(app.selected_index(), 0);
    app.move_selection(1);
    assert_eq!(app.selected_index(), 1);
    app.move_selection(7);
    assert_eq!(app.selected_index(), 2);
    app.move_selection(-8);
    assert_eq!(app.selected_index(), 0);
    app.move_selection(isize::MIN);
    assert_eq!(app.selected_index(), 1); // -2^63 leaves 1 when divided by 3
    app.move_selection(isize::MAX);
    assert_eq!(app.selected_index(), 2); // 1 + 2^63 - 1 leaves 2
}

#[test]
fn keys_map_to_operations() {
    let mut app = three_hosts();
    let e = app.handle_key(KeyInput::Down);
    assert!(e.commands.is_empty() && !e.export);
    assert_eq!(app.selected_index(), 1);
    app.handle_key(KeyInput::Char('j'));
    assert_eq!(app.selected_index(), 2);
    app.handle_key(KeyInput::Up);
    assert_eq!(app.selected_index(), 1);
    app.handle_key(KeyInput::Char('k'));
    assert_eq!(app.selected_index(), 0);
    let e = app.handle_key(KeyInput::Char(' '));
    assert_eq!(e.commands, vec![TaskCommand::Start(a(1))]);
    let e = app.handle_key(KeyInput::Char('p'));
    assert_eq!(e.commands, vec![TaskCommand::Stop(a(1))]);
    assert!(app.paused());
    let e = app.handle_key(KeyInput::Char('p'));
    assert_eq!(e.commands, vec![TaskCommand::Start(a(1))]);
    let e = app.handle_key(KeyInput::Char('a'));
    assert_eq!(e.commands, vec![TaskCommand::Start(a(2)), TaskCommand::Start(a(3))]);
    let e = app.handle_key(KeyInput::Char('s'));
    assert!(e.commands.is_empty() && e.export);
    let e = app.handle_key(KeyInput::Char('d'));
    assert_eq!(e.commands.len(), 3);
    assert!(!e.export);
    let e = app.handle_key(KeyInput::Char('x'));
    assert!(e.commands.is_empty() && !e.export);
    let e = app.handle_key(KeyInput::Other);
    assert!(e.commands.is_empty() && !e.export);
    assert!(!app.should_quit());
    app.handle_key(KeyInput::Char('q'));
    assert!(app.should_quit());
    let mut other = three_hosts();
    other.handle_key(KeyInput::Esc);
    assert!(other.should_quit());
}

#[test]
fn an_address_given_twice_is_one_host() {
    let mut app = App::new(vec![a(1), a(2), a(1), a(3), a(2), a(1)], AppMode::Icmp, 80);
    assert_eq!(
        *app.hosts(),
        vec![
            Host { ip: a(1), selected: false },
            Host { ip: a(2), selected: false },
            Host { ip: a(3), selected: false },
        ]
    );
    // select the first, move down, select and deselect the second:
    // the first is still selected, and still runs
    assert_eq!(app.toggle_selection(), vec![TaskCommand::Start(a(1))]);
    app.move_selection(1);
    assert_eq!(app.toggle_selection(), vec![TaskCommand::Start(a(2))]);
    assert_eq!(app.toggle_selection(), vec![TaskCommand::Stop(a(2))]);
    assert!(app.is_running(a(1)));
    assert_eq!(app.running_count(), 1);
    let store = app.initial_stats();
    assert!(store.get(a(1)).is_some() && store.get(a(2)).is_some() && store.get(a(3)).is_some());
}

#[test]
fn first_occurrences_keep_their_order() {
    assert_eq!(distinct_addrs(&vec![]), vec![]);
    assert_eq!(distinct_addrs(&vec![a(7)]), vec![a(7)]);
    assert_eq!(distinct_addrs(&vec![a(3), a(1), a(2)]), vec![a(3), a(1), a(2)]);
    assert_eq!(
        distinct_addrs(&vec![a(3), a(1), a(3), a(3), a(2), a(1), HostAddr::V6(3), a(2)]),
        vec![a(3), a(1), a(2), HostAddr::V6(3)]
    );
    assert!(has_addr(&vec![a(1), a(2)], a(2)));
    assert!(!has_addr(&vec![a(1), a(2)], HostAddr::V6(2)));
    assert!(!has_addr(&vec![], a(2)));
}

fn carry_out(mirror: &mut Vec<HostAddr>, commands: &[TaskCommand]) {
    for command in commands {
        match command {
            TaskCommand::Start(ip) => {
                assert!(!mirror.contains(ip), "a loop is started twice");
                mirror.push(*ip);
            }
            TaskCommand::Stop(ip) => {
                let at = mirror.iter().position(|x| x == ip).expect("a loop that does not run is stopped");
                mirror.remove(at);
            }
        }
    }
}

#[test]
fn whoever_carries_out_the_commands_runs_what_the_registry_holds() {
    let mut app = App::new(vec![a(1), a(2), a(3), a(4)], AppMode::Icmp, 80);
    let mut mirror: Vec<HostAddr> = Vec::new();
    let keys = " j j pa kp dj  a p sjp dx p a";
    for c in keys.chars() {
        let effect = app.handle_key(KeyInput::Char(c));
        carry_out(&mut mirror, &effect.commands);
        assert_eq!(mirror.len(), app.running_count());
        for host in app.hosts() {
            assert_eq!(mirror.contains(&host.ip), app.is_running(host.ip));
            // the hosts are distinct: unless paused, a host runs exactly if it is selected
            if !app.paused() {
                assert_eq!(app.is_running(host.ip), host.selected);
            }
        }
        if app.paused() {
            assert_eq!(app.running_count(), 0);
        }
    }
    let last = app.shutdown();
    carry_out(&mut mirror, &last);
    assert!(mirror.is_empty());
}
