//! The engine itself: fresh games, actions, and events.

use wumpus::engine::{Action, Config, Data, Engine, EngineApi, Event, InterfaceType};

#[test]
fn new_game_locations_are_distinct_rooms() {
    let d = Data::new();
    assert_eq!(d.l.len(), 6);
    for i in 0..6 {
        assert!(1 <= d.l[i] && d.l[i] <= 20);
        for j in 0..6 {
            if i != j {
                assert_ne!(d.l[i], d.l[j]);
            }
        }
    }
    assert_eq!(d.m, d.l);
    assert_eq!(d.a, 5);
    assert_eq!(d.f, 0);
}

#[test]
fn new_games_vary() {
    // A draw that always returned the top of its range would pin the
    // player's room; across many fresh games the room must vary.
    let first = Data::new().l[0];
    let mut saw_other = false;
    for _ in 0..60 {
        if Data::new().l[0] != first {
            saw_other = true;
            break;
        }
    }
    assert!(saw_other);
}

#[test]
fn quit_requires_shutdown() {
    let config = Config::from_json("{}");
    let mut engine = Engine::new(&config, InterfaceType::PC);
    let resp = engine.execute(Action::Quit);
    assert!(resp.shutdown_required);
    assert!(resp.msgs.is_empty());
    assert_eq!(resp.tunnels, vec![0, 0, 0]);
}

#[test]
fn instructions_are_shown() {
    let config = Config::from_json("{}");
    let mut engine = Engine::new(&config, InterfaceType::PC);
    let resp = engine.execute(Action::Instructions);
    assert!(!resp.shutdown_required);
    let text = String::from_utf8(resp.msgs.clone()).unwrap();
    assert!(text.starts_with(" WELCOME TO 'HUNT THE WUMPUS'"));
    assert!(text.contains("YOU ARE IN ROOM "));
    assert!(text.contains("TUNNELS LEAD TO "));
}

#[test]
fn impossible_move_is_refused() {
    let config = Config::from_json("{}");
    let mut engine = Engine::new(&config, InterfaceType::PC);
    // Room 0 does not exist, so no tunnel ever leads there.
    let resp = engine.execute(Action::Move(0));
    let text = String::from_utf8(resp.msgs.clone()).unwrap();
    assert!(text.contains("NOT POSSIBLE -"));
    assert!(!resp.shutdown_required);
}

#[test]
fn a_shot_spends_an_arrow() {
    let config = Config::from_json("{}");
    let mut engine = Engine::new(&config, InterfaceType::PC);
    let resp = engine.execute(Action::Shoot(vec![0]));
    // The arrow can never hit anything in room 0, so the shot misses
    // outright (and the woken wumpus may end the game on top of that).
    let text = String::from_utf8(resp.msgs.clone()).unwrap();
    assert!(text.contains("MISSED"));
    assert_eq!(engine.data.a, 4);
}

#[test]
fn restart_restocks_the_quiver() {
    let config = Config::from_json("{}");
    let mut engine = Engine::new(&config, InterfaceType::PC);
    engine.execute(Action::Shoot(vec![0]));
    assert_eq!(engine.data.a, 4);
    let resp = engine.execute(Action::ReStart);
    assert_eq!(engine.data.a, 5);
    assert_eq!(engine.data.f, 0);
    assert!(!resp.shutdown_required);
}

#[test]
fn events_leave_the_engine_alone() {
    let config = Config::from_json("{}");
    let mut engine = Engine::new(&config, InterfaceType::Android);
    let before = engine.data.l.clone();
    for ev in [
        Event::Create,
        Event::SaveInstanceState,
        Event::RestoreInstanceState,
        Event::Stop,
    ] {
        let resp = engine.handle_event(&ev);
        assert!(!resp.shutdown_required);
        assert!(resp.msgs.is_empty());
    }
    assert_eq!(engine.data.l, before);
}

#[test]
fn initial_html_mentions_the_game() {
    let config = Config::from_json("{}");
    let mut engine = Engine::new(&config, InterfaceType::PC);
    let page = engine.initial_html();
    let text = String::from_utf8(page).unwrap();
    assert!(text.contains("HUNT THE WUMPUS"));
    assert!(text.starts_with("<!DOCTYPE html>"));
    assert_eq!(engine.get_interface_type(), InterfaceType::PC);
}
