use voxel_game::game::{Game, GameAction, GameEvent, WindowInput};

fn own(input: WindowInput) -> GameEvent {
    GameEvent::Window { own: true, input }
}

#[test]
fn new_game_runs_focused() {
    let g = Game::new();
    assert!(g.is_running());
    assert!(g.is_focused());
}

#[test]
fn close_request_stops_the_game() {
    let mut g = Game::new();
    assert_eq!(g.process_event(own(WindowInput::CloseRequested)), GameAction::Nothing);
    assert!(!g.is_running());
}

#[test]
fn escape_stops_the_game_other_keys_are_reported() {
    let mut g = Game::new();
    assert_eq!(g.process_event(own(WindowInput::Key { escape: false, pressed: true })), GameAction::KeyPressed);
    assert_eq!(g.process_event(own(WindowInput::Key { escape: false, pressed: false })), GameAction::KeyReleased);
    assert!(g.is_running());
    assert_eq!(g.process_event(own(WindowInput::Key { escape: true, pressed: false })), GameAction::Nothing);
    assert!(!g.is_running());
    // a stopped game stays stopped
    assert_eq!(g.process_event(GameEvent::MouseMotion), GameAction::TurnCamera);
    assert!(!g.is_running());
}

#[test]
fn resizes_and_mouse_motion() {
    let mut g = Game::new();
    assert_eq!(g.process_event(own(WindowInput::Resized)), GameAction::Resize);
    assert_eq!(g.process_event(own(WindowInput::ScaleFactorChanged)), GameAction::Resize);
    assert_eq!(g.process_event(GameEvent::MouseMotion), GameAction::TurnCamera);
    assert_eq!(g.process_event(own(WindowInput::UnknownKey)), GameAction::Nothing);
    assert_eq!(g.process_event(GameEvent::OtherDevice), GameAction::Nothing);
    assert!(g.is_running());
}

#[test]
fn events_of_other_windows_are_ignored() {
    let mut g = Game::new();
    let close_other = GameEvent::Window { own: false, input: WindowInput::CloseRequested };
    assert_eq!(g.process_event(close_other), GameAction::Nothing);
    let resize_other = GameEvent::Window { own: false, input: WindowInput::Resized };
    assert_eq!(g.process_event(resize_other), GameAction::Nothing);
    assert!(g.is_running());
}

#[test]
fn exit_stops_the_game() {
    let mut g = Game::new();
    g.exit();
    assert!(!g.is_running());
    assert!(g.is_focused());
}
