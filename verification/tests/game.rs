use scene_sync::events::{
    ElementState, Event, InputEvent, Key, KeyInput, NamedKey, PeerAddr, RemoteMessage, WindowEvent,
};
use scene_sync::game::Game;
use scene_sync::scene::{CameraScaling, CameraSettings, Color, Model};

fn peer() -> PeerAddr {
    PeerAddr { ip: 0x7f000001, port: 40000 }
}

fn published_color(g: &Game) -> Option<Color> {
    let circle = g.circle?;
    Some(g.main_layer.appearance_of(circle.id)?.color)
}

fn key_event(state: ElementState, key: Key) -> Event {
    Event::Input(InputEvent::KeyboardInput { input: KeyInput { state, key } })
}

#[test]
fn new_game_is_idle() {
    let g = Game::new();
    assert!(g.circle.is_none());
    assert!(!g.exit());
}

#[test]
fn start_attaches_circle_and_configures_camera() {
    let mut g = Game::new();
    g.start();
    assert_eq!(
        g.main_layer.camera,
        CameraSettings { zoom_milli: 500, mode: CameraScaling::Expand },
    );
    let circle = g.circle.expect("the circle attaches to a fresh layer");
    let appearance = g.main_layer.appearance_of(circle.id).unwrap();
    assert_eq!(appearance.model, Some(Model::Circle { corner_count: 30 }));
    assert_eq!(appearance.color, Color { r: 255, g: 255, b: 255, a: 255 });
}

#[test]
fn peer_lifecycle_recolors_circle() {
    let mut g = Game::new();
    g.start();
    g.net_event(peer(), RemoteMessage::Connected);
    assert_eq!(published_color(&g), Some(Color { r: 0, g: 255, b: 0, a: 255 }));
    g.net_event(peer(), RemoteMessage::Data(vec![1, 2, 3]));
    assert_eq!(published_color(&g), Some(Color { r: 0, g: 0, b: 255, a: 255 }));
    g.net_event(peer(), RemoteMessage::Disconnected);
    assert_eq!(published_color(&g), Some(Color { r: 255, g: 0, b: 0, a: 255 }));
}

#[test]
fn net_event_before_start_is_a_noop() {
    let mut g = Game::new();
    g.net_event(peer(), RemoteMessage::Connected);
    assert!(g.circle.is_none());
    assert!(!g.exit());
    assert_eq!(g.main_layer.appearance_of(0), None);
}

#[test]
fn net_event_after_failed_init_is_a_noop() {
    let mut g = Game::new();
    g.main_layer.destroy();
    g.start();
    assert!(g.circle.is_none(), "init on a destroyed layer fails");
    g.net_event(peer(), RemoteMessage::Connected);
    g.net_event(peer(), RemoteMessage::Data(vec![7]));
    g.net_event(peer(), RemoteMessage::Disconnected);
    assert!(g.circle.is_none());
    assert!(!g.exit());
}

#[test]
fn close_request_sets_exit() {
    let mut g = Game::new();
    g.start();
    g.event(Event::Window(WindowEvent::CloseRequested));
    assert!(g.exit());
}

#[test]
fn pressed_escape_sets_exit() {
    let mut g = Game::new();
    g.start();
    g.event(key_event(ElementState::Pressed, Key::Named(NamedKey::Escape)));
    assert!(g.exit());
}

#[test]
fn released_escape_does_not_set_exit() {
    let mut g = Game::new();
    g.start();
    g.event(key_event(ElementState::Released, Key::Named(NamedKey::Escape)));
    assert!(!g.exit());
}

#[test]
fn other_local_events_do_not_set_exit() {
    let mut g = Game::new();
    g.start();
    g.event(Event::Window(WindowEvent::Resized { width: 800, height: 600 }));
    g.event(key_event(ElementState::Pressed, Key::Named(NamedKey::Enter)));
    g.event(key_event(ElementState::Pressed, Key::Character('q')));
    assert!(!g.exit());
    // And none of them touches the published scene state.
    assert_eq!(published_color(&g), Some(Color { r: 255, g: 255, b: 255, a: 255 }));
}
