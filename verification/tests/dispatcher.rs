use scene_sync::dispatcher::{boot, Dispatcher, Phase, TickEvent};
use scene_sync::events::{Event, PeerAddr, RemoteMessage, WindowEvent};
use scene_sync::fanout::BindError;
use scene_sync::game::Game;
use scene_sync::scene::Color;

fn peer() -> PeerAddr {
    PeerAddr { ip: 0x7f000001, port: 40000 }
}

fn published_color(d: &Dispatcher) -> Option<Color> {
    let circle = d.handler.circle?;
    Some(d.handler.main_layer.appearance_of(circle.id)?.color)
}

fn running_dispatcher() -> Dispatcher {
    let mut d = Dispatcher::new(Game::new());
    d.start();
    d
}

#[test]
fn boot_on_occupied_port_is_a_setup_error() {
    match boot(Game::new(), 7777, false) {
        Err(e) => assert_eq!(e, BindError::PortUnavailable),
        Ok(_) => panic!("a failed bind must stop the engine before Running"),
    }
}

#[test]
fn boot_enters_running_with_the_server_started() {
    let (d, s) = boot(Game::new(), 7777, true).unwrap();
    assert_eq!(d.phase, Phase::Running);
    assert!(d.handler.circle.is_some(), "the start hook ran");
    assert_eq!(s.port, 7777);
    assert!(s.started);
}

#[test]
fn new_dispatcher_is_uninitialized_until_started() {
    let d = Dispatcher::new(Game::new());
    assert_eq!(d.phase, Phase::Uninitialized);
    assert!(d.handler.circle.is_none(), "no hook fired yet");
}

#[test]
fn tick_delivers_events_in_arrival_order() {
    let mut d = running_dispatcher();
    d.tick(vec![
        TickEvent::Remote(peer(), RemoteMessage::Data(vec![1])),
        TickEvent::Remote(peer(), RemoteMessage::Connected),
    ]);
    // The later event wins: the published color is green, not blue.
    assert_eq!(published_color(&d), Some(Color { r: 0, g: 255, b: 0, a: 255 }));
    assert_eq!(d.phase, Phase::Running);
}

#[test]
fn empty_tick_keeps_running() {
    let mut d = running_dispatcher();
    d.tick(Vec::new());
    assert_eq!(d.phase, Phase::Running);
}

#[test]
fn close_request_exits_within_its_tick() {
    let mut d = running_dispatcher();
    d.tick(vec![TickEvent::Local(Event::Window(WindowEvent::CloseRequested))]);
    assert_eq!(d.phase, Phase::Exiting);
}

#[test]
fn queued_events_after_a_close_request_are_still_delivered() {
    let mut d = running_dispatcher();
    d.tick(vec![
        TickEvent::Local(Event::Window(WindowEvent::CloseRequested)),
        TickEvent::Remote(peer(), RemoteMessage::Connected),
    ]);
    // The exit flag is polled once per tick, after the whole batch.
    assert_eq!(published_color(&d), Some(Color { r: 0, g: 255, b: 0, a: 255 }));
    assert_eq!(d.phase, Phase::Exiting);
}

#[test]
fn terminate_ends_the_lifecycle() {
    let mut d = running_dispatcher();
    d.tick(vec![TickEvent::Local(Event::Window(WindowEvent::CloseRequested))]);
    d.terminate();
    assert_eq!(d.phase, Phase::Terminated);
}
