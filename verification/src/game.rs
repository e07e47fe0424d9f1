//! The game handler: user logic driven by the lifecycle dispatcher. It owns
//! the root layer, an optional handle to the synchronized object, and the
//! exit flag, and reacts to events by recoloring the shared object through
//! the update/sync protocol.

use vstd::prelude::*;

use crate::events::{ElementState, Event, InputEvent, Key, NamedKey, PeerAddr, RemoteMessage, WindowEvent};
use crate::scene::{
    Appearance, CameraScaling, CameraSettings, Color, Layer, LayerView, LiveObject, Model,
    NewObject, new_layer,
};

verus! {

/// The color the handler publishes for each remote message: green on a
/// connection, blue on a data payload, red on a disconnection.
pub open spec fn color_for(m: RemoteMessage) -> Color {
    match m {
        RemoteMessage::Connected => Color::green(),
        RemoteMessage::Disconnected => Color::red(),
        RemoteMessage::Data(_) => Color::blue(),
    }
}

/// The mathematical state of the handler.
#[verifier::ext_equal]
pub ghost struct GameView {
    pub layer: LayerView,
    pub circle: Option<LiveObject>,
    pub exit: bool,
}

impl GameView {
    /// A held handle always points at a live slot of the layer.
    pub open spec fn wf(self) -> bool {
        self.circle matches Some(c) ==> !self.layer.destroyed && self.layer.slot(c.id) is Some
    }

    /// What the render/query path currently sees of the synchronized object.
    pub open spec fn published_color(self) -> Option<Color> {
        match self.circle {
            None => None,
            Some(c) => match self.layer.slot(c.id) {
                None => None,
                Some(a) => Some(a.color),
            },
        }
    }

    /// The `start` hook: configure the camera, then attach the circle;
    /// when attachment fails the handle is simply absent.
    pub open spec fn after_start(self) -> GameView {
        let camera = CameraSettings { zoom_milli: 500, mode: CameraScaling::Expand };
        let layer = LayerView { destroyed: self.layer.destroyed, camera, objects: self.layer.objects };
        let appearance = Appearance {
            model: Some(Model::Circle { corner_count: 30 }),
            color: Color::white(),
        };
        if layer.can_attach() {
            GameView {
                layer: LayerView {
                    destroyed: layer.destroyed,
                    camera,
                    objects: layer.objects.push(Some(appearance)),
                },
                circle: Some(LiveObject { id: layer.objects.len() as usize, appearance }),
                exit: self.exit,
            }
        } else {
            GameView { layer, circle: None, exit: self.exit }
        }
    }

    /// The local events that request termination: a window close request,
    /// or the escape key going down.
    pub open spec fn exit_event(e: Event) -> bool {
        ||| e matches Event::Window(WindowEvent::CloseRequested)
        ||| (e matches Event::Input(InputEvent::KeyboardInput { input }) && input.state
            == ElementState::Pressed && input.key == Key::Named(NamedKey::Escape))
    }

    /// The `event` hook: it only ever raises the exit flag.
    pub open spec fn after_local(self, e: Event) -> GameView {
        GameView {
            layer: self.layer,
            circle: self.circle,
            exit: self.exit || Self::exit_event(e),
        }
    }

    /// The `net_event` hook: with no handle the event is a no-op; with a
    /// handle whose slot is gone the failed update is silently skipped;
    /// otherwise the snapshot is refreshed, recolored, and committed.
    pub open spec fn after_remote(self, addr: PeerAddr, m: RemoteMessage) -> GameView {
        match self.circle {
            None => self,
            Some(c) => {
                if self.layer.destroyed || !(self.layer.slot(c.id) is Some) {
                    self
                } else {
                    let appearance = Appearance {
                        model: self.layer.slot(c.id).unwrap().model,
                        color: color_for(m),
                    };
                    GameView {
                        layer: LayerView {
                            destroyed: self.layer.destroyed,
                            camera: self.layer.camera,
                            objects: self.layer.objects.update(c.id as int, Some(appearance)),
                        },
                        circle: Some(LiveObject { id: c.id, appearance }),
                        exit: self.exit,
                    }
                }
            },
        }
    }
}

/// The handler state: the root layer, the optional handle to the
/// synchronized object, and the exit flag polled by the dispatcher.
pub struct Game {
    pub main_layer: Layer,
    pub circle: Option<LiveObject>,
    pub exit: bool,
}

impl View for Game {
    type V = GameView;

    open spec fn view(&self) -> GameView {
        GameView { layer: self.main_layer@, circle: self.circle, exit: self.exit }
    }
}

impl Game {
    /// Constructor for this scene: a fresh layer, no object yet, not exiting.
    pub fn new() -> (g: Game)
        ensures
            !g@.layer.destroyed,
            g@.layer.camera == CameraSettings::initial(),
            g@.layer.objects.len() == 0,
            g@.circle is None,
            !g@.exit,
            g@.wf(),
    {
        Game { main_layer: new_layer(), circle: None, exit: false }
    }

    /// The one-time `start` hook: zooms the camera out without stretching,
    /// then attaches the circle object; a failed attachment leaves the
    /// handle absent rather than aborting.
    pub fn start(&mut self)
        ensures
            final(self)@ == old(self)@.after_start(),
            final(self)@.wf(),
    {
        self.main_layer.set_camera_settings(
            CameraSettings { zoom_milli: 500, mode: CameraScaling::Expand },
        );
        let mut circle = NewObject::new();
        circle.appearance.set_model(Some(Model::Circle { corner_count: 30 }));
        self.circle = match circle.init(&mut self.main_layer) {
            Ok(obj) => Some(obj),
            Err(_) => None,
        };
        proof {
            assert(self@ =~= old(self)@.after_start());
        }
    }

    /// The `event` hook: raises the exit flag on a close request or a
    /// pressed escape key and ignores every other local event.
    pub fn event(&mut self, event: Event)
        ensures
            final(self)@ == old(self)@.after_local(event),
    {
        match event {
            Event::Window(WindowEvent::CloseRequested) => {
                self.exit = true;
            },
            Event::Input(InputEvent::KeyboardInput { input }) => {
                if input.state == ElementState::Pressed {
                    if let Key::Named(NamedKey::Escape) = input.key {
                        self.exit = true;
                    }
                }
            },
            _ => (),
        }
        proof {
            assert(self@ =~= old(self)@.after_local(event));
        }
    }

    /// The `net_event` hook: recolors the synchronized object for the given
    /// message through the update/sync pair. Without a handle, or when the
    /// object is gone, the event is absorbed as a no-op; it never panics
    /// and never propagates an error to the dispatcher.
    pub fn net_event(&mut self, addr: PeerAddr, message: RemoteMessage)
        ensures
            final(self)@ == old(self)@.after_remote(addr, message),
    {
        match self.circle {
            None => (),
            Some(mut c) => {
                match c.update(&self.main_layer) {
                    Ok(()) => {
                        let color = match &message {
                            RemoteMessage::Connected => Color { r: 0, g: 255, b: 0, a: 255 },
                            RemoteMessage::Disconnected => Color { r: 255, g: 0, b: 0, a: 255 },
                            RemoteMessage::Data(_) => Color { r: 0, g: 0, b: 255, a: 255 },
                        };
                        c.appearance.set_color(color);
                        let synced = c.sync(&mut self.main_layer);
                        proof {
                            assert(synced is Ok);
                        }
                        self.circle = Some(c);
                    },
                    Err(_) => (),
                }
            },
        }
        proof {
            assert(self@ =~= old(self)@.after_remote(addr, message));
        }
    }

    /// The exit predicate the dispatcher polls once per loop tick.
    pub fn exit(&self) -> (r: bool)
        ensures
            r == self@.exit,
    {
        self.exit
    }
}

/// Law: the `start` hook leaves the handler well formed, whatever state
/// it ran from — a held handle points at a live slot of the layer.
pub proof fn lemma_start_preserves_wf(v: GameView)
    ensures
        v.after_start().wf(),
{
}

/// Law: delivering a local event keeps the handler well formed.
pub proof fn lemma_local_preserves_wf(v: GameView, e: Event)
    requires
        v.wf(),
    ensures
        v.after_local(e).wf(),
{
}

/// Law: delivering a remote event keeps the handler well formed, so no
/// chain of deliveries can make a later mutation fault.
pub proof fn lemma_remote_preserves_wf(v: GameView, addr: PeerAddr, m: RemoteMessage)
    requires
        v.wf(),
    ensures
        v.after_remote(addr, m).wf(),
{
}

/// Law: a handler whose object failed to initialize treats every remote
/// event as a no-op — the hook neither faults nor changes any state.
pub proof fn lemma_absent_object_noop(v: GameView, addr: PeerAddr, m: RemoteMessage)
    requires
        v.circle is None,
    ensures
        v.after_remote(addr, m) == v,
{
}

/// Law: handling a remote event with the object present publishes exactly
/// the color chosen during that hook invocation (green for `Connected`),
/// and the published color then stays unchanged under any local event,
/// i.e. until the next successful `sync`.
pub proof fn lemma_sync_publishes_color(v: GameView, addr: PeerAddr, m: RemoteMessage, e: Event)
    requires
        v.wf(),
        v.circle is Some,
    ensures
        v.after_remote(addr, m).published_color() == Some(color_for(m)),
        v.after_remote(addr, m).after_local(e).published_color() == v.after_remote(
            addr,
            m,
        ).published_color(),
{
}

} // verus!
