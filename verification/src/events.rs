//! The two typed event channels the dispatcher delivers: local window and
//! input events, and remote network events tagged with the peer they came
//! from. Both are closed sum types so that every dispatch site is forced to
//! be revisited when a variant is added.

use vstd::prelude::*;

verus! {

/// The address of a peer, as plain values: an IPv4 address and a port.
#[derive(Clone, Copy, PartialEq, Eq, Structural, Debug)]
pub struct PeerAddr {
    pub ip: u32,
    pub port: u16,
}

/// Whether a key changed to pressed or to released.
#[derive(Clone, Copy, PartialEq, Eq, Structural, Debug)]
pub enum ElementState {
    Pressed,
    Released,
}

/// A key with a fixed platform meaning.
#[derive(Clone, Copy, PartialEq, Eq, Structural, Debug)]
pub enum NamedKey {
    Escape,
    Enter,
}

/// The logical identity of a pressed key.
#[derive(Clone, Copy, PartialEq, Eq, Structural, Debug)]
pub enum Key {
    Named(NamedKey),
    Character(char),
}

/// One keyboard state change.
#[derive(Clone, Copy, PartialEq, Eq, Structural, Debug)]
pub struct KeyInput {
    pub state: ElementState,
    pub key: Key,
}

/// A local input event.
#[derive(Clone, Copy, PartialEq, Eq, Structural, Debug)]
pub enum InputEvent {
    KeyboardInput { input: KeyInput },
}

/// A window/system event.
#[derive(Clone, Copy, PartialEq, Eq, Structural, Debug)]
pub enum WindowEvent {
    CloseRequested,
    Resized { width: u32, height: u32 },
}

/// A local event, classified by the dispatcher into exactly one channel.
#[derive(Clone, Copy, PartialEq, Eq, Structural, Debug)]
pub enum Event {
    Window(WindowEvent),
    Input(InputEvent),
}

/// A network-visible lifecycle message for one peer: delivered per peer as
/// exactly one `Connected`, zero or more `Data` payloads, and at most one
/// terminal `Disconnected`. The payload bytes are opaque to this core.
#[derive(Clone, PartialEq, Eq, Debug)]
pub enum RemoteMessage {
    Connected,
    Disconnected,
    Data(Vec<u8>),
}

} // verus!
