//! Observation core of a relaying packet inspector: the per-direction relay
//! decisions, the shared packet log and the records it holds.
pub mod clock;
pub mod direction;
mod repaint;
pub mod state;
pub mod store;

pub use clock::{current_time, fallback_time};
pub use direction::PacketDirection;
pub use state::{RelayError, RelayEvent, RelayPhase, State, FILL_CHUNK};
pub use store::{Packet, PacketBuilder, PacketStore};
