//! MIDI input: finding the controller among the sequencer's clients, and
//! turning its controller events into actions.
pub mod device;
pub mod processor;

pub use device::{find_device_client, find_readable_port, ClientInfo, PortInfo};
pub use processor::{controller_event, dispatch_controller, ControllerEvent, Dispatch};
