//! Finding the controller among the clients of the ALSA sequencer, and the port to listen on.
use vstd::prelude::*;

use crate::text::{chars_of, contains_chars, contains_text};
use vstd::string::StringExecFns;

verus! {

/// A sequencer client: its number and, when it could be read, its name.
pub struct ClientInfo {
    pub id: i32,
    pub name: Option<String>,
}

/// A port of the controller's client: its number and whether it can be read from.
pub struct PortInfo {
    pub id: i32,
    pub readable: bool,
}

/// The name a client is matched by: its name, or the empty text when it has none.
pub open spec fn client_name(c: ClientInfo) -> Seq<char> {
    match c.name {
        Some(n) => n@,
        None => Seq::empty(),
    }
}

/// A client is the device when it is not a system client (its number is at
/// least 16) and its name holds the device name.
pub open spec fn is_device_client(c: ClientInfo, device_name: Seq<char>) -> bool {
    c.id >= 16 && contains_text(client_name(c), device_name)
}

/// The message for a device that is not among the clients.
pub open spec fn not_found_message(device_name: Seq<char>) -> Seq<char> {
    "Device '"@ + device_name + "' not found"@
}

/// The number of the first client that is the device named `device_name`.
pub fn find_device_client(clients: &Vec<ClientInfo>, device_name: &str) -> (r: Result<i32, String>)
    ensures
        match r {
            Ok(id) => exists|i: int|
                0 <= i < clients@.len() && is_device_client(#[trigger] clients@[i], device_name@)
                    && clients@[i].id == id && forall|k: int|
                    0 <= k < i ==> !is_device_client(#[trigger] clients@[k], device_name@),
            Err(e) => e@ == not_found_message(device_name@) && forall|k: int|
                0 <= k < clients@.len() ==> !is_device_client(#[trigger] clients@[k], device_name@),
        },
{
    let wanted = chars_of(device_name);
    let mut i: usize = 0;
    while i < clients.len()
        invariant
            i <= clients.len(),
            wanted@ == device_name@,
            forall|k: int| 0 <= k < i ==> !is_device_client(#[trigger] clients@[k], device_name@),
        decreases clients.len() - i,
    {
        let c = &clients[i];
        if c.id >= 16 {
            let name = match &c.name {
                Some(n) => chars_of(n.as_str()),
                None => Vec::new(),
            };
            assert(name@ =~= client_name(clients@[i as int]));
            if contains_chars(&name, &wanted) {
                return Ok(c.id);
            }
        }
        i = i + 1;
    }
    let mut msg = String::from_str("Device '");
    msg.append(device_name);
    msg.append("' not found");
    Err(msg)
}

/// The number of the first readable port.
pub fn find_readable_port(ports: &Vec<PortInfo>) -> (r: Result<i32, String>)
    ensures
        match r {
            Ok(id) => exists|i: int|
                0 <= i < ports@.len() && #[trigger] ports@[i].readable && ports@[i].id == id
                    && forall|k: int| 0 <= k < i ==> !(#[trigger] ports@[k]).readable,
            Err(e) => e@ == "No readable port found"@ && forall|k: int|
                0 <= k < ports@.len() ==> !(#[trigger] ports@[k]).readable,
        },
{
    let mut i: usize = 0;
    while i < ports.len()
        invariant
            i <= ports.len(),
            forall|k: int| 0 <= k < i ==> !(#[trigger] ports@[k]).readable,
        decreases ports.len() - i,
    {
        if ports[i].readable {
            return Ok(ports[i].id);
        }
        i = i + 1;
    }
    Err(String::from_str("No readable port found"))
}

} // verus!
