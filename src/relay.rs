//! One iteration of the relay loop, as a decision: what was read on each
//! side goes in, what to send on each side comes out.
use vstd::prelude::*;
use crate::socket::{Socket, Datagram, spec_write, spec_read};

verus! {

/// What a read of the serial line gave.
#[derive(Clone, Debug)]
pub enum SerialRead {
    /// These bytes, possibly none.
    Bytes(Vec<u8>),
    /// The line is physically disconnected.
    Disconnected,
    /// Any other read failure; the loop carries on.
    Failed,
}

/// A failure that ends the relay.
#[derive(Clone, Copy, Debug, PartialEq, Eq, Structural)]
pub enum RelayError {
    /// The serial line was disconnected.
    SerialDisconnected,
}

/// What one iteration sends.
#[derive(Clone, Debug)]
pub struct RelayPlan {
    /// Datagrams for the UDP side.
    pub to_udp: Vec<Datagram>,
    /// Bytes for the serial line.
    pub to_serial: Vec<u8>,
    /// Whether to run the baud-rate calibration after the serial write.
    pub calibrate: bool,
}

/// What the serial read does to the UDP side: non-empty bytes are written
/// out as `Socket::write` does; anything else sends nothing and leaves the
/// socket alone.
pub open spec fn spec_forward_serial(pre: Socket, post: Socket, serial: SerialRead, now: u64, to_udp: Seq<Datagram>) -> bool {
    if serial is Bytes && serial->Bytes_0@.len() > 0 {
        spec_write(pre, post, serial->Bytes_0@, now, to_udp)
    } else {
        post == pre && to_udp.len() == 0
    }
}

/// One iteration of the relay loop at time `now`: the serial read goes out
/// over UDP (a non-empty one only), then the drained datagrams go to the
/// serial line. A disconnected serial line ends the relay and changes
/// nothing.
pub fn relay_step(socket: &mut Socket, serial: &SerialRead, datagrams: &Vec<Datagram>, now: u64) -> (r: Result<RelayPlan, RelayError>)
    requires
        old(socket).wf(),
    ensures
        serial is Disconnected <==> r is Err,
        r is Err ==> *final(socket) == *old(socket),
        r is Ok ==> exists|mid: Socket|
            #[trigger] spec_forward_serial(*old(socket), mid, *serial, now, r->Ok_0.to_udp@)
                && spec_read(mid, *final(socket), datagrams@, now, r->Ok_0.to_serial@, r->Ok_0.calibrate),
{
    let to_udp = match serial {
        SerialRead::Disconnected => {
            return Err(RelayError::SerialDisconnected);
        },
        SerialRead::Failed => Vec::new(),
        SerialRead::Bytes(bytes) => {
            if bytes.len() > 0 {
                socket.write(bytes.as_slice(), now)
            } else {
                Vec::new()
            }
        },
    };
    let ghost mid = *socket;
    let (to_serial, calibrate) = socket.read(datagrams, now);
    let plan = RelayPlan { to_udp, to_serial, calibrate };
    let r: Result<RelayPlan, RelayError> = Ok(plan);
    assert(spec_forward_serial(*old(socket), mid, *serial, now, r->Ok_0.to_udp@));
    assert(spec_read(mid, *socket, datagrams@, now, r->Ok_0.to_serial@, r->Ok_0.calibrate));
    r
}

} // verus!
