//! Endpoints of the bridge: anything that sends and receives bytes, with
//! running counts of the bytes moved each way.
use vstd::prelude::*;

verus! {

/// Why an endpoint could not move bytes.
#[derive(Clone, Copy, Debug, PartialEq, Eq, Structural)]
pub enum LinkError {
    /// The other end is gone (a disconnected serial line).
    BrokenPipe,
    /// The operation did not finish in time.
    TimedOut,
    /// Nothing could be moved without blocking.
    WouldBlock,
    /// A send covered only the first `written` bytes of the buffer.
    Incomplete { written: usize },
    /// A receive was asked to fill an empty buffer.
    ZeroLengthBuffer,
    /// Any other failure of the endpoint.
    Other,
}

/// An endpoint that can send a buffer of bytes and receive into one.
pub trait Linkable {
    /// The endpoint went from `self` to `post` by a send of `buffer` that
    /// reported `r`. An endpoint that models its state says here what a
    /// send does to it; by default nothing is said.
    closed spec fn sank(&self, post: &Self, buffer: Seq<u8>, r: Result<usize, LinkError>) -> bool {
        true
    }

    /// The endpoint went from `self` to `post` by a receive into a buffer
    /// that held `before` and then held `after`, which reported `r`. By
    /// default nothing is said.
    closed spec fn sourced(
        &self,
        post: &Self,
        before: Seq<u8>,
        after: Seq<u8>,
        r: Result<usize, LinkError>,
    ) -> bool {
        true
    }

    /// Sends the buffer and flushes it, returning how many bytes were taken.
    fn sink(&mut self, buffer: &[u8]) -> (r: Result<usize, LinkError>)
        ensures
            old(self).sank(&*final(self), buffer@, r),
            r matches Ok(n) ==> n <= buffer@.len(),
    ;

    /// Receives into the buffer, returning how many bytes were filled; no
    /// data available is `Ok(0)`.
    fn source(&mut self, buffer: &mut [u8]) -> (r: Result<usize, LinkError>)
        ensures
            old(self).sourced(&*final(self), old(buffer)@, final(buffer)@, r),
            final(buffer)@.len() == old(buffer)@.len(),
            r matches Ok(n) ==> n <= old(buffer)@.len(),
    ;
}

/// `a + b`, or the largest `u64` where the sum does not fit.
pub open spec fn spec_saturating_sum(a: u64, b: u64) -> u64 {
    if a + b > u64::MAX {
        u64::MAX
    } else {
        (a + b) as u64
    }
}

fn saturating_sum(a: u64, b: u64) -> (r: u64)
    ensures
        r == spec_saturating_sum(a, b),
{
    if a > u64::MAX - b {
        u64::MAX
    } else {
        a + b
    }
}

/// What a send of `length` bytes comes to when the endpoint reported
/// `sunk`: success only when it took them all. An endpoint's own
/// `Incomplete` becomes `Other`, so that `Incomplete` always means a short
/// send seen here.
pub open spec fn spec_output_outcome(length: nat, sunk: Result<usize, LinkError>) -> Result<usize, LinkError> {
    match sunk {
        Ok(n) => if n == length {
            Ok(n)
        } else {
            Err(LinkError::Incomplete { written: n })
        },
        Err(LinkError::Incomplete { .. }) => Err(LinkError::Other),
        Err(e) => Err(e),
    }
}

/// What a receive comes to when the endpoint reported `sourced`. An
/// endpoint's own `ZeroLengthBuffer` becomes `Other`, so that
/// `ZeroLengthBuffer` always means an empty buffer refused here.
pub open spec fn spec_input_outcome(sourced: Result<usize, LinkError>) -> Result<usize, LinkError> {
    match sourced {
        Err(LinkError::ZeroLengthBuffer) => Err(LinkError::Other),
        _ => sourced,
    }
}

/// How many bytes an endpoint's report says it moved.
pub open spec fn spec_moved(reported: Result<usize, LinkError>) -> u64 {
    match reported {
        Ok(n) => n as u64,
        Err(_) => 0,
    }
}

pub fn output_outcome(length: usize, sunk: Result<usize, LinkError>) -> (r: Result<usize, LinkError>)
    ensures
        r == spec_output_outcome(length as nat, sunk),
{
    match sunk {
        Ok(count) => {
            if count == length {
                Ok(count)
            } else {
                Err(LinkError::Incomplete { written: count })
            }
        },
        Err(LinkError::Incomplete { .. }) => Err(LinkError::Other),
        Err(e) => Err(e),
    }
}

pub fn input_outcome(sourced: Result<usize, LinkError>) -> (r: Result<usize, LinkError>)
    ensures
        r == spec_input_outcome(sourced),
{
    match sourced {
        Err(LinkError::ZeroLengthBuffer) => Err(LinkError::Other),
        _ => sourced,
    }
}

/// An endpoint with the counts of bytes received (`bytes_in`) and sent
/// (`bytes_out`) through it. The counts never decrease; they stop at the
/// largest `u64`.
pub struct Link<T: Linkable> {
    link: T,
    bytes_in: u64,
    bytes_out: u64,
}

impl<T: Linkable> Link<T> {
    pub closed spec fn spec_bytes_in(&self) -> u64 {
        self.bytes_in
    }

    pub closed spec fn spec_bytes_out(&self) -> u64 {
        self.bytes_out
    }

    pub closed spec fn endpoint(&self) -> T {
        self.link
    }

    pub fn new(link: T) -> (r: Link<T>)
        ensures
            r.spec_bytes_in() == 0,
            r.spec_bytes_out() == 0,
            r.endpoint() == link,
    {
        Link { link, bytes_in: 0, bytes_out: 0 }
    }

    /// Sends the whole buffer: the endpoint's `sink` gets `buffer` once, the
    /// result is what `output_outcome` makes of its report, and the bytes it
    /// took count as sent.
    pub fn output(&mut self, buffer: &[u8]) -> (r: Result<usize, LinkError>)
        ensures
            final(self).spec_bytes_in() == old(self).spec_bytes_in(),
            exists|sunk: Result<usize, LinkError>|
                old(self).endpoint().sank(&final(self).endpoint(), buffer@, sunk)
                && (sunk matches Ok(n) ==> n <= buffer@.len()) && r == #[trigger] spec_output_outcome(
                    buffer@.len(),
                    sunk,
                ) && final(self).spec_bytes_out() == spec_saturating_sum(
                    old(self).spec_bytes_out(),
                    spec_moved(sunk),
                ),
            match r {
                Ok(n) => n == buffer@.len() && final(self).spec_bytes_out() == spec_saturating_sum(
                    old(self).spec_bytes_out(),
                    n as u64,
                ),
                Err(LinkError::Incomplete { written }) => written < buffer@.len()
                    && final(self).spec_bytes_out() == spec_saturating_sum(
                    old(self).spec_bytes_out(),
                    written as u64,
                ),
                Err(_) => final(self).spec_bytes_out() == old(self).spec_bytes_out(),
            },
    {
        let length = buffer.len();
        let sunk = self.link.sink(buffer);
        let moved: u64 = match sunk {
            Ok(count) => count as u64,
            Err(_) => 0,
        };
        self.bytes_out = saturating_sum(self.bytes_out, moved);
        let r = output_outcome(length, sunk);
        assert(spec_output_outcome(buffer@.len(), sunk) == r);
        r
    }

    /// Receives into the buffer and returns how many bytes arrived: the
    /// endpoint's `source` gets `buffer` once and fills it, and the result is
    /// what `input_outcome` makes of its report. An empty buffer fails with
    /// `ZeroLengthBuffer` and reaches no endpoint.
    pub fn input(&mut self, buffer: &mut [u8]) -> (r: Result<usize, LinkError>)
        ensures
            final(self).spec_bytes_out() == old(self).spec_bytes_out(),
            final(buffer)@.len() == old(buffer)@.len(),
            old(buffer)@.len() == 0 <==> r == Err::<usize, LinkError>(LinkError::ZeroLengthBuffer),
            old(buffer)@.len() == 0 ==> final(buffer)@ == old(buffer)@ && *final(self) == *old(self),
            old(buffer)@.len() > 0 ==> exists|sourced: Result<usize, LinkError>|
                old(self).endpoint().sourced(
                    &final(self).endpoint(),
                    old(buffer)@,
                    final(buffer)@,
                    sourced,
                ) && (sourced matches Ok(n) ==> n <= old(buffer)@.len()) && r == #[trigger] spec_input_outcome(
                    sourced,
                ) && final(self).spec_bytes_in() == spec_saturating_sum(
                    old(self).spec_bytes_in(),
                    spec_moved(sourced),
                ),
            match r {
                Ok(n) => n <= old(buffer)@.len() && final(self).spec_bytes_in()
                    == spec_saturating_sum(old(self).spec_bytes_in(), n as u64),
                Err(_) => final(self).spec_bytes_in() == old(self).spec_bytes_in(),
            },
    {
        if buffer.len() == 0 {
            return Err(LinkError::ZeroLengthBuffer);
        }
        let sourced = self.link.source(buffer);
        let moved: u64 = match sourced {
            Ok(count) => count as u64,
            Err(_) => 0,
        };
        self.bytes_in = saturating_sum(self.bytes_in, moved);
        let r = input_outcome(sourced);
        assert(spec_input_outcome(sourced) == r);
        r
    }

    /// Total incoming bytes.
    pub fn bytes_in(&self) -> (r: u64)
        ensures
            r == self.spec_bytes_in(),
    {
        self.bytes_in
    }

    /// Total outgoing bytes.
    pub fn bytes_out(&self) -> (r: u64)
        ensures
            r == self.spec_bytes_out(),
    {
        self.bytes_out
    }

    /// Total bytes moved both ways.
    pub fn bytes_total(&self) -> (r: u64)
        ensures
            r == spec_saturating_sum(self.spec_bytes_in(), self.spec_bytes_out()),
    {
        saturating_sum(self.bytes_in, self.bytes_out)
    }
}

} // verus!
