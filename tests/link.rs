use serial_bridge::link::{input_outcome, output_outcome, Link, LinkError, Linkable};

/// An endpoint that takes at most `limit` bytes per send and hands out
/// `incoming` on receive.
struct Memory {
    sent: Vec<u8>,
    limit: usize,
    incoming: Vec<u8>,
    fail: Option<LinkError>,
}

impl Memory {
    fn new(limit: usize, incoming: &[u8]) -> Memory {
        Memory { sent: Vec::new(), limit, incoming: incoming.to_vec(), fail: None }
    }
}

impl Linkable for Memory {
    fn sink(&mut self, buffer: &[u8]) -> Result<usize, LinkError> {
        if let Some(e) = self.fail {
            return Err(e);
        }
        let n = buffer.len().min(self.limit);
        self.sent.extend_from_slice(&buffer[..n]);
        Ok(n)
    }

    fn source(&mut self, buffer: &mut [u8]) -> Result<usize, LinkError> {
        if let Some(e) = self.fail {
            return Err(e);
        }
        let n = buffer.len().min(self.incoming.len());
        buffer[..n].copy_from_slice(&self.incoming[..n]);
        self.incoming.drain(..n);
        Ok(n)
    }
}

#[test]
fn new_link_counts_nothing() {
    let l = Link::new(Memory::new(100, b""));
    assert_eq!(l.bytes_in(), 0);
    assert_eq!(l.bytes_out(), 0);
    assert_eq!(l.bytes_total(), 0);
}

#[test]
fn output_counts_bytes_out() {
    let mut l = Link::new(Memory::new(100, b""));
    assert_eq!(l.output(b"abcd"), Ok(4));
    assert_eq!(l.output(b"ef"), Ok(2));
    assert_eq!(l.bytes_out(), 6);
    assert_eq!(l.bytes_in(), 0);
    assert_eq!(l.bytes_total(), 6);
}

#[test]
fn partial_send_is_an_error() {
    let mut l = Link::new(Memory::new(3, b""));
    assert_eq!(l.output(b"abcdef"), Err(LinkError::Incomplete { written: 3 }));
    assert_eq!(l.bytes_out(), 3);
}

#[test]
fn failed_send_counts_nothing() {
    let mut m = Memory::new(100, b"");
    m.fail = Some(LinkError::TimedOut);
    let mut l = Link::new(m);
    assert_eq!(l.output(b"abc"), Err(LinkError::TimedOut));
    assert_eq!(l.bytes_out(), 0);
}

#[test]
fn input_counts_bytes_in() {
    let mut l = Link::new(Memory::new(100, b"hello"));
    let mut buf = [0u8; 3];
    assert_eq!(l.input(&mut buf), Ok(3));
    assert_eq!(&buf, b"hel");
    assert_eq!(l.input(&mut buf), Ok(2));
    assert_eq!(&buf[..2], b"lo");
    assert_eq!(l.input(&mut buf), Ok(0));
    assert_eq!(l.bytes_in(), 5);
    assert_eq!(l.bytes_out(), 0);
    assert_eq!(l.bytes_total(), 5);
}

#[test]
fn input_into_empty_buffer_is_refused() {
    let mut l = Link::new(Memory::new(100, b"hello"));
    let mut buf: [u8; 0] = [];
    assert_eq!(l.input(&mut buf), Err(LinkError::ZeroLengthBuffer));
    assert_eq!(l.bytes_in(), 0);
}

#[test]
fn broken_pipe_is_passed_on() {
    let mut m = Memory::new(100, b"x");
    m.fail = Some(LinkError::BrokenPipe);
    let mut l = Link::new(m);
    let mut buf = [0u8; 4];
    assert_eq!(l.input(&mut buf), Err(LinkError::BrokenPipe));
    assert_eq!(l.bytes_in(), 0);
}

#[test]
fn totals_add_both_directions() {
    let mut l = Link::new(Memory::new(100, b"abc"));
    let mut buf = [0u8; 8];
    l.input(&mut buf).unwrap();
    l.output(b"wxyz").unwrap();
    assert_eq!(l.bytes_total(), 7);
}

#[test]
fn outcome_of_a_send() {
    assert_eq!(output_outcome(4, Ok(4)), Ok(4));
    assert_eq!(output_outcome(4, Ok(1)), Err(LinkError::Incomplete { written: 1 }));
    assert_eq!(output_outcome(4, Err(LinkError::Incomplete { written: 2 })), Err(LinkError::Other));
    assert_eq!(output_outcome(4, Err(LinkError::TimedOut)), Err(LinkError::TimedOut));
    assert_eq!(output_outcome(0, Ok(0)), Ok(0));
    assert_eq!(input_outcome(Ok(3)), Ok(3));
    assert_eq!(input_outcome(Err(LinkError::ZeroLengthBuffer)), Err(LinkError::Other));
    assert_eq!(input_outcome(Err(LinkError::WouldBlock)), Err(LinkError::WouldBlock));
}
