//! The bridge's configuration, as given on the command line.
use vstd::prelude::*;
use crate::socket::PeerPolicy;
use crate::text::{chars_of, last_index_of, slice_chars, parse_u32, string_of, spec_last_index_of, spec_parse_u32};

verus! {

/// The baud rate used when the serial argument names none.
pub const DEFAULT_BAUD_RATE: u32 = 115200;

/// How long a UDP peer may stay silent before it is evicted, in
/// milliseconds.
pub const PEER_MAX_AGE_MILLIS: u64 = 10_000;

/// The default for `udp_max_clients_number`.
pub const DEFAULT_MAX_CLIENTS: usize = 5;

/// The bridge's options.
#[derive(Clone, Debug)]
pub struct Options {
    /// Log every transfer.
    pub verbose: bool,
    /// Run the baud-rate calibration at startup.
    pub automatic_baud_rate_procedure: bool,
    /// Keep idle UDP peers instead of evicting them.
    pub no_udp_disconnection: bool,
    /// The most UDP peers tracked.
    pub udp_max_clients_number: usize,
    /// `SERIAL_PORT` or `SERIAL_PORT:BAUD_RATE`.
    pub serial_port: Option<String>,
    /// Only list the serial ports.
    pub available_serial_ports: bool,
    /// Only list the serial ports, with all their details.
    pub available_serial_ports_full: bool,
    /// `IP:PORT`: a loopback or unspecified IP binds a server, any other is
    /// the remote end of a client.
    pub udp_address: String,
    /// The local port a client binds.
    pub udp_listen_port: Option<u16>,
}

/// Holds the options for the life of the bridge.
#[derive(Clone, Debug)]
pub struct Manager {
    options: Options,
}

impl Manager {
    pub closed spec fn spec_options(&self) -> Options {
        self.options
    }

    pub fn new(options: Options) -> (r: Manager)
        ensures
            r.spec_options() == options,
    {
        Manager { options }
    }
}

/// Whether the verbosity option was given.
pub fn is_verbose(options: &Options) -> (r: bool)
    ensures
        r == options.verbose,
{
    options.verbose
}

/// The options the manager holds.
pub fn options(manager: &Manager) -> (r: &Options)
    ensures
        *r == manager.spec_options(),
{
    &manager.options
}

/// Why the configuration cannot be used.
#[derive(Clone, Copy, Debug, PartialEq, Eq, Structural)]
pub enum ConfigError {
    /// No serial port was given.
    MissingSerialPort,
    /// What follows the last `:` of the serial argument is not a `u32`.
    InvalidBaudRate,
}

/// The serial path and baud rate named by the serial argument: split at
/// its last `:`, the baud rate after it; with no `:`, the whole argument
/// and the default rate.
pub open spec fn spec_serial_port_configuration(arg: Option<Seq<char>>) -> Result<(Seq<char>, u32), ConfigError> {
    match arg {
        None => Err(ConfigError::MissingSerialPort),
        Some(cs) => {
            let k = spec_last_index_of(cs, ':');
            if k < 0 {
                Ok((cs, DEFAULT_BAUD_RATE))
            } else {
                match spec_parse_u32(cs.skip(k + 1)) {
                    Some(rate) => Ok((cs.take(k), rate)),
                    None => Err(ConfigError::InvalidBaudRate),
                }
            }
        },
    }
}

/// A result with the path as characters.
pub open spec fn spec_configuration_view(r: Result<(String, u32), ConfigError>) -> Result<(Seq<char>, u32), ConfigError> {
    match r {
        Ok((path, rate)) => Ok((path@, rate)),
        Err(e) => Err(e),
    }
}

/// The serial port's path and baud rate.
pub fn serial_port_configuration(options: &Options) -> (r: Result<(String, u32), ConfigError>)
    ensures
        spec_configuration_view(r) == spec_serial_port_configuration(
            match options.serial_port {
                Some(s) => Some(s@),
                None => None,
            },
        ),
{
    match &options.serial_port {
        None => Err(ConfigError::MissingSerialPort),
        Some(arg) => {
            let cs = chars_of(arg.as_str());
            match last_index_of(&cs, ':') {
                None => Ok((string_of(&cs), DEFAULT_BAUD_RATE)),
                Some(k) => {
                    let rate_chars = slice_chars(&cs, k + 1, cs.len());
                    assert(rate_chars@ =~= cs@.skip(k + 1));
                    match parse_u32(&rate_chars) {
                        None => Err(ConfigError::InvalidBaudRate),
                        Some(rate) => {
                            let path = slice_chars(&cs, 0, k);
                            assert(path@ =~= cs@.take(k as int));
                            Ok((string_of(&path), rate))
                        },
                    }
                },
            }
        },
    }
}

/// The peer policy the options ask for.
pub fn peer_policy(options: &Options) -> (r: PeerPolicy)
    ensures
        r.max_peers == options.udp_max_clients_number,
        r.idle_eviction == !options.no_udp_disconnection,
        r.max_age == PEER_MAX_AGE_MILLIS,
{
    PeerPolicy {
        max_peers: options.udp_max_clients_number,
        idle_eviction: !options.no_udp_disconnection,
        max_age: PEER_MAX_AGE_MILLIS,
    }
}

} // verus!
