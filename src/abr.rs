//! The automatic baud-rate (ABR) calibration: a break held on the serial
//! line, released, then a fixed preamble from which the far end measures the
//! bit period.
use vstd::prelude::*;

verus! {

/// How long the break is held, in microseconds.
pub const BREAK_HOLD_MICROS: u64 = 10_000;

/// The pause between releasing the break and the preamble, in microseconds.
pub const RELEASE_WAIT_MICROS: u64 = 10;

/// The preamble byte, ASCII `U`: alternating bits.
pub const PREAMBLE_BYTE: u8 = 0x55;

/// How many preamble bytes are sent.
pub const PREAMBLE_LEN: usize = 10;

/// One step of the calibration, for the serial line to carry out.
#[derive(Clone, Debug, PartialEq, Eq)]
pub enum AbrStep {
    /// Put the line in the break condition.
    SetBreak,
    /// Do nothing else for this long.
    Wait { micros: u64 },
    /// Release the break condition.
    ClearBreak,
    /// Write these bytes.
    Send { bytes: Vec<u8> },
}

/// The preamble: `PREAMBLE_LEN` copies of `PREAMBLE_BYTE`.
pub open spec fn spec_preamble() -> Seq<u8> {
    Seq::new(PREAMBLE_LEN as nat, |i: int| PREAMBLE_BYTE)
}

pub fn abr_preamble() -> (r: Vec<u8>)
    ensures
        r@ == spec_preamble(),
{
    let mut out: Vec<u8> = Vec::new();
    let mut i: usize = 0;
    while i < PREAMBLE_LEN
        invariant
            i <= PREAMBLE_LEN,
            out@ == Seq::new(i as nat, |j: int| PREAMBLE_BYTE),
        decreases PREAMBLE_LEN - i,
    {
        out.push(PREAMBLE_BYTE);
        i = i + 1;
        assert(out@ =~= Seq::new(i as nat, |j: int| PREAMBLE_BYTE));
    }
    out
}

/// The calibration, step by step: break, hold, release, pause, preamble.
pub fn abr_sequence() -> (r: Vec<AbrStep>)
    ensures
        r@.len() == 5,
        r@[0] == AbrStep::SetBreak,
        r@[1] == (AbrStep::Wait { micros: BREAK_HOLD_MICROS }),
        r@[2] == AbrStep::ClearBreak,
        r@[3] == (AbrStep::Wait { micros: RELEASE_WAIT_MICROS }),
        r@[4] matches AbrStep::Send { bytes } && bytes@ == spec_preamble(),
{
    let mut steps: Vec<AbrStep> = Vec::new();
    steps.push(AbrStep::SetBreak);
    steps.push(AbrStep::Wait { micros: BREAK_HOLD_MICROS });
    steps.push(AbrStep::ClearBreak);
    steps.push(AbrStep::Wait { micros: RELEASE_WAIT_MICROS });
    steps.push(AbrStep::Send { bytes: abr_preamble() });
    steps
}

} // verus!
