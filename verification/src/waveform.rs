//! Waveform encoder.
//!
//! Each inter-edge delay from the profile generator becomes one
//! transmission symbol: a high pulse of fixed width that the stepper
//! driver latches as a step edge, followed by a low pulse sized so the
//! pair spans exactly the requested delay. A delay shorter than the high
//! pulse cannot be encoded — that is the practical ceiling on step rate —
//! and a low pulse longer than a pulse field can carry cannot either.

use crate::errors::ConfigError;
use vstd::prelude::*;

verus! {

/// The longest pulse one symbol field can carry, in clock ticks.
pub const MAX_PULSE_TICKS: u16 = 32_767;

/// One step edge pair: a fixed-width high pulse and the low pulse that
/// completes the requested period.
#[derive(Clone, Copy, Debug, PartialEq, Eq, Structural)]
pub struct Symbol {
    pub high_ticks: u16,
    pub low_ticks: u16,
}

/// Whether a delay can be encoded against a given high pulse width.
pub open spec fn spec_encodable(delay: int, high: int) -> bool {
    high <= delay <= high + MAX_PULSE_TICKS as int
}

/// The symbol a delay encodes to: the fixed high pulse, then the
/// remainder of the period as the low pulse.
pub open spec fn spec_symbol(delay: int, high: int) -> Symbol
    recommends
        spec_encodable(delay, high),
        0 <= high <= u16::MAX as int,
{
    Symbol { high_ticks: high as u16, low_ticks: (delay - high) as u16 }
}

/// Encodes one delay. Succeeds exactly when the delay spans at least the
/// high pulse and its low pulse fits one pulse field.
pub fn encode_delay(delay: u32, high_ticks: u16) -> (r: Result<Symbol, ConfigError>)
    ensures
        r is Ok <==> spec_encodable(delay as int, high_ticks as int),
        r matches Ok(s) ==> s == spec_symbol(delay as int, high_ticks as int),
        (delay as int) < high_ticks as int ==> r == Err::<Symbol, ConfigError>(
            ConfigError::DelayBelowPulse,
        ),
        delay as int > high_ticks as int + MAX_PULSE_TICKS as int ==> r
            == Err::<Symbol, ConfigError>(ConfigError::DelayAboveCeiling),
{
    if delay < high_ticks as u32 {
        Err(ConfigError::DelayBelowPulse)
    } else if delay - high_ticks as u32 > MAX_PULSE_TICKS as u32 {
        Err(ConfigError::DelayAboveCeiling)
    } else {
        Ok(Symbol { high_ticks, low_ticks: (delay - high_ticks as u32) as u16 })
    }
}

/// Encodes a whole delay sequence, in order. Succeeds exactly when every
/// delay is encodable; otherwise reports the first delay that is not.
pub fn encode_profile(delays: &Vec<u32>, high_ticks: u16) -> (r: Result<
    Vec<Symbol>,
    ConfigError,
>)
    ensures
        r is Ok <==> (forall|i: int|
            0 <= i < delays@.len() ==> spec_encodable(delays@[i] as int, high_ticks as int)),
        r matches Ok(syms) ==> {
            &&& syms@.len() == delays@.len()
            &&& forall|i: int|
                0 <= i < delays@.len() ==> syms@[i] == spec_symbol(
                    delays@[i] as int,
                    high_ticks as int,
                )
        },
        r matches Err(e) ==> exists|i: int|
            {
                &&& 0 <= i < delays@.len()
                &&& !spec_encodable(#[trigger] delays@[i] as int, high_ticks as int)
                &&& forall|j: int| 0 <= j < i ==> spec_encodable(delays@[j] as int, high_ticks as int)
                &&& Err::<Symbol, ConfigError>(e) == encode_err(delays@[i] as int, high_ticks as int)
            },
{
    let mut syms: Vec<Symbol> = Vec::new();
    let mut idx: usize = 0;
    while idx < delays.len()
        invariant
            idx <= delays@.len(),
            syms@.len() == idx as int,
            forall|j: int| 0 <= j < idx as int ==> spec_encodable(delays@[j] as int, high_ticks as int),
            forall|j: int|
                0 <= j < idx as int ==> syms@[j] == spec_symbol(delays@[j] as int, high_ticks as int),
        decreases delays@.len() - idx as int,
    {
        match encode_delay(delays[idx], high_ticks) {
            Ok(s) => {
                syms.push(s);
            }
            Err(e) => {
                return Err(e);
            }
        }
        idx = idx + 1;
    }
    Ok(syms)
}

/// Which error an unencodable delay draws.
pub open spec fn encode_err(delay: int, high: int) -> Result<Symbol, ConfigError>
    recommends
        !spec_encodable(delay, high),
{
    if delay < high {
        Err(ConfigError::DelayBelowPulse)
    } else {
        Err(ConfigError::DelayAboveCeiling)
    }
}

} // verus!
