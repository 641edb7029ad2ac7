//! The shared transmission channel and its arbitration model.
//!
//! One physical pulse channel serves every pump, so at most one pump may
//! transmit at a time. Exclusive access is what arbitrates: a transmit
//! needs `&mut TxChannel`, and the runtime glue outside this crate keeps
//! the one channel behind an async lock whose guard it holds for the whole
//! blocking transmission. The channel records its history as a sequence of
//! whole waveforms, each attributed to one pump, so the model shows
//! directly that two pumps' edges are never spliced together.
//!
//! The channel also carries a health flag standing for the state of the
//! underlying transmission hardware: while unhealthy, transmissions are
//! refused with a fault and nothing is emitted.

use crate::errors::HardwareFault;
use crate::waveform::Symbol;
use vstd::prelude::*;

verus! {

/// One whole motion waveform handed to the channel: the issuing pump,
/// the direction-pin level for the move, and the pulse symbols, in order.
pub struct Transmission {
    pub pump_id: u32,
    pub forward: bool,
    pub symbols: Vec<Symbol>,
}

/// The mathematical image of a `Transmission`.
pub struct TransmissionView {
    pub pump_id: u32,
    pub forward: bool,
    pub symbols: Seq<Symbol>,
}

impl View for Transmission {
    type V = TransmissionView;

    open spec fn view(&self) -> TransmissionView {
        TransmissionView {
            pump_id: self.pump_id,
            forward: self.forward,
            symbols: self.symbols@,
        }
    }
}

/// The single shared transmission channel.
pub struct TxChannel {
    log: Vec<Transmission>,
    healthy: bool,
}

impl TxChannel {
    /// Everything ever emitted on the channel, oldest first: whole
    /// waveforms only, never fragments.
    pub closed spec fn spec_log(self) -> Seq<TransmissionView> {
        self.log@.map(|i: int, t: Transmission| t@)
    }

    /// Whether the transmission hardware is currently able to emit.
    pub closed spec fn spec_healthy(self) -> bool {
        self.healthy
    }

    /// A fresh channel: nothing emitted, hardware healthy.
    pub fn new() -> (c: TxChannel)
        ensures
            c.spec_log() == Seq::<TransmissionView>::empty(),
            c.spec_healthy(),
    {
        let c = TxChannel { log: Vec::new(), healthy: true };
        proof {
            assert(c.spec_log() =~= Seq::<TransmissionView>::empty());
        }
        c
    }

    /// Records a change in the transmission hardware's state, as the
    /// runtime glue observes it; the history is untouched.
    pub fn set_healthy(&mut self, healthy: bool)
        ensures
            final(self).spec_healthy() == healthy,
            final(self).spec_log() == old(self).spec_log(),
    {
        self.healthy = healthy;
    }

    pub fn healthy(&self) -> (h: bool)
        ensures
            h == self.spec_healthy(),
    {
        self.healthy
    }

    pub fn log_len(&self) -> (n: usize)
        ensures
            n as int == self.spec_log().len(),
    {
        self.log.len()
    }

    /// Reads one recorded waveform back.
    pub fn transmission_at(&self, i: usize) -> (t: &Transmission)
        requires
            (i as int) < self.spec_log().len(),
        ensures
            t@ == self.spec_log()[i as int],
    {
        &self.log[i]
    }

    /// Emits one whole waveform and blocks until it is out (in the
    /// device, the call returns only when the last edge has left the
    /// peripheral). On a healthy channel the waveform is appended to the
    /// history in one piece; on a faulty one nothing is emitted and a
    /// hardware fault is returned.
    pub fn transmit(&mut self, t: Transmission) -> (r: Result<(), HardwareFault>)
        ensures
            final(self).spec_healthy() == old(self).spec_healthy(),
            old(self).spec_healthy() ==> {
                &&& r is Ok
                &&& final(self).spec_log() == old(self).spec_log().push(t@)
            },
            !old(self).spec_healthy() ==> {
                &&& r is Err
                &&& final(self).spec_log() == old(self).spec_log()
            },
    {
        if self.healthy {
            let ghost pre = self.log@;
            self.log.push(t);
            proof {
                assert(self.log@ == pre.push(self.log@[pre.len() as int]));
                assert(self.spec_log() =~= old(self).spec_log().push(
                    self.log@[pre.len() as int]@,
                ));
            }
            Ok(())
        } else {
            Err(HardwareFault)
        }
    }

    /// Forgets the recorded history (the hardware state is untouched).
    /// The device never does this; tests use it to watch one operation's
    /// emissions in isolation.
    pub fn clear_log(&mut self)
        ensures
            final(self).spec_log() == Seq::<TransmissionView>::empty(),
            final(self).spec_healthy() == old(self).spec_healthy(),
    {
        self.log.clear();
        proof {
            assert(self.spec_log() =~= Seq::<TransmissionView>::empty());
        }
    }
}

/// Exclusivity of the shared channel, as the model states it: a
/// transmission enters the history as one whole record, and later
/// transmissions — from the same pump or another — only append, leaving
/// every earlier waveform intact and unspliced. With the runtime's lock
/// serialising the calls, two concurrent motions therefore land as two
/// complete, non-interleaved waveforms, in the order the lock granted.
pub proof fn lemma_transmissions_exclusive(
    log: Seq<TransmissionView>,
    a: TransmissionView,
    b: TransmissionView,
)
    ensures
        log.push(a).push(b).len() == log.len() + 2,
        forall|i: int| 0 <= i < log.len() ==> log.push(a).push(b)[i] == log[i],
        log.push(a).push(b)[log.len() as int] == a,
        log.push(a).push(b)[log.len() as int + 1] == b,
{
}

} // verus!
