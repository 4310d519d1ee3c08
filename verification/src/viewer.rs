//! What a viewer is sent of a live stream, also where it is too slow for all of it.
use crate::flv;
use crate::outside;
use crate::types::MediaPacket;
use bytes::Bytes;
use vstd::prelude::*;

verus! {

/// What reaches a viewer's end of the stream: the next bytes, or the news that some were lost.
pub enum Arrival {
    Data(Seq<u8>),
    Lost,
}

/// Whether bytes are passed on to a viewer. Empty ones never are; a viewer that waits is only
/// passed a tag from which it can go on.
pub open spec fn passes(waiting: bool, b: Seq<u8>) -> bool {
    b.len() > 0 && (waiting ==> flv::is_sync_point(b))
}

/// Whether a viewer waits after an arrival.
pub open spec fn waits_after(waiting: bool, a: Arrival) -> bool {
    match a {
        Arrival::Lost => true,
        Arrival::Data(b) => waiting && !passes(waiting, b),
    }
}

/// All that is passed on of a run of arrivals.
pub open spec fn passed(waiting: bool, arrivals: Seq<Arrival>) -> Seq<Seq<u8>>
    decreases arrivals.len(),
{
    if arrivals.len() == 0 {
        Seq::empty()
    } else {
        let rest = passed(waits_after(waiting, arrivals[0]), arrivals.skip(1));
        match arrivals[0] {
            Arrival::Data(b) if passes(waiting, b) => seq![b] + rest,
            _ => rest,
        }
    }
}

/// Whether a viewer waits after a run of arrivals.
pub open spec fn waits_at_end(waiting: bool, arrivals: Seq<Arrival>) -> bool
    decreases arrivals.len(),
{
    if arrivals.len() == 0 {
        waiting
    } else {
        waits_at_end(waits_after(waiting, arrivals[0]), arrivals.skip(1))
    }
}

/// The bytes among a run of arrivals, in their order, without the empty ones.
pub open spec fn all_nonempty(arrivals: Seq<Arrival>) -> Seq<Seq<u8>>
    decreases arrivals.len(),
{
    if arrivals.len() == 0 {
        Seq::empty()
    } else {
        match arrivals[0] {
            Arrival::Data(b) if b.len() > 0 => seq![b] + all_nonempty(arrivals.skip(1)),
            _ => all_nonempty(arrivals.skip(1)),
        }
    }
}

/// A viewer that waits is first passed a tag from which it can go on.
pub proof fn law_resume_at_sync_point(arrivals: Seq<Arrival>)
    ensures
        passed(true, arrivals).len() > 0 ==> flv::is_sync_point(passed(true, arrivals)[0]),
    decreases arrivals.len(),
{
    if arrivals.len() > 0 {
        law_resume_at_sync_point(arrivals.skip(1));
    }
}

/// What is passed on of two runs of arrivals is what is passed on of the first, then what is passed
/// on of the second to a viewer as the first left it.
pub proof fn law_passing_goes_on(waiting: bool, before: Seq<Arrival>, after: Seq<Arrival>)
    ensures
        passed(waiting, before + after) == passed(waiting, before) + passed(
            waits_at_end(waiting, before),
            after,
        ),
        waits_at_end(waiting, before + after) == waits_at_end(
            waits_at_end(waiting, before),
            after,
        ),
    decreases before.len(),
{
    let whole = before + after;
    if before.len() == 0 {
        assert(whole =~= after);
        assert(passed(waiting, before) + passed(waiting, after) =~= passed(waiting, after));
    } else {
        assert(whole[0] == before[0]);
        assert(whole.skip(1) =~= before.skip(1) + after);
        law_passing_goes_on(waits_after(waiting, before[0]), before.skip(1), after);
        assert(passed(waiting, whole) =~= passed(waiting, before) + passed(
            waits_at_end(waiting, before),
            after,
        ));
    }
}

/// What follows a loss is passed on as to a viewer that waits, whatever came before it.
pub proof fn law_loss_makes_wait(waiting: bool, before: Seq<Arrival>, after: Seq<Arrival>)
    ensures
        passed(waiting, before + seq![Arrival::Lost] + after) == passed(waiting, before) + passed(
            true,
            after,
        ),
{
    let lost = seq![Arrival::Lost];
    law_passing_goes_on(waiting, before, lost);
    law_passing_goes_on(waiting, before + lost, after);
    reveal_with_fuel(passed, 2);
    reveal_with_fuel(waits_at_end, 2);
    let w = waits_at_end(waiting, before);
    assert(lost.skip(1) =~= Seq::empty());
    assert(passed(w, lost) =~= Seq::empty());
    assert(passed(waiting, before) + passed(w, lost) =~= passed(waiting, before));
}

/// A viewer that loses nothing is passed everything but empty bytes, in the order of arrival.
pub proof fn law_nothing_lost_nothing_held_back(arrivals: Seq<Arrival>)
    requires
        forall|i: int| 0 <= i < arrivals.len() ==> !(#[trigger] arrivals[i] is Lost),
    ensures
        passed(false, arrivals) == all_nonempty(arrivals),
    decreases arrivals.len(),
{
    if arrivals.len() > 0 {
        assert(!(arrivals[0] is Lost));
        assert forall|i: int| 0 <= i < arrivals.skip(1).len() implies !(#[trigger] arrivals.skip(
            1,
        )[i] is Lost) by {
            assert(arrivals.skip(1)[i] == arrivals[i + 1]);
        }
        law_nothing_lost_nothing_held_back(arrivals.skip(1));
    }
}

/// Decides, for one viewer, what is passed on.
pub struct ViewerGate {
    pub waiting: bool,
}

impl ViewerGate {
    /// A viewer that has lost nothing yet.
    pub fn new() -> (r: Self)
        ensures
            !r.waiting,
    {
        ViewerGate { waiting: false }
    }

    /// Notes that some bytes were lost.
    pub fn lost(&mut self)
        ensures
            final(self).waiting == waits_after(old(self).waiting, Arrival::Lost),
    {
        self.waiting = true;
    }

    /// Whether the next bytes are passed on.
    pub fn offer(&mut self, data: &Bytes) -> (r: bool)
        ensures
            r == passes(old(self).waiting, outside::bytes_seq(*data)),
            final(self).waiting == waits_after(
                old(self).waiting,
                Arrival::Data(outside::bytes_seq(*data)),
            ),
    {
        if data.is_empty() {
            return false;
        }
        if self.waiting {
            if flv::sync_point(data) {
                self.waiting = false;
            } else {
                return false;
            }
        }
        true
    }

    /// The bytes of the next packet, where they are passed on.
    pub fn pass(&mut self, packet: MediaPacket) -> (r: Option<Bytes>)
        ensures
            match r {
                Some(b) => passes(old(self).waiting, packet@.bytes()) && outside::bytes_seq(b)
                    == packet@.bytes(),
                None => !passes(old(self).waiting, packet@.bytes()),
            },
            final(self).waiting == waits_after(
                old(self).waiting,
                Arrival::Data(packet@.bytes()),
            ),
    {
        let data: Bytes = packet.into_bytes();
        if self.offer(&data) {
            Some(data)
        } else {
            None
        }
    }
}

} // verus!
