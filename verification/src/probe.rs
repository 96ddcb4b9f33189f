//! The test whether a fast way to send and receive datagrams keeps them as they are.
use vstd::prelude::*;

verus! {

/// The mark for congestion on a datagram.
#[derive(Clone, Copy, Debug, PartialEq, Eq, Structural)]
pub enum Ecn {
    NotEct,
    Ect1,
    Ect0,
    Ce,
}

/// Which of the two datagrams of the test have not come back: the one with the byte 0 and the one
/// with the byte 1.
#[derive(Clone, Copy, Debug, PartialEq, Eq, Structural)]
pub struct FastPathProbe {
    pub awaits_first: bool,
    pub awaits_second: bool,
}

/// The mark that each of the datagrams is sent with.
pub open spec fn sent_mark(byte: u8) -> Ecn {
    if byte == 0 {
        Ecn::Ect0
    } else {
        Ecn::Ect1
    }
}

impl FastPathProbe {
    /// The test at its start.
    pub open spec fn fresh() -> FastPathProbe {
        FastPathProbe { awaits_first: true, awaits_second: true }
    }

    /// Whether a datagram with this byte is awaited.
    pub open spec fn awaits(self, byte: u8) -> bool {
        (byte == 0 && self.awaits_first) || (byte == 1 && self.awaits_second)
    }

    /// The test after a datagram with this byte.
    pub open spec fn without(self, byte: u8) -> FastPathProbe {
        FastPathProbe {
            awaits_first: self.awaits_first && byte != 0,
            awaits_second: self.awaits_second && byte != 1,
        }
    }

    /// What is wrong with a datagram that came back.
    pub open spec fn fault(self, data: Seq<u8>, mark: Ecn, from_sender: bool) -> Option<
        &'static str,
    > {
        if data.len() == 0 {
            Some("empty datagram")
        } else if !self.awaits(data[0]) {
            Some("unexpected datagram payload")
        } else if mark != sent_mark(data[0]) {
            Some("ECN mismatch")
        } else if !from_sender {
            Some("source address mismatch")
        } else {
            None
        }
    }

    /// Starts the test, where the fast way can send several datagrams at once.
    pub fn new(max_gso_segments: usize) -> (probe: Result<Self, &'static str>)
        ensures
            max_gso_segments > 1 ==> probe == Ok::<FastPathProbe, &'static str>(Self::fresh()),
            max_gso_segments <= 1 ==> probe == Err::<FastPathProbe, &'static str>(
                "max_gso_segments not increased",
            ),
    {
        if max_gso_segments <= 1 {
            return Err("max_gso_segments not increased");
        }
        Ok(FastPathProbe { awaits_first: true, awaits_second: true })
    }

    /// The mark that the datagram with this byte is sent with.
    pub fn mark(byte: u8) -> (mark: Ecn)
        ensures
            mark == sent_mark(byte),
    {
        if byte == 0 {
            Ecn::Ect0
        } else {
            Ecn::Ect1
        }
    }

    /// Takes in a datagram that came back.
    pub fn received(&mut self, data: &[u8], mark: Ecn, from_sender: bool) -> (done: Result<
        (),
        &'static str,
    >)
        ensures
            match old(self).fault(data@, mark, from_sender) {
                Some(fault) => done == Err::<(), &'static str>(fault) && *final(self) == (
                if data@.len() > 0 {
                    old(self).without(data@[0])
                } else {
                    *old(self)
                }),
                None => done == Ok::<(), &'static str>(()) && *final(self) == old(self).without(
                    data@[0],
                ),
            },
    {
        if data.len() == 0 {
            return Err("empty datagram");
        }
        let byte = data[0];
        if byte == 0 && self.awaits_first {
            self.awaits_first = false;
        } else if byte == 1 && self.awaits_second {
            self.awaits_second = false;
        } else {
            return Err("unexpected datagram payload");
        }
        if mark != Self::mark(byte) {
            return Err("ECN mismatch");
        }
        if !from_sender {
            return Err("source address mismatch");
        }
        Ok(())
    }

    /// Whether both datagrams have come back.
    pub fn is_done(&self) -> (done: bool)
        ensures
            done == (!self.awaits_first && !self.awaits_second),
    {
        !self.awaits_first && !self.awaits_second
    }
}

/// The test passes once both datagrams came back with their marks, in either order, and on
/// nothing else.
pub proof fn law_both_come_back(
    first: Seq<u8>,
    first_mark: Ecn,
    second: Seq<u8>,
    second_mark: Ecn,
)
    requires
        FastPathProbe::fresh().fault(first, first_mark, true) is None,
        FastPathProbe::fresh().without(first[0]).fault(second, second_mark, true) is None,
    ensures
        FastPathProbe::fresh().without(first[0]) != (FastPathProbe {
            awaits_first: false,
            awaits_second: false,
        }),
        FastPathProbe::fresh().without(first[0]).without(second[0]) == (FastPathProbe {
            awaits_first: false,
            awaits_second: false,
        }),
        (first[0] == 0 && second[0] == 1) || (first[0] == 1 && second[0] == 0),
        first_mark == sent_mark(first[0]) && second_mark == sent_mark(second[0]),
{
}

/// A datagram that comes back is found fault with exactly where it is empty, was not sent or came
/// back before, lost its mark, or came from elsewhere, and the first of these is told. The
/// datagrams with the bytes zero and one are marked with the two different marks for a transport
/// that reacts to congestion.
pub proof fn law_faults(
    probe: &mut FastPathProbe,
    data: &[u8],
    mark: Ecn,
    from_sender: bool,
    done: Result<(), &'static str>,
)
    requires
        call_ensures(FastPathProbe::received, (probe, data, mark, from_sender), done),
    ensures
        ({
            let awaited = data@.len() > 0 && (data@[0] == 0 && old(probe).awaits_first || data@[0]
                == 1 && old(probe).awaits_second);
            let kept = data@.len() > 0 && (data@[0] == 0 && mark is Ect0 || data@[0] == 1 && mark
                is Ect1);
            &&& done is Ok <==> awaited && kept && from_sender
            &&& data@.len() == 0 ==> done == Err::<(), &'static str>("empty datagram")
            &&& data@.len() > 0 && !awaited ==> done == Err::<(), &'static str>(
                "unexpected datagram payload",
            )
            &&& awaited && !kept ==> done == Err::<(), &'static str>("ECN mismatch")
            &&& awaited && kept && !from_sender ==> done == Err::<(), &'static str>(
                "source address mismatch",
            )
            &&& final(probe).awaits_first <==> old(probe).awaits_first && !(data@.len() > 0
                && data@[0] == 0)
            &&& final(probe).awaits_second <==> old(probe).awaits_second && !(data@.len() > 0
                && data@[0] == 1)
        }),
{
}

/// The test starts with both datagrams awaited, only where several can be sent at once, and is
/// done where none is awaited.
pub proof fn law_probe_starts_and_ends(
    max_gso_segments: usize,
    started: Result<FastPathProbe, &'static str>,
    probe: FastPathProbe,
    done: bool,
    byte: u8,
    mark: Ecn,
)
    requires
        call_ensures(FastPathProbe::new, (max_gso_segments,), started),
        call_ensures(FastPathProbe::is_done, (&probe,), done),
        call_ensures(FastPathProbe::mark, (byte,), mark),
    ensures
        started is Ok <==> max_gso_segments >= 2,
        started matches Ok(p) ==> p.awaits_first && p.awaits_second,
        started matches Err(e) ==> e@ == "max_gso_segments not increased"@,
        done <==> !(probe.awaits_first || probe.awaits_second),
        byte == 0 ==> mark is Ect0,
        byte == 1 ==> mark is Ect1,
{
}

}
