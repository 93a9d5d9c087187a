//! Finding out which generation of firmware a device runs.
//!
//! A device keeps a signature in its memory: a 32-bit IEEE-754 number, stored
//! least significant byte first, at one of a few offsets that its backend
//! knows.  The signature is judged by its bit pattern.  For the numbers in
//! question, which are positive, a greater number has the greater bit pattern,
//! so a range of numbers is a range of bit patterns; a negative number and a
//! NaN have bit patterns beyond every range used here.

use crate::bytes::{get_le32, le32_at};
use crate::proto::{zeroed, Protocol};
use crate::{Error, PlcFailure};
use vstd::prelude::*;

verus! {

/// Bit pattern of 2015, the least signature of the family.
pub const MAGIC_MIN: u32 = 0x44FB_E000;

/// Bit pattern of 2045, the greatest signature of the family.
pub const MAGIC_MAX: u32 = 0x44FF_A000;

/// Bit pattern of 2015.01, the least signature of the generation of 2015.
pub const M2015_MIN: u32 = 0x44FB_E052;

/// Bit pattern of 2015.03, the greatest signature of the generation of 2015.
pub const M2015_MAX: u32 = 0x44FB_E0F6;

/// Bit pattern of 2021.08, the least signature of the generation of 2021.
pub const M2021_MIN: u32 = 0x44FC_A28F;

/// Bit pattern of 2021.10, the greatest signature of the generation of 2021.
pub const M2021_MAX: u32 = 0x44FC_A333;

/// The generations of firmware that are supported.
#[allow(non_camel_case_types)]
#[derive(Debug, Clone, Copy, PartialEq, Eq, Structural)]
pub enum Magic {
    M2015_02,
    M2021_09,
}

/// What one value that was read at a probe offset says.
#[derive(Debug, Clone, Copy, PartialEq, Eq, Structural)]
pub enum Verdict {
    /// No signature of the family: go on with the next offset.
    Skip,
    /// The signature of a supported generation.
    Found(Magic),
    /// A signature of the family, but of no supported generation.
    Unsupported,
}

/// What the value with the bit pattern `bits` says.
pub open spec fn classify_spec(bits: u32) -> Verdict {
    if MAGIC_MIN <= bits <= MAGIC_MAX {
        if M2015_MIN <= bits <= M2015_MAX {
            Verdict::Found(Magic::M2015_02)
        } else if M2021_MIN <= bits <= M2021_MAX {
            Verdict::Found(Magic::M2021_09)
        } else {
            Verdict::Unsupported
        }
    } else {
        Verdict::Skip
    }
}

/// What one probe decides: nothing where the read failed or the value is no
/// signature of the family, else the generation or the refusal of the value.
pub open spec fn probe_verdict(probe: Option<u32>) -> Option<Result<Magic, PlcFailure>> {
    match probe {
        None => None,
        Some(bits) => match classify_spec(bits) {
            Verdict::Skip => None,
            Verdict::Found(m) => Some(Ok(m)),
            Verdict::Unsupported => Some(Err(PlcFailure::UnsupportedMagic(bits))),
        },
    }
}

/// The outcome of a detection whose probes, in the order of the offsets, gave
/// `probes`: `None` for a read that failed, else the bit pattern that was
/// read.  What the earlier probes decided stands; only where they decided
/// nothing does the last one count.
pub open spec fn detect_spec(probes: Seq<Option<u32>>) -> Result<Magic, PlcFailure>
    decreases probes.len(),
{
    if probes.len() == 0 {
        Err(PlcFailure::NoMagic)
    } else {
        match detect_spec(probes.drop_last()) {
            Err(PlcFailure::NoMagic) => match probe_verdict(probes.last()) {
                Some(decided) => decided,
                None => Err(PlcFailure::NoMagic),
            },
            decided => decided,
        }
    }
}

/// Probes that decide nothing leave the detection without a signature.
pub proof fn lemma_detect_nothing(probes: Seq<Option<u32>>)
    requires
        forall|i: int| 0 <= i < probes.len() ==> probe_verdict(#[trigger] probes[i]) is None,
    ensures
        detect_spec(probes) == Err::<Magic, PlcFailure>(PlcFailure::NoMagic),
    decreases probes.len(),
{
    if probes.len() > 0 {
        let head = probes.drop_last();
        assert forall|i: int| 0 <= i < head.len() implies probe_verdict(#[trigger] head[i])
            is None by {
            assert(head[i] == probes[i]);
        }
        lemma_detect_nothing(head);
    }
}

/// The first probe that decides anything decides the detection, whatever the
/// probes behind it would have given: a supported signature is found, and a
/// signature of the family that is not supported ends the detection with its
/// refusal.
pub proof fn lemma_first_decision_wins(probes: Seq<Option<u32>>, k: int)
    requires
        0 <= k < probes.len(),
        probe_verdict(probes[k]) is Some,
        forall|i: int| 0 <= i < k ==> probe_verdict(#[trigger] probes[i]) is None,
    ensures
        detect_spec(probes) == probe_verdict(probes[k])->0,
    decreases probes.len(),
{
    let head = probes.drop_last();
    if k == probes.len() - 1 {
        assert forall|i: int| 0 <= i < head.len() implies probe_verdict(#[trigger] head[i])
            is None by {
            assert(head[i] == probes[i]);
        }
        lemma_detect_nothing(head);
    } else {
        assert(head[k] == probes[k]);
        assert forall|i: int| 0 <= i < k implies probe_verdict(#[trigger] head[i]) is None by {
            assert(head[i] == probes[i]);
        }
        lemma_first_decision_wins(head, k);
    }
}

/// Judges the bit pattern of a value that was read at a probe offset.
pub fn classify(bits: u32) -> (v: Verdict)
    ensures
        v == classify_spec(bits),
{
    if MAGIC_MIN <= bits && bits <= MAGIC_MAX {
        if M2015_MIN <= bits && bits <= M2015_MAX {
            Verdict::Found(Magic::M2015_02)
        } else if M2021_MIN <= bits && bits <= M2021_MAX {
            Verdict::Found(Magic::M2021_09)
        } else {
            Verdict::Unsupported
        }
    } else {
        Verdict::Skip
    }
}

/// What the read at one probe offset decides: `answered` tells whether the read
/// succeeded, `value` holds the four bytes that it filled.  `None` stands for
/// "go on with the next offset".
pub fn judge_probe(answered: bool, value: &[u8; 4]) -> (r: Option<Result<Magic, Error>>)
    ensures
        match probe_verdict(
            if answered {
                Some(le32_at(value@, 0))
            } else {
                None
            },
        ) {
            None => r is None,
            Some(Ok(m)) => r == Some(Ok::<Magic, Error>(m)),
            Some(Err(f)) => r == Some(Err::<Magic, Error>(Error::PLC(f))),
        },
{
    if !answered {
        return None;
    }
    let bits = get_le32(value.as_slice(), 0);
    match classify(bits) {
        Verdict::Skip => None,
        Verdict::Found(m) => Some(Ok(m)),
        Verdict::Unsupported => Some(Err(Error::PLC(PlcFailure::UnsupportedMagic(bits)))),
    }
}

/// Whether one probe may go as told: a read of four bytes at `offset` into a
/// buffer of zeros, on the backend `before`, leaves the backend `after` and
/// the buffer with `filled`, and tells `answer`; `probe` is what the detection
/// makes of it, the bit pattern of what a successful read filled in.
pub open spec fn probe_step<P: Protocol>(
    before: P,
    offset: usize,
    after: P,
    filled: Seq<u8>,
    answer: Result<(), Error>,
    probe: Option<u32>,
) -> bool {
    &&& filled.len() == 4
    &&& before.read_outcome(offset, zeroed(4), &after, filled, answer)
    &&& probe == if answer is Ok {
        Some(le32_at(filled, 0))
    } else {
        None
    }
}

/// Whether probing the backend `start` at the first offsets of `offsets`, one
/// after the other, may give `probes` and leave the backend `end`.
pub open spec fn probed<P: Protocol>(
    start: P,
    offsets: Seq<usize>,
    probes: Seq<Option<u32>>,
    end: P,
) -> bool
    decreases probes.len(),
{
    if probes.len() == 0 {
        end == start
    } else {
        &&& probes.len() <= offsets.len()
        &&& exists|mid: P, filled: Seq<u8>, answer: Result<(), Error>|
            probed(start, offsets, probes.drop_last(), mid) && #[trigger] probe_step(
                mid,
                offsets[probes.len() - 1],
                end,
                filled,
                answer,
                probes.last(),
            )
    }
}

/// Whether a detection over `count` offsets ends with the probes `probes`:
/// every probe but the last decided nothing, and the last one decided, or all
/// offsets were probed.
pub open spec fn stopped(probes: Seq<Option<u32>>, count: nat) -> bool {
    &&& probes.len() <= count
    &&& forall|i: int| 0 <= i < probes.len() - 1 ==> probe_verdict(#[trigger] probes[i]) is None
    &&& probes.len() == count || (probes.len() > 0 && probe_verdict(probes.last()) is Some)
}

/// Whether a detection on the backend `start` may leave the backend `end` and
/// come to `outcome`: the backend's offsets were probed in their order, four
/// bytes read at each, until a probe decided or the offsets ran out, and
/// `outcome` is what `detect_spec` makes of the probes.
pub open spec fn detected<P: Protocol>(start: P, end: P, outcome: Result<Magic, PlcFailure>) -> bool {
    exists|offsets: Seq<usize>, probes: Seq<Option<u32>>|
        {
            &&& #[trigger] probed(start, offsets, probes, end)
            &&& P::lists_offsets(offsets)
            &&& stopped(probes, offsets.len())
            &&& outcome == detect_spec(probes)
        }
}

/// Probes the offsets of the backend in their order until a value decides:
/// four bytes are read at each offset, an offset whose read fails is passed
/// over, and so is a value that is no signature of the family.  What comes
/// back is the outcome of `detect_spec` on the probes that were made, and the
/// backend is left as the last probe left it.
pub fn detect_magic<P: Protocol>(proto: &mut P) -> (r: Result<Magic, Error>)
    ensures
        match r {
            Ok(m) => detected(*old(proto), *final(proto), Ok(m)),
            Err(e) => exists|f: PlcFailure|
                e == Error::PLC(f) && #[trigger] detected(
                    *old(proto),
                    *final(proto),
                    Err::<Magic, PlcFailure>(f),
                ),
        },
{
    let offsets = P::get_offsets();
    let ghost start = *proto;
    let ghost mut probes: Seq<Option<u32>> = Seq::empty();
    let mut i: usize = 0;
    while i < offsets.len()
        invariant
            i <= offsets@.len(),
            probes.len() == i,
            start == *old(proto),
            P::lists_offsets(offsets@),
            probed(start, offsets@, probes, *proto),
            forall|k: int| 0 <= k < probes.len() ==> probe_verdict(#[trigger] probes[k]) is None,
        decreases offsets@.len() - i,
    {
        let mut value: [u8; 4] = [0u8; 4];
        assert(value@ =~= zeroed(4));
        let ghost mid = *proto;
        let ghost before = probes;
        let answer = proto.read_into(offsets[i], &mut value);
        let ghost probe = if answer.is_ok() {
            Some(le32_at(value@, 0))
        } else {
            None
        };
        proof {
            probes = before.push(probe);
            assert(probes.drop_last() =~= before);
            assert(probe_step(mid, offsets@[i as int], *proto, value@, answer, probe));
            assert(probed(start, offsets@, probes, *proto));
        }
        match judge_probe(answer.is_ok(), &value) {
            Some(decided) => {
                proof {
                    lemma_detect_nothing(before);
                    assert(stopped(probes, offsets@.len()));
                    assert(detect_spec(probes) == probe_verdict(probe)->0);
                    assert(detected(start, *proto, detect_spec(probes)));
                }
                return decided;
            },
            None => {},
        }
        i = i + 1;
    }
    proof {
        lemma_detect_nothing(probes);
        assert(stopped(probes, offsets@.len()));
        assert(detected(start, *proto, Err::<Magic, PlcFailure>(PlcFailure::NoMagic)));
    }
    Err(Error::PLC(PlcFailure::NoMagic))
}

/// A connected device of a known generation.
pub struct Io<P> {
    magic: Magic,
    proto: P,
}

impl<P: Protocol> Io<P> {
    /// The generation that was found when the device was connected.
    pub closed spec fn magic_spec(&self) -> Magic {
        self.magic
    }

    /// The backend through which the device is reached.
    pub closed spec fn proto_spec(&self) -> P {
        self.proto
    }

    /// Connects the backend and finds out the generation of its device.  A
    /// backend that does not connect is given up with the error of its
    /// `connect`.  On a backend that connects the generation is detected: a
    /// generation that is found is kept together with the backend as the
    /// detection left it, and a detection that fails is given up with its
    /// error.
    pub fn new(proto: P) -> (r: Result<Io<P>, Error>)
        ensures
            exists|connected: P, answer: Result<(), Error>|
                {
                    &&& #[trigger] proto.connect_outcome(&connected, answer)
                    &&& match answer {
                        Err(e) => r == Err::<Io<P>, Error>(e),
                        Ok(_) => match r {
                            Ok(io) => detected(connected, io.proto_spec(), Ok(io.magic_spec())),
                            Err(e) => exists|f: PlcFailure, end: P|
                                e == Error::PLC(f) && #[trigger] detected(
                                    connected,
                                    end,
                                    Err::<Magic, PlcFailure>(f),
                                ),
                        },
                    }
                },
    {
        let mut proto = proto;
        match proto.connect() {
            Ok(_) => {},
            Err(e) => {
                return Err(e);
            },
        }
        match detect_magic(&mut proto) {
            Ok(magic) => Ok(Io { magic, proto }),
            Err(e) => Err(e),
        }
    }

    /// The generation that was found when the device was connected.
    pub fn magic(&self) -> (r: Magic)
        ensures
            r == self.magic_spec(),
    {
        self.magic
    }
}

} // verus!
