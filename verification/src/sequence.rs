//! Typing whole texts: a parsed sequence of key chunks, one per text
//! byte, and the timed press/release effects that type it.

use vstd::prelude::*;
use vstd::string::StringSliceAdditionalSpecFns;

use crate::interp::Effect;
use crate::keyboard::Keyboard;

verus! {

/// The key a text byte types, if the library can type it: letters in
/// either case, digits, and the space.
pub open spec fn key_for_byte(b: u8) -> Option<Keyboard> {
    if b == 97 || b == 65 {
        Some(Keyboard::A)
    } else if b == 98 || b == 66 {
        Some(Keyboard::B)
    } else if b == 99 || b == 67 {
        Some(Keyboard::C)
    } else if b == 100 || b == 68 {
        Some(Keyboard::D)
    } else if b == 101 || b == 69 {
        Some(Keyboard::E)
    } else if b == 102 || b == 70 {
        Some(Keyboard::F)
    } else if b == 103 || b == 71 {
        Some(Keyboard::G)
    } else if b == 104 || b == 72 {
        Some(Keyboard::H)
    } else if b == 105 || b == 73 {
        Some(Keyboard::I)
    } else if b == 106 || b == 74 {
        Some(Keyboard::J)
    } else if b == 107 || b == 75 {
        Some(Keyboard::K)
    } else if b == 108 || b == 76 {
        Some(Keyboard::L)
    } else if b == 109 || b == 77 {
        Some(Keyboard::M)
    } else if b == 110 || b == 78 {
        Some(Keyboard::N)
    } else if b == 111 || b == 79 {
        Some(Keyboard::O)
    } else if b == 112 || b == 80 {
        Some(Keyboard::P)
    } else if b == 113 || b == 81 {
        Some(Keyboard::Q)
    } else if b == 114 || b == 82 {
        Some(Keyboard::R)
    } else if b == 115 || b == 83 {
        Some(Keyboard::S)
    } else if b == 116 || b == 84 {
        Some(Keyboard::T)
    } else if b == 117 || b == 85 {
        Some(Keyboard::U)
    } else if b == 118 || b == 86 {
        Some(Keyboard::V)
    } else if b == 119 || b == 87 {
        Some(Keyboard::W)
    } else if b == 120 || b == 88 {
        Some(Keyboard::X)
    } else if b == 121 || b == 89 {
        Some(Keyboard::Y)
    } else if b == 122 || b == 90 {
        Some(Keyboard::Z)
    } else if b == 48 {
        Some(Keyboard::Number0)
    } else if b == 49 {
        Some(Keyboard::Number1)
    } else if b == 50 {
        Some(Keyboard::Number2)
    } else if b == 51 {
        Some(Keyboard::Number3)
    } else if b == 52 {
        Some(Keyboard::Number4)
    } else if b == 53 {
        Some(Keyboard::Number5)
    } else if b == 54 {
        Some(Keyboard::Number6)
    } else if b == 55 {
        Some(Keyboard::Number7)
    } else if b == 56 {
        Some(Keyboard::Number8)
    } else if b == 57 {
        Some(Keyboard::Number9)
    } else if b == 32 {
        Some(Keyboard::Space)
    } else {
        None
    }
}

/// Whether typing the byte needs the shift key held: upper-case
/// letters do.
pub open spec fn byte_needs_shift(b: u8) -> bool {
    65 <= b <= 90
}

/// Runtime table of `key_for_byte`.
fn lookup_key_for_byte(b: u8) -> (r: Option<Keyboard>)
    ensures
        r == key_for_byte(b),
{
    if b == 97 || b == 65 {
        Some(Keyboard::A)
    } else if b == 98 || b == 66 {
        Some(Keyboard::B)
    } else if b == 99 || b == 67 {
        Some(Keyboard::C)
    } else if b == 100 || b == 68 {
        Some(Keyboard::D)
    } else if b == 101 || b == 69 {
        Some(Keyboard::E)
    } else if b == 102 || b == 70 {
        Some(Keyboard::F)
    } else if b == 103 || b == 71 {
        Some(Keyboard::G)
    } else if b == 104 || b == 72 {
        Some(Keyboard::H)
    } else if b == 105 || b == 73 {
        Some(Keyboard::I)
    } else if b == 106 || b == 74 {
        Some(Keyboard::J)
    } else if b == 107 || b == 75 {
        Some(Keyboard::K)
    } else if b == 108 || b == 76 {
        Some(Keyboard::L)
    } else if b == 109 || b == 77 {
        Some(Keyboard::M)
    } else if b == 110 || b == 78 {
        Some(Keyboard::N)
    } else if b == 111 || b == 79 {
        Some(Keyboard::O)
    } else if b == 112 || b == 80 {
        Some(Keyboard::P)
    } else if b == 113 || b == 81 {
        Some(Keyboard::Q)
    } else if b == 114 || b == 82 {
        Some(Keyboard::R)
    } else if b == 115 || b == 83 {
        Some(Keyboard::S)
    } else if b == 116 || b == 84 {
        Some(Keyboard::T)
    } else if b == 117 || b == 85 {
        Some(Keyboard::U)
    } else if b == 118 || b == 86 {
        Some(Keyboard::V)
    } else if b == 119 || b == 87 {
        Some(Keyboard::W)
    } else if b == 120 || b == 88 {
        Some(Keyboard::X)
    } else if b == 121 || b == 89 {
        Some(Keyboard::Y)
    } else if b == 122 || b == 90 {
        Some(Keyboard::Z)
    } else if b == 48 {
        Some(Keyboard::Number0)
    } else if b == 49 {
        Some(Keyboard::Number1)
    } else if b == 50 {
        Some(Keyboard::Number2)
    } else if b == 51 {
        Some(Keyboard::Number3)
    } else if b == 52 {
        Some(Keyboard::Number4)
    } else if b == 53 {
        Some(Keyboard::Number5)
    } else if b == 54 {
        Some(Keyboard::Number6)
    } else if b == 55 {
        Some(Keyboard::Number7)
    } else if b == 56 {
        Some(Keyboard::Number8)
    } else if b == 57 {
        Some(Keyboard::Number9)
    } else if b == 32 {
        Some(Keyboard::Space)
    } else {
        None
    }
}

/// The keys typing one text byte holds down together: the key itself,
/// under the left shift where the byte needs it.
pub open spec fn chunk_for_byte(b: u8) -> Option<Seq<Keyboard>> {
    match key_for_byte(b) {
        Some(k) => if byte_needs_shift(b) {
            Some(seq![Keyboard::LeftShift, k])
        } else {
            Some(seq![k])
        },
        None => None,
    }
}

/// The chunks typing a whole text, or nothing if any byte cannot be
/// typed.
pub open spec fn chunks_for(bs: Seq<u8>) -> Option<Seq<Seq<Keyboard>>>
    decreases bs.len(),
{
    if bs.len() == 0 {
        Some(Seq::<Seq<Keyboard>>::empty())
    } else {
        match (chunks_for(bs.drop_last()), chunk_for_byte(bs.last())) {
            (Some(prev), Some(chunk)) => Some(prev.push(chunk)),
            _ => None,
        }
    }
}

/// A text that fails on some byte fails as a whole.
pub proof fn lemma_chunks_for_none(bs: Seq<u8>, j: int)
    requires
        0 <= j < bs.len(),
        chunk_for_byte(bs[j]) is None,
    ensures
        chunks_for(bs) is None,
    decreases bs.len(),
{
    if bs.len() > 0 {
        if j == bs.len() - 1 {
            assert(bs.last() == bs[j]);
        } else {
            assert(bs.drop_last()[j] == bs[j]);
            lemma_chunks_for_none(bs.drop_last(), j);
        }
    }
}

/// The timed effects typing one chunk: press every key in order, hold
/// for a beat, release them in the same order, and rest for a beat.
pub open spec fn chunk_effects(chunk: Seq<Keyboard>) -> Seq<Effect> {
    chunk.map_values(|k: Keyboard| Effect::KeyPress(k)) + seq![Effect::Sleep(15)]
        + chunk.map_values(|k: Keyboard| Effect::KeyRelease(k)) + seq![Effect::Sleep(15)]
}

/// The timed effects typing a whole sequence of chunks, in order.
pub open spec fn send_effects(chunks: Seq<Seq<Keyboard>>) -> Seq<Effect>
    decreases chunks.len(),
{
    if chunks.len() == 0 {
        Seq::<Effect>::empty()
    } else {
        send_effects(chunks.drop_last()) + chunk_effects(chunks.last())
    }
}

/// A sequence of key chunks to type, one chunk per byte of the text it
/// was parsed from.
#[derive(Debug, Clone, PartialEq, Eq)]
pub struct Sequence {
    sequence: Vec<Vec<Keyboard>>,
}

impl View for Sequence {
    type V = Seq<Seq<Keyboard>>;

    closed spec fn view(&self) -> Seq<Seq<Keyboard>> {
        Seq::new(self.sequence@.len(), |i: int| self.sequence@[i]@)
    }
}

impl Sequence {
    /// Parse a text into the key chunks typing it.  Succeeds only when
    /// every byte of the text can be typed; an upper-case letter becomes
    /// its key under the left shift.
    #[verifier::loop_isolation(false)]
    pub fn text(text: &str) -> (r: Option<Sequence>)
        ensures
            r is Some <==> chunks_for(text.spec_bytes()) is Some,
            r matches Some(s) ==> Some(s@) == chunks_for(text.spec_bytes()),
    {
        let bytes = text.as_bytes();
        let ghost bs = text.spec_bytes();
        let mut sequence: Vec<Vec<Keyboard>> = Vec::new();
        let mut i: usize = 0;
        while i < bytes.len()
            invariant
                0 <= i <= bs.len(),
                bytes@ == bs,
                Some(
                    Seq::new(sequence@.len(), |m: int| sequence@[m]@),
                ) == chunks_for(bs.subrange(0, i as int)),
            decreases bs.len() - i,
        {
            proof {
                assert(bs.subrange(0, i + 1).drop_last() =~= bs.subrange(0, i as int));
                assert(bs.subrange(0, i + 1).last() == bs[i as int]);
            }
            let b = bytes[i];
            let key = match lookup_key_for_byte(b) {
                Some(key) => key,
                None => {
                    proof {
                        lemma_chunks_for_none(bs, i as int);
                    }
                    return None;
                },
            };
            let mut chunk: Vec<Keyboard> = Vec::new();
            if 65 <= b && b <= 90 {
                chunk.push(Keyboard::LeftShift);
            }
            chunk.push(key);
            proof {
                assert(chunk@ =~= chunk_for_byte(bs[i as int]).unwrap());
            }
            sequence.push(chunk);
            proof {
                assert(Seq::new(sequence@.len(), |m: int| sequence@[m]@) =~= chunks_for(
                    bs.subrange(0, i + 1),
                ).unwrap());
            }
            i = i + 1;
        }
        proof {
            assert(bs.subrange(0, bs.len() as int) =~= bs);
        }
        Some(Sequence { sequence })
    }

    /// The timed effects typing this sequence: for each chunk, press its
    /// keys in order, pause, release them, and pause again before the
    /// next chunk.  The embedding performs them on a worker of its own.
    #[verifier::loop_isolation(false)]
    pub fn send(&self) -> (effects: Vec<Effect>)
        ensures
            effects@ == send_effects(self@),
    {
        let mut effects: Vec<Effect> = Vec::new();
        let mut i: usize = 0;
        while i < self.sequence.len()
            invariant
                0 <= i <= self@.len(),
                effects@ == send_effects(self@.subrange(0, i as int)),
            decreases self@.len() - i,
        {
            proof {
                assert(self@.subrange(0, i + 1).drop_last() =~= self@.subrange(0, i as int));
                assert(self@.subrange(0, i + 1).last() == self@[i as int]);
            }
            let ghost base = effects@;
            let chunk = &self.sequence[i];
            let mut j: usize = 0;
            while j < chunk.len()
                invariant
                    0 <= j <= chunk@.len(),
                    effects@.len() == base.len() + j,
                    forall|m: int| 0 <= m < base.len() ==> effects@[m] == base[m],
                    forall|m: int| base.len() <= m < effects@.len() ==> effects@[m]
                        == Effect::KeyPress(chunk@[m - base.len()]),
                decreases chunk@.len() - j,
            {
                effects.push(Effect::KeyPress(chunk[j]));
                j = j + 1;
            }
            effects.push(Effect::Sleep(15));
            let ghost mid = effects@;
            let mut j: usize = 0;
            while j < chunk.len()
                invariant
                    0 <= j <= chunk@.len(),
                    effects@.len() == mid.len() + j,
                    forall|m: int| 0 <= m < mid.len() ==> effects@[m] == mid[m],
                    forall|m: int| mid.len() <= m < effects@.len() ==> effects@[m]
                        == Effect::KeyRelease(chunk@[m - mid.len()]),
                decreases chunk@.len() - j,
            {
                effects.push(Effect::KeyRelease(chunk[j]));
                j = j + 1;
            }
            effects.push(Effect::Sleep(15));
            proof {
                assert(self@[i as int] == chunk@);
                let presses = chunk@.map_values(|k: Keyboard| Effect::KeyPress(k));
                let releases = chunk@.map_values(|k: Keyboard| Effect::KeyRelease(k));
                assert(mid =~= base + presses + seq![Effect::Sleep(15)]);
                assert(effects@ =~= mid + releases + seq![Effect::Sleep(15)]);
                assert(base + chunk_effects(chunk@) =~= (base + presses + seq![Effect::Sleep(15)])
                    + releases + seq![Effect::Sleep(15)]);
                assert(effects@ =~= base + chunk_effects(chunk@));
                assert(effects@ =~= send_effects(self@.subrange(0, i + 1)));
            }
            i = i + 1;
        }
        proof {
            assert(self@.subrange(0, self@.len() as int) =~= self@);
        }
        effects
    }
}

} // verus!
