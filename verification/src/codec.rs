//! Wire codec for the ordered input-event sequence.
//!
//! The layout is fixed and versionless, shared verbatim by the host that
//! prepares guest input and the guest that parses it: each event is six
//! bytes — the button discriminant, a pressed byte (0 or 1), and the frame
//! index as a 4-byte little-endian word — and a log is its events
//! concatenated in order, nothing else. Decoding is strict: a truncated
//! stream, an undefined button discriminant or a pressed byte other than
//! 0 or 1 is `MalformedLog`.

use crate::events::Button;
use crate::events::ControllerEvent;
use crate::events::ReplayError;
use crate::events::button_code;
use crate::events::spec_button_code;
use vstd::bytes::lemma_auto_spec_u32_to_from_le_bytes;
use vstd::bytes::spec_u32_from_le_bytes;
use vstd::bytes::spec_u32_to_le_bytes;
use vstd::bytes::u32_from_le_bytes;
use vstd::bytes::u32_to_le_bytes;
use vstd::prelude::*;
use vstd::slice::slice_index_get;
use vstd::slice::slice_subrange;

verus! {

/// Bytes one event occupies on the wire.
pub const EVENT_WIRE_LEN: usize = 6;

pub open spec fn spec_encode_event(ev: ControllerEvent) -> Seq<u8> {
    seq![
        spec_button_code(ev.btn),
        if ev.pressed {
            1u8
        } else {
            0u8
        },
    ] + spec_u32_to_le_bytes(ev.frame)
}

pub open spec fn spec_encode(log: Seq<ControllerEvent>) -> Seq<u8>
    decreases log.len(),
{
    if log.len() == 0 {
        Seq::empty()
    } else {
        spec_encode_event(log.first()) + spec_encode(log.drop_first())
    }
}

pub open spec fn spec_button_of_code(code: u8) -> Option<Button> {
    if code == 0 {
        Some(Button::A)
    } else if code == 1 {
        Some(Button::B)
    } else if code == 2 {
        Some(Button::Select)
    } else if code == 3 {
        Some(Button::Start)
    } else if code == 4 {
        Some(Button::Up)
    } else if code == 5 {
        Some(Button::Down)
    } else if code == 6 {
        Some(Button::Left)
    } else if code == 7 {
        Some(Button::Right)
    } else {
        None
    }
}

pub open spec fn spec_decode_event(b: Seq<u8>) -> Option<ControllerEvent>
    recommends
        b.len() == EVENT_WIRE_LEN,
{
    match spec_button_of_code(b[0]) {
        None => None,
        Some(btn) => {
            if b[1] == 0 || b[1] == 1 {
                Some(
                    ControllerEvent {
                        btn,
                        pressed: b[1] == 1,
                        frame: spec_u32_from_le_bytes(b.subrange(2, 6)),
                    },
                )
            } else {
                None
            }
        },
    }
}

pub open spec fn spec_decode(bytes: Seq<u8>) -> Option<Seq<ControllerEvent>>
    decreases bytes.len(),
{
    if bytes.len() == 0 {
        Some(Seq::empty())
    } else if bytes.len() < EVENT_WIRE_LEN {
        None
    } else {
        match spec_decode_event(bytes.take(EVENT_WIRE_LEN as int)) {
            None => None,
            Some(ev) => match spec_decode(bytes.skip(EVENT_WIRE_LEN as int)) {
                None => None,
                Some(rest) => Some(seq![ev] + rest),
            },
        }
    }
}

/// What the decoder's partial state stands for: the events already parsed,
/// glued to whatever the remaining bytes decode to.
spec fn spec_glue(prefix: Seq<ControllerEvent>, rest: Seq<u8>) -> Option<Seq<ControllerEvent>> {
    match spec_decode(rest) {
        None => None,
        Some(r) => Some(prefix + r),
    }
}

pub fn button_of_code(code: u8) -> (r: Option<Button>)
    ensures
        r == spec_button_of_code(code),
{
    match code {
        0 => Some(Button::A),
        1 => Some(Button::B),
        2 => Some(Button::Select),
        3 => Some(Button::Start),
        4 => Some(Button::Up),
        5 => Some(Button::Down),
        6 => Some(Button::Left),
        7 => Some(Button::Right),
        _ => None,
    }
}

/// Encode a log into the fixed six-bytes-per-event layout.
pub fn encode(log: &Vec<ControllerEvent>) -> (r: Vec<u8>)
    ensures
        r@ == spec_encode(log@),
{
    let mut out: Vec<u8> = Vec::new();
    let n: usize = log.len();
    proof {
        assert(log@.skip(0) == log@);
    }
    let mut i: usize = 0;
    while i < n
        invariant
            n == log@.len(),
            i <= n,
            spec_encode(log@) == out@ + spec_encode(log@.skip(i as int)),
        decreases n - i,
    {
        let ev = log[i];
        let ghost rest = log@.skip(i as int);
        let ghost out0 = out@;
        out.push(button_code(ev.btn));
        out.push(if ev.pressed {
            1
        } else {
            0
        });
        let mut fb = u32_to_le_bytes(ev.frame);
        out.append(&mut fb);
        proof {
            assert(rest.first() == ev);
            assert(rest.drop_first() =~= log@.skip(i + 1));
            assert(spec_encode(rest) == spec_encode_event(ev) + spec_encode(log@.skip(i + 1)));
            assert(out@ =~= out0 + spec_encode_event(ev));
            assert(out0 + spec_encode(rest) =~= out@ + spec_encode(log@.skip(i + 1)));
        }
        i += 1;
    }
    proof {
        assert(log@.skip(n as int) =~= Seq::<ControllerEvent>::empty());
        assert(out@ + Seq::<u8>::empty() =~= out@);
    }
    out
}

/// A byte count that is not a whole number of events never decodes.
pub proof fn lemma_ragged_length_fails(bytes: Seq<u8>)
    requires
        bytes.len() as int % (EVENT_WIRE_LEN as int) != 0,
    ensures
        spec_decode(bytes) is None,
    decreases bytes.len(),
{
    if bytes.len() < EVENT_WIRE_LEN {
    } else {
        lemma_ragged_length_fails(bytes.skip(EVENT_WIRE_LEN as int));
    }
}

/// Decode a byte stream back into a log; strict about every byte.
pub fn decode(bytes: &[u8]) -> (r: Result<Vec<ControllerEvent>, ReplayError>)
    ensures
        r is Ok <==> spec_decode(bytes@) is Some,
        r is Ok ==> Some(r->Ok_0@) == spec_decode(bytes@),
        r is Err ==> r->Err_0 == ReplayError::MalformedLog,
{
    let len: usize = bytes.len();
    if len % EVENT_WIRE_LEN != 0 {
        proof {
            lemma_ragged_length_fails(bytes@);
        }
        return Err(ReplayError::MalformedLog);
    }
    let n: usize = len / EVENT_WIRE_LEN;
    let mut evs: Vec<ControllerEvent> = Vec::new();
    proof {
        assert(bytes@.skip(0) == bytes@);
    }
    let mut i: usize = 0;
    while i < n
        invariant
            len == bytes@.len(),
            len % EVENT_WIRE_LEN == 0,
            n == len / EVENT_WIRE_LEN,
            i <= n,
            spec_glue(evs@, bytes@.skip(6 * i as int)) == spec_decode(bytes@),
        decreases n - i,
    {
        let ghost chunk = bytes@.skip(6 * i as int);
        proof {
            assert(6 * i as int + 6 <= len) by (nonlinear_arith)
                requires
                    i < n,
                    n == len / 6,
                    len % 6 == 0,
                    len >= 0,
            ;
            assert(chunk.len() >= 6);
        }
        let base: usize = 6 * i;
        let code: u8 = *slice_index_get(bytes, base);
        let pb: u8 = *slice_index_get(bytes, base + 1);
        let frame: u32 = u32_from_le_bytes(slice_subrange(bytes, base + 2, base + 6));
        proof {
            assert(chunk.take(6)[0] == bytes@[base as int]);
            assert(chunk.take(6)[1] == bytes@[base as int + 1]);
            assert(chunk.take(6).subrange(2, 6) =~= bytes@.subrange(base as int + 2, base as int + 6));
        }
        let btn = match button_of_code(code) {
            Some(b) => b,
            None => {
                proof {
                    assert(spec_decode_event(chunk.take(6)) is None);
                    assert(spec_decode(chunk) is None);
                }
                return Err(ReplayError::MalformedLog);
            },
        };
        let pressed = if pb == 1 {
            true
        } else if pb == 0 {
            false
        } else {
            proof {
                assert(spec_decode_event(chunk.take(6)) is None);
                assert(spec_decode(chunk) is None);
            }
            return Err(ReplayError::MalformedLog);
        };
        let ev = ControllerEvent { btn, pressed, frame };
        let ghost evs0 = evs@;
        evs.push(ev);
        proof {
            assert(spec_decode_event(chunk.take(6)) == Some(ev));
            assert(chunk.skip(6) =~= bytes@.skip(6 * (i + 1)));
            match spec_decode(chunk.skip(6)) {
                Some(r) => {
                    assert(spec_decode(chunk) == Some(seq![ev] + r));
                    assert(evs0 + (seq![ev] + r) =~= evs@ + r);
                },
                None => {
                    assert(spec_decode(chunk) is None);
                },
            }
        }
        i += 1;
    }
    proof {
        assert(6 * n as int == len);
        assert(bytes@.skip(len as int) =~= Seq::<u8>::empty());
        assert(evs@ + Seq::<ControllerEvent>::empty() =~= evs@);
    }
    Ok(evs)
}

/// Round-trip law: decoding an encoded log yields the log back, for any
/// log, including the empty one.
pub proof fn lemma_decode_encode(log: Seq<ControllerEvent>)
    ensures
        spec_decode(spec_encode(log)) == Some(log),
    decreases log.len(),
{
    lemma_auto_spec_u32_to_from_le_bytes();
    if log.len() == 0 {
    } else {
        let ev = log.first();
        let eb = spec_encode_event(ev);
        let rest = spec_encode(log.drop_first());
        assert(eb.len() == 6);
        assert((eb + rest).take(6) =~= eb);
        assert((eb + rest).skip(6) =~= rest);
        assert(eb[0] == spec_button_code(ev.btn));
        assert(spec_button_of_code(spec_button_code(ev.btn)) == Some(ev.btn));
        assert(eb.subrange(2, 6) =~= spec_u32_to_le_bytes(ev.frame));
        assert(spec_decode_event(eb) == Some(ev));
        lemma_decode_encode(log.drop_first());
        assert(seq![ev] + log.drop_first() =~= log);
    }
}

} // verus!
