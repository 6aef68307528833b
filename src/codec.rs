//! Wire format of events: a variant index followed by the fields in a fixed
//! order, integers as LEB128 varints and byte strings behind their length.
use vstd::prelude::*;

use crate::error::Error;
use crate::events::{Event, EventView};

verus! {

/// The LEB128 varint that postcard writes for an unsigned integer.
pub open spec fn varint(v: u64) -> Seq<u8>
    decreases v,
{
    if v < 128 {
        seq![v as u8]
    } else {
        seq![((v % 128) + 128) as u8] + varint(v / 128)
    }
}

/// `w` stands in `b` from position `pos` on.
pub open spec fn wire_at(b: Seq<u8>, pos: int, w: Seq<u8>) -> bool {
    0 <= pos && pos + w.len() <= b.len() && b.subrange(pos, pos + w.len()) == w
}

/// What postcard writes for a string: its length as a varint, then its
/// UTF-8 bytes.
pub uninterp spec fn str_wire(s: Seq<char>) -> Seq<u8>;

/// Relies on postcard::to_allocvec: a `u64` is written as its varint, and
/// serialising into a growable vector does not fail.
#[verifier::external_body]
fn encode_varint(v: u64) -> (r: Vec<u8>)
    ensures
        r@ == varint(v),
{
    match postcard::to_allocvec(&v) {
        Ok(b) => b,
        Err(_) => Vec::new(),
    }
}

/// Relies on postcard::take_from_bytes::<u64>: a canonical varint at the
/// front of the bytes is read back, at least one byte is consumed, and
/// nothing is read from no bytes.
/// Returns the value and how many bytes are left after it.
#[verifier::external_body]
fn take_varint(b: &[u8], pos: usize) -> (r: Option<(u64, usize)>)
    requires
        pos <= b@.len(),
    ensures
        pos == b@.len() ==> r is None,
        r matches Some((_, rest)) ==> rest < b@.len() - pos,
        forall|v: u64| #[trigger]
            wire_at(b@, pos as int, varint(v)) ==> r is Some && r->Some_0.0 == v
                && r->Some_0.1 == b@.len() - pos - varint(v).len(),
{
    match postcard::take_from_bytes::<u64>(&b[pos..]) {
        Ok((v, rest)) => Some((v, rest.len())),
        Err(_) => None,
    }
}

/// Relies on postcard::to_allocvec on a `str`.
#[verifier::external_body]
fn encode_str(s: &String) -> (r: Vec<u8>)
    ensures
        r@ == str_wire(s@),
{
    match postcard::to_allocvec(s.as_str()) {
        Ok(b) => b,
        Err(_) => Vec::new(),
    }
}

/// Relies on postcard::take_from_bytes::<&str>: a string written by
/// postcard at the front of the bytes is read back, at least one byte is
/// consumed, and nothing is read from no bytes. Returns the string and how many bytes are left after it.
#[verifier::external_body]
fn take_str(b: &[u8], pos: usize) -> (r: Option<(String, usize)>)
    requires
        pos <= b@.len(),
    ensures
        pos == b@.len() ==> r is None,
        r matches Some((_, rest)) ==> rest < b@.len() - pos,
        forall|s: Seq<char>| #[trigger]
            wire_at(b@, pos as int, str_wire(s)) ==> r is Some && r->Some_0.0@ == s
                && r->Some_0.1 == b@.len() - pos - str_wire(s).len(),
{
    match postcard::take_from_bytes::<&str>(&b[pos..]) {
        Ok((s, rest)) => Some((s.to_string(), rest.len())),
        Err(_) => None,
    }
}

/// A byte string on the wire: its length, then its bytes.
pub open spec fn bytes_wire(b: Seq<u8>) -> Seq<u8> {
    varint(b.len() as u64) + b
}

/// The variant index of an event.
pub open spec fn variant_index(e: EventView) -> u64 {
    match e {
        EventView::NewTestcase { .. } => 0,
        EventView::UpdateStats { .. } => 1,
        EventView::Objective { .. } => 2,
        EventView::Log { .. } => 3,
    }
}

/// The fields of an event on the wire, in their declared order.
pub open spec fn fields_wire(e: EventView) -> Seq<u8> {
    match e {
        EventView::NewTestcase {
            input,
            client_config,
            corpus_size,
            observers_buf,
            time,
            executions,
        } => bytes_wire(input) + str_wire(client_config) + varint(corpus_size) + bytes_wire(
            observers_buf,
        ) + varint(time) + varint(executions),
        EventView::UpdateStats { time, executions } => varint(time) + varint(executions),
        EventView::Objective { objective_size } => varint(objective_size),
        EventView::Log { severity_level, message } => varint(severity_level) + str_wire(message),
    }
}

/// The encoding of an event: its variant index, then its fields.
pub open spec fn event_wire(e: EventView) -> Seq<u8> {
    varint(variant_index(e)) + fields_wire(e)
}

/// The bytes of an event that are its own content rather than framing:
/// both byte strings and both encoded strings.
pub open spec fn payload_len(e: EventView) -> nat {
    match e {
        EventView::NewTestcase { input, client_config, observers_buf, .. } => input.len()
            + str_wire(client_config).len() + observers_buf.len(),
        EventView::Log { message, .. } => str_wire(message).len(),
        _ => 0,
    }
}

/// The most bytes of framing that an event takes beyond its payload: one
/// byte of variant index and at most five varints of ten bytes.
pub const MAX_EVENT_OVERHEAD: u64 = 51;

/// A varint takes at most ten bytes.
pub proof fn lemma_varint_len(v: u64)
    ensures
        1 <= varint(v).len() <= 10,
{
    lemma_varint_len_below(v, 10);
}

proof fn lemma_varint_len_below(v: u64, k: nat)
    requires
        1 <= k,
        v as int <= u64::MAX as int,
        k >= 10 || v < pow128(k),
    ensures
        1 <= varint(v).len() <= k,
    decreases v,
{
    if v >= 128 {
        if k >= 10 {
            reveal_with_fuel(pow128, 10);
            assert(pow128(9) == 0x8000000000000000nat);
            assert(v / 128 < pow128(9));
            lemma_varint_len_below(v / 128, 9);
        } else {
            reveal_with_fuel(pow128, 2);
            assert(k >= 2);
            assert(pow128(k) == 128 * pow128((k - 1) as nat));
            assert(v / 128 < pow128((k - 1) as nat)) by (nonlinear_arith)
                requires
                    v < 128 * pow128((k - 1) as nat),
            ;
            lemma_varint_len_below(v / 128, (k - 1) as nat);
        }
    }
}

spec fn pow128(k: nat) -> nat
    decreases k,
{
    if k == 0 {
        1
    } else {
        128 * pow128((k - 1) as nat)
    }
}

pub(crate) proof fn lemma_wire_split(b: Seq<u8>, pos: int, a: Seq<u8>, c: Seq<u8>)
    requires
        wire_at(b, pos, a + c),
    ensures
        wire_at(b, pos, a),
        wire_at(b, pos + a.len(), c),
{
    let w = b.subrange(pos, pos + (a + c).len());
    assert(w == a + c);
    assert(b.subrange(pos, pos + a.len()) =~= w.subrange(0, a.len() as int));
    assert((a + c).subrange(0, a.len() as int) =~= a);
    assert(b.subrange(pos + a.len(), pos + a.len() + c.len()) =~= w.subrange(
        a.len() as int,
        w.len() as int,
    ));
    assert((a + c).subrange(a.len() as int, (a + c).len() as int) =~= c);
}

fn push_all(out: &mut Vec<u8>, b: &[u8])
    ensures
        final(out)@ == old(out)@ + b@,
{
    let mut i: usize = 0;
    while i < b.len()
        invariant
            i <= b@.len(),
            out@ == old(out)@ + b@.subrange(0, i as int),
        decreases b@.len() - i,
    {
        out.push(b[i]);
        i = i + 1;
        assert(b@.subrange(0, i as int) =~= b@.subrange(0, i - 1) + seq![b@[i - 1]]);
    }
    assert(b@.subrange(0, b@.len() as int) =~= b@);
}

pub(crate) fn push_varint(out: &mut Vec<u8>, v: u64)
    ensures
        final(out)@ == old(out)@ + varint(v),
{
    let w = encode_varint(v);
    push_all(out, w.as_slice());
}

pub(crate) fn push_bytes(out: &mut Vec<u8>, b: &Vec<u8>)
    ensures
        final(out)@ == old(out)@ + bytes_wire(b@),
{
    push_varint(out, b.len() as u64);
    push_all(out, b.as_slice());
    assert(final(out)@ =~= old(out)@ + bytes_wire(b@));
}

fn push_str(out: &mut Vec<u8>, s: &String)
    ensures
        final(out)@ == old(out)@ + str_wire(s@),
{
    let w = encode_str(s);
    push_all(out, w.as_slice());
}

/// Encodes an event into its wire bytes.
pub fn encode(e: &Event) -> (r: Vec<u8>)
    ensures
        r@ == event_wire(e@),
        r@.len() <= MAX_EVENT_OVERHEAD + payload_len(e@),
{
    let mut out: Vec<u8> = Vec::new();
    match e {
        Event::NewTestcase { input, client_config, corpus_size, observers_buf, time, executions } => {
            push_varint(&mut out, 0);
            push_bytes(&mut out, input);
            push_str(&mut out, client_config);
            push_varint(&mut out, *corpus_size);
            push_bytes(&mut out, observers_buf);
            push_varint(&mut out, *time);
            push_varint(&mut out, *executions);
        },
        Event::UpdateStats { time, executions } => {
            push_varint(&mut out, 1);
            push_varint(&mut out, *time);
            push_varint(&mut out, *executions);
        },
        Event::Objective { objective_size } => {
            push_varint(&mut out, 2);
            push_varint(&mut out, *objective_size);
        },
        Event::Log { severity_level, message } => {
            push_varint(&mut out, 3);
            push_varint(&mut out, *severity_level);
            push_str(&mut out, message);
        },
    }
    proof {
        lemma_wire_len(e@);
        assert(out@ =~= event_wire(e@));
    }
    out
}

proof fn lemma_wire_len(e: EventView)
    ensures
        event_wire(e).len() <= MAX_EVENT_OVERHEAD + payload_len(e),
{
    reveal_with_fuel(varint, 2);
    lemma_varint_len(variant_index(e));
    match e {
        EventView::NewTestcase { input, corpus_size, observers_buf, time, executions, .. } => {
            lemma_varint_len(input.len() as u64);
            lemma_varint_len(corpus_size);
            lemma_varint_len(observers_buf.len() as u64);
            lemma_varint_len(time);
            lemma_varint_len(executions);
        },
        EventView::UpdateStats { time, executions } => {
            lemma_varint_len(time);
            lemma_varint_len(executions);
        },
        EventView::Objective { objective_size } => {
            lemma_varint_len(objective_size);
        },
        EventView::Log { severity_level, .. } => {
            lemma_varint_len(severity_level);
        },
    }
}

pub(crate) fn take_u64(b: &[u8], pos: usize) -> (r: Option<(u64, usize)>)
    requires
        pos <= b@.len(),
    ensures
        pos == b@.len() ==> r is None,
        r matches Some((_, p)) ==> pos < p <= b@.len(),
        forall|v: u64| #[trigger]
            wire_at(b@, pos as int, varint(v)) ==> r is Some && r->Some_0.0 == v && r->Some_0.1
                == pos + varint(v).len(),
{
    match take_varint(b, pos) {
        Some((v, rest)) => Some((v, b.len() - rest)),
        None => None,
    }
}

fn take_string(b: &[u8], pos: usize) -> (r: Option<(String, usize)>)
    requires
        pos <= b@.len(),
    ensures
        pos == b@.len() ==> r is None,
        r matches Some((_, p)) ==> pos < p <= b@.len(),
        forall|s: Seq<char>| #[trigger]
            wire_at(b@, pos as int, str_wire(s)) ==> r is Some && r->Some_0.0@ == s
                && r->Some_0.1 == pos + str_wire(s).len(),
{
    match take_str(b, pos) {
        Some((s, rest)) => Some((s, b.len() - rest)),
        None => None,
    }
}

pub(crate) fn take_bytes(b: &[u8], pos: usize) -> (r: Option<(Vec<u8>, usize)>)
    requires
        pos <= b@.len(),
    ensures
        pos == b@.len() ==> r is None,
        forall|n: u64| #[trigger]
            wire_at(b@, pos as int, varint(n)) && pos + varint(n).len() + n > b@.len() ==> r is None,
        r matches Some((_, p)) ==> pos < p <= b@.len(),
        forall|s: Seq<u8>| #[trigger]
            wire_at(b@, pos as int, bytes_wire(s)) ==> r is Some && r->Some_0.0@ == s
                && r->Some_0.1 == pos + bytes_wire(s).len(),
{
    let (n, start) = match take_u64(b, pos) {
        Some(x) => x,
        None => {
            proof {
                assert forall|s: Seq<u8>| wire_at(b@, pos as int, #[trigger] bytes_wire(s)) implies false by {
                    lemma_wire_split(b@, pos as int, varint(s.len() as u64), s);
                }
            }
            return None;
        },
    };
    if n > (b.len() - start) as u64 {
        proof {
            assert forall|s: Seq<u8>| wire_at(b@, pos as int, #[trigger] bytes_wire(s)) implies false by {
                lemma_wire_split(b@, pos as int, varint(s.len() as u64), s);
            }
        }
        return None;
    }
    let len = n as usize;
    let end = start + len;
    let mut out: Vec<u8> = Vec::new();
    let mut i: usize = 0;
    while i < len
        invariant
            i <= len,
            end == start + len,
            end <= b.len(),
            out@ == b@.subrange(start as int, start + i),
        decreases len - i,
    {
        out.push(b[start + i]);
        i = i + 1;
        assert(out@ =~= b@.subrange(start as int, start + i));
    }
    proof {
        assert forall|s: Seq<u8>| wire_at(b@, pos as int, #[trigger] bytes_wire(s)) implies out@ == s
            && start + len == pos + bytes_wire(s).len() by {
            lemma_wire_split(b@, pos as int, varint(s.len() as u64), s);
        }
    }
    Some((out, start + len))
}

spec fn testcase_at(b: Seq<u8>, pos: int, e: EventView) -> bool {
    e is NewTestcase && wire_at(b, pos, fields_wire(e))
}

proof fn lemma_testcase_split(b: Seq<u8>, pos: int, e: EventView)
    requires
        testcase_at(b, pos, e),
    ensures
        ({
            let p1 = pos + bytes_wire(e->NewTestcase_input).len();
            let p2 = p1 + str_wire(e->NewTestcase_client_config).len();
            let p3 = p2 + varint(e->NewTestcase_corpus_size).len();
            let p4 = p3 + bytes_wire(e->NewTestcase_observers_buf).len();
            let p5 = p4 + varint(e->NewTestcase_time).len();
            &&& wire_at(b, pos, bytes_wire(e->NewTestcase_input))
            &&& wire_at(b, p1, str_wire(e->NewTestcase_client_config))
            &&& wire_at(b, p2, varint(e->NewTestcase_corpus_size))
            &&& wire_at(b, p3, bytes_wire(e->NewTestcase_observers_buf))
            &&& wire_at(b, p4, varint(e->NewTestcase_time))
            &&& wire_at(b, p5, varint(e->NewTestcase_executions))
        }),
{
    let a = bytes_wire(e->NewTestcase_input);
    let c = str_wire(e->NewTestcase_client_config);
    let d = varint(e->NewTestcase_corpus_size);
    let f = bytes_wire(e->NewTestcase_observers_buf);
    let g = varint(e->NewTestcase_time);
    let h = varint(e->NewTestcase_executions);
    assert(a + c + d + f + g + h =~= a + (c + (d + (f + (g + h)))));
    lemma_wire_split(b, pos, a, c + (d + (f + (g + h))));
    lemma_wire_split(b, pos + a.len(), c, d + (f + (g + h)));
    lemma_wire_split(b, pos + a.len() + c.len(), d, f + (g + h));
    lemma_wire_split(b, pos + a.len() + c.len() + d.len(), f, g + h);
    lemma_wire_split(b, pos + a.len() + c.len() + d.len() + f.len(), g, h);
}

fn decode_testcase(b: &[u8], pos: usize) -> (r: Option<Event>)
    requires
        pos <= b@.len(),
    ensures
        pos == b@.len() ==> r is None,
        forall|n: u64| #[trigger]
            wire_at(b@, pos as int, varint(n)) && pos + varint(n).len() + n > b@.len() ==> r is None,
        forall|e: EventView| #[trigger]
            testcase_at(b@, pos as int, e) ==> r is Some && r->Some_0@ == e,
{
    let (input, p1) = match take_bytes(b, pos) {
        Some(x) => x,
        None => {
            proof {
                assert forall|e: EventView| #[trigger] testcase_at(b@, pos as int, e) implies false by {
                    lemma_testcase_split(b@, pos as int, e);
                }
            }
            return None;
        },
    };
    let (client_config, p2) = match take_string(b, p1) {
        Some(x) => x,
        None => {
            proof {
                assert forall|e: EventView| #[trigger] testcase_at(b@, pos as int, e) implies false by {
                    lemma_testcase_split(b@, pos as int, e);
                    assert(p1 == pos + bytes_wire(e->NewTestcase_input).len());
                }
            }
            return None;
        },
    };
    let (corpus_size, p3) = match take_u64(b, p2) {
        Some(x) => x,
        None => {
            proof {
                assert forall|e: EventView| #[trigger] testcase_at(b@, pos as int, e) implies false by {
                    lemma_testcase_split(b@, pos as int, e);
                    assert(p1 == pos + bytes_wire(e->NewTestcase_input).len());
                    assert(p2 == p1 + str_wire(e->NewTestcase_client_config).len());
                }
            }
            return None;
        },
    };
    let (observers_buf, p4) = match take_bytes(b, p3) {
        Some(x) => x,
        None => {
            proof {
                assert forall|e: EventView| #[trigger] testcase_at(b@, pos as int, e) implies false by {
                    lemma_testcase_split(b@, pos as int, e);
                    assert(p1 == pos + bytes_wire(e->NewTestcase_input).len());
                    assert(p2 == p1 + str_wire(e->NewTestcase_client_config).len());
                    assert(p3 == p2 + varint(e->NewTestcase_corpus_size).len());
                }
            }
            return None;
        },
    };
    let (time, p5) = match take_u64(b, p4) {
        Some(x) => x,
        None => {
            proof {
                assert forall|e: EventView| #[trigger] testcase_at(b@, pos as int, e) implies false by {
                    lemma_testcase_split(b@, pos as int, e);
                    assert(p1 == pos + bytes_wire(e->NewTestcase_input).len());
                    assert(p2 == p1 + str_wire(e->NewTestcase_client_config).len());
                    assert(p3 == p2 + varint(e->NewTestcase_corpus_size).len());
                    assert(p4 == p3 + bytes_wire(e->NewTestcase_observers_buf).len());
                }
            }
            return None;
        },
    };
    let (executions, _p6) = match take_u64(b, p5) {
        Some(x) => x,
        None => {
            proof {
                assert forall|e: EventView| #[trigger] testcase_at(b@, pos as int, e) implies false by {
                    lemma_testcase_split(b@, pos as int, e);
                    assert(p1 == pos + bytes_wire(e->NewTestcase_input).len());
                    assert(p2 == p1 + str_wire(e->NewTestcase_client_config).len());
                    assert(p3 == p2 + varint(e->NewTestcase_corpus_size).len());
                    assert(p4 == p3 + bytes_wire(e->NewTestcase_observers_buf).len());
                    assert(p5 == p4 + varint(e->NewTestcase_time).len());
                }
            }
            return None;
        },
    };
    let ev = Event::NewTestcase { input, client_config, corpus_size, observers_buf, time, executions };
    proof {
        assert forall|e: EventView| #[trigger] testcase_at(b@, pos as int, e) implies ev@ == e by {
            lemma_testcase_split(b@, pos as int, e);
            assert(p1 == pos + bytes_wire(e->NewTestcase_input).len());
            assert(p2 == p1 + str_wire(e->NewTestcase_client_config).len());
            assert(p3 == p2 + varint(e->NewTestcase_corpus_size).len());
            assert(p4 == p3 + bytes_wire(e->NewTestcase_observers_buf).len());
            assert(p5 == p4 + varint(e->NewTestcase_time).len());
        }
    }
    Some(ev)
}

/// Decodes an event from the front of `b`; bytes after it are ignored.
pub fn decode(b: &[u8]) -> (r: Result<Event, Error>)
    ensures
        forall|e: EventView| #[trigger]
            wire_at(b@, 0, event_wire(e)) ==> r is Ok && r->Ok_0@ == e,
        forall|v: u64|
            3 < v && #[trigger] wire_at(b@, 0, varint(v)) ==> r == Err::<Event, Error>(
                Error::UnknownVariant,
            ),
        r is Err ==> r == Err::<Event, Error>(Error::MalformedFrame) || r == Err::<Event, Error>(
            Error::UnknownVariant,
        ),
        b@.len() == 0 ==> r == Err::<Event, Error>(Error::MalformedFrame),
        forall|v: u64|
            v <= 3 && #[trigger] wire_at(b@, 0, varint(v)) && b@.len() == varint(v).len() ==> r
                == Err::<Event, Error>(Error::MalformedFrame),
        forall|n: u64|
            b@.len() > 0 && b@[0] == 0 && #[trigger] wire_at(b@, 1, varint(n)) && 1 + varint(n).len()
                + n > b@.len() ==> r == Err::<Event, Error>(Error::MalformedFrame),
{
    proof {
        if b@.len() > 0 && b@[0] == 0 {
            assert(varint(0) =~= seq![0u8]);
            assert(b@.subrange(0, 1) =~= varint(0));
            assert(wire_at(b@, 0, varint(0)));
        }
    }
    let (tag, pos) = match take_u64(b, 0) {
        Some(x) => x,
        None => {
            proof {
                assert forall|e: EventView| #[trigger] wire_at(b@, 0, event_wire(e)) implies false by {
                    lemma_wire_split(b@, 0, varint(variant_index(e)), fields_wire(e));
                }
            }
            return Err(Error::MalformedFrame);
        },
    };
    proof {
        assert forall|e: EventView| #[trigger] wire_at(b@, 0, event_wire(e)) implies variant_index(e)
            == tag && wire_at(b@, pos as int, fields_wire(e)) by {
            lemma_wire_split(b@, 0, varint(variant_index(e)), fields_wire(e));
        }
    }
    if tag == 0 {
        proof {
            assert forall|e: EventView| #[trigger] wire_at(b@, 0, event_wire(e)) implies testcase_at(
                b@,
                pos as int,
                e,
            ) by {}
        }
        match decode_testcase(b, pos) {
            Some(ev) => Ok(ev),
            None => Err(Error::MalformedFrame),
        }
    } else if tag == 1 {
        let (time, p1) = match take_u64(b, pos) {
            Some(x) => x,
            None => {
                proof {
                    assert forall|e: EventView| #[trigger] wire_at(b@, 0, event_wire(e)) implies false by {
                        lemma_wire_split(b@, pos as int, varint(e->UpdateStats_time), varint(e->UpdateStats_executions));
                    }
                }
                return Err(Error::MalformedFrame);
            },
        };
        let (executions, _p2) = match take_u64(b, p1) {
            Some(x) => x,
            None => {
                proof {
                    assert forall|e: EventView| #[trigger] wire_at(b@, 0, event_wire(e)) implies false by {
                        lemma_wire_split(b@, pos as int, varint(e->UpdateStats_time), varint(e->UpdateStats_executions));
                    }
                }
                return Err(Error::MalformedFrame);
            },
        };
        let ev = Event::UpdateStats { time, executions };
        proof {
            assert forall|e: EventView| #[trigger] wire_at(b@, 0, event_wire(e)) implies ev@ == e by {
                lemma_wire_split(b@, pos as int, varint(e->UpdateStats_time), varint(e->UpdateStats_executions));
            }
        }
        Ok(ev)
    } else if tag == 2 {
        let r = match take_u64(b, pos) {
            Some((objective_size, _p1)) => Ok(Event::Objective { objective_size }),
            None => Err(Error::MalformedFrame),
        };
        proof {
            assert forall|e: EventView| #[trigger] wire_at(b@, 0, event_wire(e)) implies r is Ok
                && r->Ok_0@ == e by {
                assert(wire_at(b@, pos as int, varint(e->Objective_objective_size)));
            }
        }
        r
    } else if tag == 3 {
        let (severity_level, p1) = match take_u64(b, pos) {
            Some(x) => x,
            None => {
                proof {
                    assert forall|e: EventView| #[trigger] wire_at(b@, 0, event_wire(e)) implies false by {
                        lemma_wire_split(b@, pos as int, varint(e->Log_severity_level), str_wire(e->Log_message));
                    }
                }
                return Err(Error::MalformedFrame);
            },
        };
        let (message, _p2) = match take_string(b, p1) {
            Some(x) => x,
            None => {
                proof {
                    assert forall|e: EventView| #[trigger] wire_at(b@, 0, event_wire(e)) implies false by {
                        lemma_wire_split(b@, pos as int, varint(e->Log_severity_level), str_wire(e->Log_message));
                    }
                }
                return Err(Error::MalformedFrame);
            },
        };
        let ev = Event::Log { severity_level, message };
        proof {
            assert forall|e: EventView| #[trigger] wire_at(b@, 0, event_wire(e)) implies ev@ == e by {
                lemma_wire_split(b@, pos as int, varint(e->Log_severity_level), str_wire(e->Log_message));
            }
        }
        Ok(ev)
    } else {
        Err(Error::UnknownVariant)
    }
}

/// Decoding the bytes of an encoded event gives the event back: its
/// encoding stands at the front of the bytes that `encode` returns, and
/// those are never longer than its payload and `MAX_EVENT_OVERHEAD`.
pub proof fn lemma_round_trip(e: EventView, bytes: Seq<u8>)
    requires
        bytes == event_wire(e),
    ensures
        wire_at(bytes, 0, event_wire(e)),
        bytes.len() <= MAX_EVENT_OVERHEAD + payload_len(e),
{
    assert(bytes.subrange(0, bytes.len() as int) =~= bytes);
    lemma_wire_len(e);
}

} // verus!
