//! Kernel messages: what the bytes of the connector and of netlink stand for.

use vstd::endian::{endianness, Endian};
use vstd::prelude::*;

use crate::platform::linux::events::{
    ack_step_of, ack_verdict, aligned, behind_first, connector_event, first_meaning,
    is_stream_step, messages_in, subscribe_bytes, AckStep, ParsedNetlinkMessage, ProcEvent,
    RecvOutcome, StreamStep,
};
use crate::platform::linux::wire::{
    i32_at, law_u16_reads_back, law_u32_reads_back, native_order, u16_at, u16_bytes, u32_at, u32_bytes,
    ByteOrder,
};

verus! {

/// In the little order the first byte weighs least, in the big order most, and each byte weighs
/// 256 times as much as the one below it.
pub proof fn law_bytes_weigh_by_their_place(a: u8, b: u8, c: u8, d: u8)
    ensures
        u16_at(ByteOrder::Little, seq![a, b], 0) == a + 256 * b,
        u16_at(ByteOrder::Big, seq![b, a], 0) == a + 256 * b,
        u32_at(ByteOrder::Little, seq![a, b, c, d], 0) == a + 256 * (b + 256 * (c + 256 * d)),
        u32_at(ByteOrder::Big, seq![d, c, b, a], 0) == a + 256 * (b + 256 * (c + 256 * d)),
{
}

/// The order of the machine is the order in which it keeps its own numbers.
pub proof fn law_native_order_is_the_machines()
    ensures
        native_order() == ByteOrder::Little <==> endianness() == Endian::Little,
        native_order() == ByteOrder::Big <==> endianness() == Endian::Big,
{
}

/// What is read depends on the bytes at that place alone, wherever in a text they stand.
pub proof fn law_reading_is_local(order: ByteOrder, s: Seq<u8>, at: int, from: int, to: int)
    requires
        0 <= from <= at,
        to <= s.len(),
    ensures
        at + 2 <= to ==> u16_at(order, s, at) == u16_at(order, s.subrange(from, to), at - from),
        at + 4 <= to ==> u32_at(order, s, at) == u32_at(order, s.subrange(from, to), at - from),
        at + 4 <= to ==> i32_at(order, s, at) == i32_at(order, s.subrange(from, to), at - from),
{
}

/// A signed number differs from the unsigned one of the same bytes by a multiple of 2 to the 32nd
/// power, and lies within its bounds.
pub proof fn law_signed_numbers_wrap(order: ByteOrder, s: Seq<u8>, at: int)
    ensures
        i32_at(order, s, at) == u32_at(order, s, at) || i32_at(order, s, at) == u32_at(
            order,
            s,
            at,
        ) - 0x1_0000_0000,
        -0x8000_0000 <= i32_at(order, s, at) < 0x8000_0000,
{
}

/// Whether a payload holds a message of the process connector with this many bytes of event data
/// behind the event's header. The identifiers stand at the bytes 0 and 4, the length of what
/// follows the connector's twenty bytes at 16, and sixteen of those are the event's header.
pub open spec fn carries_event(order: ByteOrder, payload: Seq<u8>, data_len: int) -> bool {
    &&& payload.len() >= 36
    &&& u32_at(order, payload, 0) == 1
    &&& u32_at(order, payload, 4) == 1
    &&& u16_at(order, payload, 16) == 16 + data_len
    &&& 0 <= data_len
    &&& 36 + data_len <= payload.len()
}

/// An execution is read from every connector message of that kind with at least eight bytes of
/// event data, whatever follows them: the process stands in the first four, its group in the next
/// four. With fewer there is no event.
pub proof fn law_exec_is_read(order: ByteOrder, payload: Seq<u8>, data_len: int)
    requires
        carries_event(order, payload, data_len),
        u32_at(order, payload, 20) == 2,
    ensures
        data_len >= 8 ==> connector_event(order, payload) == Some(
            ProcEvent::Exec {
                pid: u32_at(order, payload, 36) as u32,
                tgid: u32_at(order, payload, 40) as u32,
            },
        ),
        data_len < 8 ==> connector_event(order, payload) is None,
{
}

/// A fork is read from every connector message of that kind with at least sixteen bytes of event
/// data, whatever follows them: the parent stands in the first four, the child in the third four.
/// With fewer there is no event.
pub proof fn law_fork_is_read(order: ByteOrder, payload: Seq<u8>, data_len: int)
    requires
        carries_event(order, payload, data_len),
        u32_at(order, payload, 20) == 1,
    ensures
        data_len >= 16 ==> connector_event(order, payload) == Some(
            ProcEvent::Fork {
                parent_pid: u32_at(order, payload, 36) as u32,
                child_pid: u32_at(order, payload, 44) as u32,
            },
        ),
        data_len < 16 ==> connector_event(order, payload) is None,
{
}

/// An exit is read from every connector message of that kind with at least eight bytes of event
/// data: the process stands in the first four, the exit code in the third four where there are
/// as many, and is zero where there are not.
pub proof fn law_exit_is_read(order: ByteOrder, payload: Seq<u8>, data_len: int)
    requires
        carries_event(order, payload, data_len),
        u32_at(order, payload, 20) == 0x8000_0000,
    ensures
        data_len >= 12 ==> connector_event(order, payload) == Some(
            ProcEvent::Exit {
                pid: u32_at(order, payload, 36) as u32,
                exit_code: u32_at(order, payload, 44) as u32,
            },
        ),
        8 <= data_len < 12 ==> connector_event(order, payload) == Some(
            ProcEvent::Exit { pid: u32_at(order, payload, 36) as u32, exit_code: 0 },
        ),
        data_len < 8 ==> connector_event(order, payload) is None,
{
}

/// Nothing but a connector message of one of the three kinds is an event.
pub proof fn law_nothing_else_is_an_event(order: ByteOrder, payload: Seq<u8>)
    ensures
        (forall|data_len: int| !#[trigger] carries_event(order, payload, data_len))
            ==> connector_event(order, payload) is None,
        u32_at(order, payload, 20) != 1 && u32_at(order, payload, 20) != 2 && u32_at(
            order,
            payload,
            20,
        ) != 0x8000_0000 ==> connector_event(order, payload) is None,
{
    if connector_event(order, payload) is Some {
        assert(carries_event(order, payload, u16_at(order, payload, 16) - 16));
    }
}

/// What stands behind the data that an event is read from makes no difference to it.
pub proof fn law_trailing_bytes_make_no_difference(
    order: ByteOrder,
    payload: Seq<u8>,
    data_len: int,
    tail: Seq<u8>,
)
    requires
        carries_event(order, payload, data_len),
    ensures
        connector_event(order, payload + tail) == connector_event(order, payload),
{
    let longer = payload + tail;
    assert(u32_at(order, longer, 0) == u32_at(order, payload, 0));
    assert(u32_at(order, longer, 4) == u32_at(order, payload, 4));
    assert(u16_at(order, longer, 16) == u16_at(order, payload, 16));
    assert(u32_at(order, longer, 20) == u32_at(order, payload, 20));
    assert(longer.subrange(36, 36 + data_len) =~= payload.subrange(36, 36 + data_len));
}

/// An execution that was written is read back: the two identifiers, any counters and flags, a
/// length that fits, the kind, any time stamp, the process and its group, and anything more.
pub proof fn law_written_exec_reads_back(
    order: ByteOrder,
    counters: Seq<u8>,
    flags: Seq<u8>,
    stamp: Seq<u8>,
    pid: u32,
    tgid: u32,
    more: Seq<u8>,
)
    requires
        counters.len() == 8,
        flags.len() == 2,
        stamp.len() == 12,
        24 + more.len() <= 0xffff,
    ensures
        connector_event(
            order,
            u32_bytes(order, 1) + u32_bytes(order, 1) + counters + u16_bytes(
                order,
                (24 + more.len()) as u16,
            ) + flags + u32_bytes(order, 2) + stamp + u32_bytes(order, pid) + u32_bytes(order, tgid)
                + more,
        ) == Some(ProcEvent::Exec { pid, tgid }),
{
    let len = (24 + more.len()) as u16;
    let s = u32_bytes(order, 1) + u32_bytes(order, 1) + counters + u16_bytes(order, len) + flags
        + u32_bytes(order, 2) + stamp + u32_bytes(order, pid) + u32_bytes(order, tgid) + more;
    assert(s.subrange(0, 4) =~= u32_bytes(order, 1));
    assert(s.subrange(4, 8) =~= u32_bytes(order, 1));
    assert(s.subrange(16, 18) =~= u16_bytes(order, len));
    assert(s.subrange(20, 24) =~= u32_bytes(order, 2));
    assert(s.subrange(36, 40) =~= u32_bytes(order, pid));
    assert(s.subrange(40, 44) =~= u32_bytes(order, tgid));
    lemma_reads_u32(order, s, 0, 1);
    lemma_reads_u32(order, s, 4, 1);
    lemma_reads_u16(order, s, 16, len);
    lemma_reads_u32(order, s, 20, 2);
    lemma_reads_u32(order, s, 36, pid);
    lemma_reads_u32(order, s, 40, tgid);
    law_exec_is_read(order, s, 8 + more.len() as int);
}

proof fn lemma_reads_u32(order: ByteOrder, s: Seq<u8>, at: int, n: u32)
    requires
        0 <= at <= s.len() - 4,
        s.subrange(at, at + 4) == u32_bytes(order, n),
    ensures
        u32_at(order, s, at) == n,
{
    law_u32_reads_back(order, s.take(at), n, s.skip(at + 4));
    assert(s =~= s.take(at) + u32_bytes(order, n) + s.skip(at + 4));
}

proof fn lemma_reads_u16(order: ByteOrder, s: Seq<u8>, at: int, n: u16)
    requires
        0 <= at <= s.len() - 2,
        s.subrange(at, at + 2) == u16_bytes(order, n),
    ensures
        u16_at(order, s, at) == n,
{
    law_u16_reads_back(order, s.take(at), n, s.skip(at + 2));
    assert(s =~= s.take(at) + u16_bytes(order, n) + s.skip(at + 2));
}

/// The next message begins at the first multiple of four behind a message, and not before.
pub proof fn law_alignment_rounds_up_to_four(len: int)
    ensures
        aligned(len) % 4 == 0,
        len <= aligned(len) < len + 4,
{
}

/// A buffer that begins with a whole message holds what that message means, then what the buffer
/// holds from the next multiple of four on; one that does not holds nothing.
pub proof fn law_messages_follow_each_other(order: ByteOrder, buf: Seq<u8>, next: int)
    requires
        next % 4 == 0,
        u32_at(order, buf, 0) <= next < u32_at(order, buf, 0) + 4,
    ensures
        ({
            let len = u32_at(order, buf, 0);
            let first = first_meaning(order, buf);
            &&& buf.len() < 16 ==> messages_in(order, buf).len() == 0
            &&& buf.len() >= 16 && (len < 16 || len > buf.len()) ==> messages_in(order, buf).len()
                == 0
            &&& buf.len() >= 16 && 16 <= len <= buf.len() && next <= buf.len() ==> messages_in(
                order,
                buf,
            ) == first + messages_in(order, buf.skip(next))
            &&& buf.len() >= 16 && 16 <= len <= buf.len() && next > buf.len() ==> messages_in(
                order,
                buf,
            ) == first
        }),
{
    let len = u32_at(order, buf, 0);
    if buf.len() >= 16 && 16 <= len <= buf.len() {
        assert(aligned(len) == next);
        if next > buf.len() {
            assert(behind_first(order, buf).len() == 0);
            assert(messages_in(order, behind_first(order, buf)) =~= Seq::<
                ParsedNetlinkMessage,
            >::empty());
            assert(messages_in(order, buf) =~= first_meaning(order, buf));
        }
    }
}

/// What a whole message means, by the type that stands at its fourth byte: a no-op and an end of
/// dump nothing; a report the acknowledgement where its code is zero and the error with that code
/// where it is not, if it is whole; anything else the event that its payload carries, if it
/// carries one.
pub proof fn law_message_types_tell_the_meaning(order: ByteOrder, buf: Seq<u8>)
    requires
        16 <= u32_at(order, buf, 0) <= buf.len(),
    ensures
        ({
            let len = u32_at(order, buf, 0);
            let kind = u16_at(order, buf, 4);
            let first = first_meaning(order, buf);
            let code = i32_at(order, buf, 16);
            &&& kind == 1 || kind == 3 ==> first.len() == 0
            &&& kind == 2 && len >= 36 && code == 0 ==> first == seq![ParsedNetlinkMessage::Ack]
            &&& kind == 2 && len >= 36 && code != 0 ==> first == seq![
                ParsedNetlinkMessage::Error(code as i32),
            ]
            &&& kind == 2 && len < 36 ==> first.len() == 0
            &&& kind != 1 && kind != 2 && kind != 3 ==> match connector_event(
                order,
                buf.subrange(16, len),
            ) {
                Some(event) => first == seq![ParsedNetlinkMessage::ProcEvent(event)],
                None => first.len() == 0,
            }
        }),
{
    law_reading_is_local(order, buf, 16, 16, u32_at(order, buf, 0));
}

/// Events that arrive before the answer to the subscription do not decide about it; the first
/// other message does, and what follows it is not looked at.
pub proof fn law_first_answer_decides(
    events: Seq<ProcEvent>,
    code: i32,
    rest: Seq<ParsedNetlinkMessage>,
)
    ensures
        ({
            let before = Seq::new(events.len(), |i: int| ParsedNetlinkMessage::ProcEvent(events[i]));
            &&& ack_verdict(before) == AckStep::Again
            &&& ack_verdict(before + seq![ParsedNetlinkMessage::Ack] + rest) == AckStep::Accepted
            &&& ack_verdict(before + seq![ParsedNetlinkMessage::Error(code)] + rest)
                == AckStep::Rejected(code)
        }),
    decreases events.len(),
{
    let before = Seq::new(events.len(), |i: int| ParsedNetlinkMessage::ProcEvent(events[i]));
    let ack = before + seq![ParsedNetlinkMessage::Ack] + rest;
    let error = before + seq![ParsedNetlinkMessage::Error(code)] + rest;
    if events.len() > 0 {
        law_first_answer_decides(events.drop_first(), code, rest);
        let shorter = Seq::new(
            events.drop_first().len(),
            |i: int| ParsedNetlinkMessage::ProcEvent(events.drop_first()[i]),
        );
        assert(before.drop_first() =~= shorter);
        assert(ack.drop_first() =~= shorter + seq![ParsedNetlinkMessage::Ack] + rest);
        assert(error.drop_first() =~= shorter + seq![ParsedNetlinkMessage::Error(code)] + rest);
        assert(ack[0] == before[0] && error[0] == before[0]);
    } else {
        assert(ack[0] == ParsedNetlinkMessage::Ack);
        assert(error[0] == ParsedNetlinkMessage::Error(code));
    }
}

/// While the answer is awaited only an interruption and undecided data go on; every other end of
/// a receive ends the wait under its own name.
pub proof fn law_waiting_goes_on_for_interruptions_only(order: ByteOrder, outcome: RecvOutcome)
    ensures
        outcome is Interrupted ==> ack_step_of(order, outcome) == AckStep::Again,
        outcome is TimedOut ==> ack_step_of(order, outcome) == AckStep::TimedOut,
        outcome is Closed ==> ack_step_of(order, outcome) == AckStep::Closed,
        outcome is Overflowed || outcome is Failed ==> ack_step_of(order, outcome)
            == AckStep::Failed,
        outcome matches RecvOutcome::Data(bytes) ==> ack_step_of(order, outcome) == ack_verdict(
            messages_in(order, bytes@),
        ),
{
}

/// While the channel is open, data are delivered as they were read, a loss is told apart from a
/// failure, and an interruption from both.
pub proof fn law_open_stream_goes_on(order: ByteOrder, outcome: RecvOutcome, step: StreamStep)
    requires
        is_stream_step(order, outcome, false, step),
    ensures
        step is Deliver <==> outcome is Data,
        step is Again <==> outcome is Interrupted,
        step is AgainAfterLoss <==> outcome is Overflowed,
        step is AgainAfterFailure <==> outcome is TimedOut || outcome is Failed || outcome
            is Closed,
        outcome is Data ==> step->Deliver_0@ == messages_in(order, outcome->Data_0@),
{
}

/// The subscription is one message of forty bytes: its length, type and flags, the sequence number
/// and the sender, the identifiers of the process connector, its counters, the length of the
/// operation, and the operation itself.
pub proof fn law_subscription_fields(order: ByteOrder, pid: u32)
    ensures
        ({
            let s = subscribe_bytes(order, pid);
            &&& s.len() == 40
            &&& u32_at(order, s, 0) == 40
            &&& u16_at(order, s, 4) == 3
            &&& u16_at(order, s, 6) == 5
            &&& u32_at(order, s, 8) == 1
            &&& u32_at(order, s, 12) == pid
            &&& u32_at(order, s, 16) == 1
            &&& u32_at(order, s, 20) == 1
            &&& u32_at(order, s, 24) == 0
            &&& u32_at(order, s, 28) == 0
            &&& u16_at(order, s, 32) == 4
            &&& u16_at(order, s, 34) == 0
            &&& u32_at(order, s, 36) == 1
        }),
{
    let s = subscribe_bytes(order, pid);
    assert(1u16 | 4u16 == 5u16) by (bit_vector);
    assert(s.subrange(0, 4) =~= u32_bytes(order, 40));
    assert(s.subrange(4, 6) =~= u16_bytes(order, 3));
    assert(s.subrange(6, 8) =~= u16_bytes(order, 5));
    assert(s.subrange(8, 12) =~= u32_bytes(order, 1));
    assert(s.subrange(12, 16) =~= u32_bytes(order, pid));
    assert(s.subrange(16, 20) =~= u32_bytes(order, 1));
    assert(s.subrange(20, 24) =~= u32_bytes(order, 1));
    assert(s.subrange(24, 28) =~= u32_bytes(order, 0));
    assert(s.subrange(28, 32) =~= u32_bytes(order, 0));
    assert(s.subrange(32, 34) =~= u16_bytes(order, 4));
    assert(s.subrange(34, 36) =~= u16_bytes(order, 0));
    assert(s.subrange(36, 40) =~= u32_bytes(order, 1));
    lemma_reads_u32(order, s, 0, 40);
    lemma_reads_u16(order, s, 4, 3);
    lemma_reads_u16(order, s, 6, 5);
    lemma_reads_u32(order, s, 8, 1);
    lemma_reads_u32(order, s, 12, pid);
    lemma_reads_u32(order, s, 16, 1);
    lemma_reads_u32(order, s, 20, 1);
    lemma_reads_u32(order, s, 24, 0);
    lemma_reads_u32(order, s, 28, 0);
    lemma_reads_u16(order, s, 32, 4);
    lemma_reads_u16(order, s, 34, 0);
    lemma_reads_u32(order, s, 36, 1);
}

} // verus!
