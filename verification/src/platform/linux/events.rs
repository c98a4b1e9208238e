//! The kernel's process connector (`CN_PROC`): the subscription message, the messages that
//! come back, and what to do after each receive.
//!
//! Kernel reference: `include/uapi/linux/cn_proc.h`

use vstd::prelude::*;
use vstd::slice::slice_subrange;

use crate::platform::linux::wire::{
    i32_at, law_u16_reads_back, law_u32_reads_back, native_order, read_i32, read_u16, read_u32,
    u16_at, u16_bytes, u32_at, u32_bytes, write_u16, write_u32, ByteOrder,
};

verus! {

/// What happened to a process.
#[derive(Clone, Copy, Debug, PartialEq, Eq, Structural)]
pub enum ProcEvent {
    /// A process called `execve` (new binary loaded).
    Exec { pid: u32, tgid: u32 },
    /// A process forked.
    Fork { parent_pid: u32, child_pid: u32 },
    /// A process exited.
    Exit { pid: u32, exit_code: u32 },
}

/// A netlink message that means something to the subscriber.
#[derive(Clone, Copy, Debug, PartialEq, Eq, Structural)]
pub enum ParsedNetlinkMessage {
    /// A process event.
    ProcEvent(ProcEvent),
    /// The kernel accepted the request.
    Ack,
    /// The kernel reported an error.
    Error(i32),
}

pub const CN_IDX_PROC: u32 = 1;

pub const CN_VAL_PROC: u32 = 1;

pub const PROC_CN_MCAST_LISTEN: u32 = 1;

pub const PROC_EVENT_FORK: u32 = 0x00000001;

pub const PROC_EVENT_EXEC: u32 = 0x00000002;

pub const PROC_EVENT_EXIT: u32 = 0x80000000;

pub const NLMSG_NOOP: u16 = 0x1;

pub const NLMSG_ERROR: u16 = 0x2;

pub const NLMSG_DONE: u16 = 0x3;

pub const NLM_F_REQUEST: u16 = 0x1;

pub const NLM_F_ACK: u16 = 0x4;

/// Size of the netlink message header: length, type, flags, sequence number, port.
pub const NLMSG_HDR_LEN: usize = 16;

/// Size of the connector message header: index, value, sequence number, acknowledgement,
/// length, flags.
pub const CN_MSG_LEN: usize = 20;

/// Size of the header of a process event: kind, processor, timestamp.
pub const PROC_EVENT_HDR_LEN: usize = 16;

/// Size of an error report: the code and the header of the message it answers.
pub const NLMSG_ERR_LEN: usize = 20;

/// Size of the subscription message.
pub const SUBSCRIBE_LEN: u32 = 40;

/// `len` rounded up to a multiple of four.
pub open spec fn aligned(len: int) -> int {
    (len + 3) / 4 * 4
}

/// `len` rounded up to a multiple of four, as netlink messages are laid out.
pub fn nlmsg_align(len: usize) -> (r: usize)
    requires
        len <= usize::MAX - 3,
    ensures
        r == aligned(len as int),
{
    (len + 3) / 4 * 4
}

/// The process event that the data behind an event header describes.
pub open spec fn event_of(order: ByteOrder, what: int, data: Seq<u8>) -> Option<ProcEvent> {
    if what == PROC_EVENT_EXEC && data.len() >= 8 {
        Some(
            ProcEvent::Exec {
                pid: u32_at(order, data, 0) as u32,
                tgid: u32_at(order, data, 4) as u32,
            },
        )
    } else if what == PROC_EVENT_FORK && data.len() >= 16 {
        Some(
            ProcEvent::Fork {
                parent_pid: u32_at(order, data, 0) as u32,
                child_pid: u32_at(order, data, 8) as u32,
            },
        )
    } else if what == PROC_EVENT_EXIT && data.len() >= 8 {
        Some(
            ProcEvent::Exit {
                pid: u32_at(order, data, 0) as u32,
                exit_code: if data.len() >= 12 {
                    u32_at(order, data, 8) as u32
                } else {
                    0
                },
            },
        )
    } else {
        None
    }
}

/// Whether `payload` is a whole message of the process connector: its length field covers an
/// event header and stays inside the payload.
pub open spec fn is_connector_message(order: ByteOrder, payload: Seq<u8>) -> bool {
    &&& payload.len() >= CN_MSG_LEN + PROC_EVENT_HDR_LEN
    &&& u32_at(order, payload, 0) == CN_IDX_PROC
    &&& u32_at(order, payload, 4) == CN_VAL_PROC
    &&& PROC_EVENT_HDR_LEN <= u16_at(order, payload, 16) <= payload.len() - CN_MSG_LEN
}

/// The process event that a connector message carries.
pub open spec fn connector_event(order: ByteOrder, payload: Seq<u8>) -> Option<ProcEvent> {
    if is_connector_message(order, payload) {
        event_of(
            order,
            u32_at(order, payload, CN_MSG_LEN as int),
            payload.subrange(
                CN_MSG_LEN + PROC_EVENT_HDR_LEN,
                CN_MSG_LEN + u16_at(order, payload, 16),
            ),
        )
    } else {
        None
    }
}

/// The process event that a connector message carries.
pub fn parse_connector_event(order: ByteOrder, payload: &[u8]) -> (r: Option<ProcEvent>)
    ensures
        r == connector_event(order, payload@),
{
    if payload.len() < CN_MSG_LEN + PROC_EVENT_HDR_LEN {
        return None;
    }
    if read_u32(order, payload, 0) != CN_IDX_PROC || read_u32(order, payload, 4) != CN_VAL_PROC {
        return None;
    }
    let cn_payload_len: usize = read_u16(order, payload, 16) as usize;
    if cn_payload_len < PROC_EVENT_HDR_LEN || cn_payload_len > payload.len() - CN_MSG_LEN {
        return None;
    }
    let what: u32 = read_u32(order, payload, CN_MSG_LEN);
    let data = slice_subrange(
        payload,
        CN_MSG_LEN + PROC_EVENT_HDR_LEN,
        CN_MSG_LEN + cn_payload_len,
    );
    if what == PROC_EVENT_EXEC {
        if data.len() < 8 {
            return None;
        }
        Some(ProcEvent::Exec { pid: read_u32(order, data, 0), tgid: read_u32(order, data, 4) })
    } else if what == PROC_EVENT_FORK {
        if data.len() < 16 {
            return None;
        }
        Some(
            ProcEvent::Fork {
                parent_pid: read_u32(order, data, 0),
                child_pid: read_u32(order, data, 8),
            },
        )
    } else if what == PROC_EVENT_EXIT {
        if data.len() < 8 {
            return None;
        }
        let exit_code: u32 = if data.len() >= 12 {
            read_u32(order, data, 8)
        } else {
            0
        };
        Some(ProcEvent::Exit { pid: read_u32(order, data, 0), exit_code })
    } else {
        None
    }
}

/// The code of an error report; `None` where the report is cut short.
pub open spec fn error_code(order: ByteOrder, payload: Seq<u8>) -> Option<i32> {
    if payload.len() >= NLMSG_ERR_LEN {
        Some(i32_at(order, payload, 0) as i32)
    } else {
        None
    }
}

/// The code of an error report.
pub fn parse_nlmsg_error(order: ByteOrder, payload: &[u8]) -> (r: Option<i32>)
    ensures
        r == error_code(order, payload@),
{
    if payload.len() < NLMSG_ERR_LEN {
        None
    } else {
        Some(read_i32(order, payload, 0))
    }
}

/// What a message of type `kind` means. Only an error report with code zero acknowledges a
/// request; a no-op and an end-of-dump mark mean nothing.
pub open spec fn meaning(order: ByteOrder, kind: int, payload: Seq<u8>) -> Option<
    ParsedNetlinkMessage,
> {
    if kind == NLMSG_NOOP || kind == NLMSG_DONE {
        None
    } else if kind == NLMSG_ERROR {
        match error_code(order, payload) {
            Some(code) => if code == 0 {
                Some(ParsedNetlinkMessage::Ack)
            } else {
                Some(ParsedNetlinkMessage::Error(code))
            },
            None => None,
        }
    } else {
        match connector_event(order, payload) {
            Some(event) => Some(ParsedNetlinkMessage::ProcEvent(event)),
            None => None,
        }
    }
}

/// What a message of type `kind` means.
fn interpret(order: ByteOrder, kind: u16, payload: &[u8]) -> (r: Option<ParsedNetlinkMessage>)
    ensures
        r == meaning(order, kind as int, payload@),
{
    if kind == NLMSG_NOOP || kind == NLMSG_DONE {
        None
    } else if kind == NLMSG_ERROR {
        match parse_nlmsg_error(order, payload) {
            Some(code) => if code == 0 {
                Some(ParsedNetlinkMessage::Ack)
            } else {
                Some(ParsedNetlinkMessage::Error(code))
            },
            None => None,
        }
    } else {
        match parse_connector_event(order, payload) {
            Some(event) => Some(ParsedNetlinkMessage::ProcEvent(event)),
            None => None,
        }
    }
}

/// Whether `buf` begins with a whole message.
pub open spec fn begins_with_message(order: ByteOrder, buf: Seq<u8>) -> bool {
    buf.len() >= NLMSG_HDR_LEN && NLMSG_HDR_LEN <= u32_at(order, buf, 0) <= buf.len()
}

/// What the message at the start of `buf` means.
pub open spec fn first_meaning(order: ByteOrder, buf: Seq<u8>) -> Seq<ParsedNetlinkMessage> {
    match meaning(
        order,
        u16_at(order, buf, 4),
        buf.subrange(NLMSG_HDR_LEN as int, u32_at(order, buf, 0)),
    ) {
        Some(message) => seq![message],
        None => seq![],
    }
}

/// What is left of `buf` behind its first message and the padding.
pub open spec fn behind_first(order: ByteOrder, buf: Seq<u8>) -> Seq<u8> {
    let next = aligned(u32_at(order, buf, 0));
    if next <= buf.len() {
        buf.skip(next)
    } else {
        seq![]
    }
}

/// The meaningful messages of `buf`, in order, up to the first that is not whole.
pub open spec fn messages_in(order: ByteOrder, buf: Seq<u8>) -> Seq<ParsedNetlinkMessage>
    decreases buf.len(),
{
    if begins_with_message(order, buf) {
        first_meaning(order, buf) + messages_in(order, behind_first(order, buf))
    } else {
        seq![]
    }
}

/// Reads the message at `offset`: what it means, and where the next one can begin.
fn next_message(order: ByteOrder, buf: &[u8], offset: usize) -> (r: Option<
    (Option<ParsedNetlinkMessage>, usize),
>)
    requires
        offset <= buf@.len(),
    ensures
        match r {
            Some((message, next)) => {
                let rest = buf@.skip(offset as int);
                &&& begins_with_message(order, rest)
                &&& first_meaning(order, rest) == (match message {
                    Some(m) => seq![m],
                    None => seq![],
                })
                &&& offset < next <= buf@.len()
                &&& messages_in(order, buf@.skip(next as int)) == messages_in(
                    order,
                    behind_first(order, rest),
                )
            },
            None => !begins_with_message(order, buf@.skip(offset as int)),
        },
{
    let ghost rest = buf@.skip(offset as int);
    if buf.len() - offset < NLMSG_HDR_LEN {
        return None;
    }
    let msg_len: usize = read_u32(order, buf, offset) as usize;
    let kind: u16 = read_u16(order, buf, offset + 4);
    assert(u32_at(order, rest, 0) == u32_at(order, buf@, offset as int));
    assert(u16_at(order, rest, 4) == u16_at(order, buf@, offset + 4));
    if msg_len < NLMSG_HDR_LEN || msg_len > buf.len() - offset {
        return None;
    }
    let payload = slice_subrange(buf, offset + NLMSG_HDR_LEN, offset + msg_len);
    assert(payload@ =~= rest.subrange(NLMSG_HDR_LEN as int, msg_len as int));
    let message = interpret(order, kind, payload);
    if buf.len() - offset - msg_len < NLMSG_HDR_LEN {
        assert(behind_first(order, rest).len() < NLMSG_HDR_LEN);
        assert(buf@.skip(buf@.len() as int).len() == 0);
        return Some((message, buf.len()));
    }
    let next: usize = offset + nlmsg_align(msg_len);
    assert(behind_first(order, rest) =~= buf@.skip(next as int));
    Some((message, next))
}

/// The meaningful messages of `buf`, read in the given byte order.
pub fn parse_messages_in(order: ByteOrder, buf: &[u8]) -> (messages: Vec<ParsedNetlinkMessage>)
    ensures
        messages@ == messages_in(order, buf@),
{
    let mut messages: Vec<ParsedNetlinkMessage> = Vec::new();
    let mut offset: usize = 0;
    assert(buf@.skip(0) == buf@);
    assert(messages@ + messages_in(order, buf@) =~= messages_in(order, buf@));
    loop
        invariant
            offset <= buf@.len(),
            messages@ + messages_in(order, buf@.skip(offset as int)) == messages_in(order, buf@),
        decreases buf@.len() - offset,
    {
        let ghost rest = buf@.skip(offset as int);
        let ghost before = messages@;
        match next_message(order, buf, offset) {
            Some((message, next)) => {
                match message {
                    Some(m) => {
                        messages.push(m);
                    },
                    None => {},
                }
                assert(messages@ =~= before + first_meaning(order, rest));
                assert(messages@ + messages_in(order, buf@.skip(next as int)) =~= before + (
                first_meaning(order, rest) + messages_in(order, behind_first(order, rest))));
                offset = next;
            },
            None => {
                assert(messages@ + Seq::<ParsedNetlinkMessage>::empty() =~= messages@);
                return messages;
            },
        }
    }
}

/// The meaningful messages of a received buffer.
pub fn parse_messages(buf: &[u8]) -> (messages: Vec<ParsedNetlinkMessage>)
    ensures
        messages@ == messages_in(native_order(), buf@),
{
    parse_messages_in(ByteOrder::native(), buf)
}

/// Whether `buf` is a sequence of whole messages, each with its padding.
pub open spec fn whole_messages(order: ByteOrder, buf: Seq<u8>) -> bool
    decreases buf.len(),
{
    buf.len() == 0 || {
        &&& begins_with_message(order, buf)
        &&& aligned(u32_at(order, buf, 0)) <= buf.len()
        &&& whole_messages(order, behind_first(order, buf))
    }
}

/// Whatever follows whole messages, they are all read, in order, and the rest is read as it
/// would be alone.
pub proof fn law_messages_concatenate(order: ByteOrder, a: Seq<u8>, b: Seq<u8>)
    requires
        whole_messages(order, a),
    ensures
        messages_in(order, a + b) == messages_in(order, a) + messages_in(order, b),
    decreases a.len(),
{
    if a.len() == 0 {
        assert(a + b =~= b);
        assert(messages_in(order, a) + messages_in(order, b) =~= messages_in(order, b));
    } else {
        let len = u32_at(order, a, 0);
        let next = aligned(len);
        assert(u32_at(order, a + b, 0) == len);
        assert(u16_at(order, a + b, 4) == u16_at(order, a, 4));
        assert((a + b).subrange(NLMSG_HDR_LEN as int, len) =~= a.subrange(
            NLMSG_HDR_LEN as int,
            len,
        ));
        assert(behind_first(order, a + b) =~= behind_first(order, a) + b);
        law_messages_concatenate(order, behind_first(order, a), b);
        assert(messages_in(order, a + b) =~= first_meaning(order, a) + (messages_in(
            order,
            behind_first(order, a),
        ) + messages_in(order, b)));
        assert(messages_in(order, a) =~= first_meaning(order, a) + messages_in(
            order,
            behind_first(order, a),
        ));
    }
}

/// A buffer whose first message is not whole yields nothing, whatever follows.
pub proof fn law_malformed_start_yields_nothing(order: ByteOrder, buf: Seq<u8>)
    requires
        !begins_with_message(order, buf),
    ensures
        messages_in(order, buf) == Seq::<ParsedNetlinkMessage>::empty(),
{
}

/// The message that asks the kernel for process events: a netlink header, a connector header
/// and the operation.
pub open spec fn subscribe_bytes(order: ByteOrder, pid: u32) -> Seq<u8> {
    u32_bytes(order, SUBSCRIBE_LEN) + u16_bytes(order, NLMSG_DONE) + u16_bytes(
        order,
        NLM_F_REQUEST | NLM_F_ACK,
    ) + u32_bytes(order, 1) + u32_bytes(order, pid) + u32_bytes(order, CN_IDX_PROC) + u32_bytes(
        order,
        CN_VAL_PROC,
    ) + u32_bytes(order, 0) + u32_bytes(order, 0) + u16_bytes(order, 4) + u16_bytes(order, 0)
        + u32_bytes(order, PROC_CN_MCAST_LISTEN)
}

/// The message that asks the kernel for process events, in the given byte order.
pub fn subscribe_message_in(order: ByteOrder, pid: u32) -> (out: Vec<u8>)
    ensures
        out@ == subscribe_bytes(order, pid),
{
    let mut out: Vec<u8> = Vec::new();
    write_u32(order, &mut out, SUBSCRIBE_LEN);
    assert(out@ =~= u32_bytes(order, SUBSCRIBE_LEN));
    write_u16(order, &mut out, NLMSG_DONE);
    write_u16(order, &mut out, NLM_F_REQUEST | NLM_F_ACK);
    write_u32(order, &mut out, 1);
    write_u32(order, &mut out, pid);
    write_u32(order, &mut out, CN_IDX_PROC);
    write_u32(order, &mut out, CN_VAL_PROC);
    write_u32(order, &mut out, 0);
    write_u32(order, &mut out, 0);
    write_u16(order, &mut out, 4);
    write_u16(order, &mut out, 0);
    write_u32(order, &mut out, PROC_CN_MCAST_LISTEN);
    out
}

/// The message that asks the kernel for process events.
pub fn subscribe_message(pid: u32) -> (out: Vec<u8>)
    ensures
        out@ == subscribe_bytes(native_order(), pid),
{
    subscribe_message_in(ByteOrder::native(), pid)
}

/// The length fields of the subscription message agree with its size, it names the process
/// connector and asks to listen, and it is no acknowledgement of itself.
pub proof fn law_subscription_is_well_formed(order: ByteOrder, pid: u32)
    ensures
        subscribe_bytes(order, pid).len() == SUBSCRIBE_LEN,
        u32_at(order, subscribe_bytes(order, pid), 0) == SUBSCRIBE_LEN,
        u32_at(order, subscribe_bytes(order, pid), 12) == pid,
        u32_at(order, subscribe_bytes(order, pid), 16) == CN_IDX_PROC,
        u32_at(order, subscribe_bytes(order, pid), 20) == CN_VAL_PROC,
        u16_at(order, subscribe_bytes(order, pid), 32) == SUBSCRIBE_LEN - NLMSG_HDR_LEN
            - CN_MSG_LEN,
        u32_at(order, subscribe_bytes(order, pid), 36) == PROC_CN_MCAST_LISTEN,
        whole_messages(order, subscribe_bytes(order, pid)),
        messages_in(order, subscribe_bytes(order, pid)) == Seq::<ParsedNetlinkMessage>::empty(),
{
    let s = subscribe_bytes(order, pid);
    assert(s.len() == 40);
    assert(s.subrange(0, 4) =~= u32_bytes(order, SUBSCRIBE_LEN));
    assert(s.subrange(4, 6) =~= u16_bytes(order, NLMSG_DONE));
    assert(s.subrange(12, 16) =~= u32_bytes(order, pid));
    assert(s.subrange(16, 20) =~= u32_bytes(order, CN_IDX_PROC));
    assert(s.subrange(20, 24) =~= u32_bytes(order, CN_VAL_PROC));
    assert(s.subrange(32, 34) =~= u16_bytes(order, 4));
    assert(s.subrange(36, 40) =~= u32_bytes(order, PROC_CN_MCAST_LISTEN));
    lemma_u32_field(order, s, 0, SUBSCRIBE_LEN);
    lemma_u16_field(order, s, 4, NLMSG_DONE);
    lemma_u32_field(order, s, 12, pid);
    lemma_u32_field(order, s, 16, CN_IDX_PROC);
    lemma_u32_field(order, s, 20, CN_VAL_PROC);
    lemma_u16_field(order, s, 32, 4);
    lemma_u32_field(order, s, 36, PROC_CN_MCAST_LISTEN);
    reveal_with_fuel(whole_messages, 2);
    reveal_with_fuel(messages_in, 2);
    assert(behind_first(order, s) =~= Seq::<u8>::empty());
    assert(first_meaning(order, s) =~= Seq::<ParsedNetlinkMessage>::empty());
}

proof fn lemma_u32_field(order: ByteOrder, s: Seq<u8>, at: int, n: u32)
    requires
        0 <= at <= s.len() - 4,
        s.subrange(at, at + 4) == u32_bytes(order, n),
    ensures
        u32_at(order, s, at) == n,
{
    law_u32_reads_back(order, s.take(at), n, s.skip(at + 4));
    assert(s =~= s.take(at) + u32_bytes(order, n) + s.skip(at + 4));
}

proof fn lemma_u16_field(order: ByteOrder, s: Seq<u8>, at: int, n: u16)
    requires
        0 <= at <= s.len() - 2,
        s.subrange(at, at + 2) == u16_bytes(order, n),
    ensures
        u16_at(order, s, at) == n,
{
    law_u16_reads_back(order, s.take(at), n, s.skip(at + 2));
    assert(s =~= s.take(at) + u16_bytes(order, n) + s.skip(at + 2));
}

/// How one receive on the netlink socket ended.
#[derive(Clone, Debug)]
pub enum RecvOutcome {
    /// A signal interrupted the call.
    Interrupted,
    /// The receive timeout passed.
    TimedOut,
    /// The kernel dropped events because the receive buffer was full.
    Overflowed,
    /// Any other error.
    Failed,
    /// The kernel closed the socket.
    Closed,
    /// These bytes arrived.
    Data(Vec<u8>),
}

/// What to do after a receive while waiting for the answer to the subscription.
#[derive(Clone, Copy, Debug, PartialEq, Eq, Structural)]
pub enum AckStep {
    /// Receive again.
    Again,
    /// The kernel accepted the subscription.
    Accepted,
    /// The kernel refused it with this code.
    Rejected(i32),
    /// No answer came in time.
    TimedOut,
    /// The receive failed.
    Failed,
    /// The socket was closed.
    Closed,
}

/// The first acknowledgement or error decides; events that come before it do not.
pub open spec fn ack_verdict(messages: Seq<ParsedNetlinkMessage>) -> AckStep
    decreases messages.len(),
{
    if messages.len() == 0 {
        AckStep::Again
    } else {
        match messages[0] {
            ParsedNetlinkMessage::Ack => AckStep::Accepted,
            ParsedNetlinkMessage::Error(code) => AckStep::Rejected(code),
            ParsedNetlinkMessage::ProcEvent(_) => ack_verdict(messages.drop_first()),
        }
    }
}

/// The step after one receive while waiting for the answer to the subscription.
pub open spec fn ack_step_of(order: ByteOrder, outcome: RecvOutcome) -> AckStep {
    match outcome {
        RecvOutcome::Interrupted => AckStep::Again,
        RecvOutcome::TimedOut => AckStep::TimedOut,
        RecvOutcome::Overflowed => AckStep::Failed,
        RecvOutcome::Failed => AckStep::Failed,
        RecvOutcome::Closed => AckStep::Closed,
        RecvOutcome::Data(bytes) => ack_verdict(messages_in(order, bytes@)),
    }
}

/// The first acknowledgement or error among `messages` decides.
fn judge_ack(messages: &Vec<ParsedNetlinkMessage>) -> (r: AckStep)
    ensures
        r == ack_verdict(messages@),
{
    let mut i: usize = 0;
    assert(messages@.skip(0) == messages@);
    while i < messages.len()
        invariant
            i <= messages@.len(),
            ack_verdict(messages@) == ack_verdict(messages@.skip(i as int)),
        decreases messages@.len() - i,
    {
        assert(messages@.skip(i as int).drop_first() == messages@.skip(i + 1));
        match messages[i] {
            ParsedNetlinkMessage::Ack => {
                return AckStep::Accepted;
            },
            ParsedNetlinkMessage::Error(code) => {
                return AckStep::Rejected(code);
            },
            ParsedNetlinkMessage::ProcEvent(_) => {},
        }
        i += 1;
    }
    AckStep::Again
}

/// The step after one receive while waiting for the answer to the subscription.
pub fn recv_subscribe_ack(outcome: &RecvOutcome) -> (r: AckStep)
    ensures
        r == ack_step_of(native_order(), *outcome),
{
    match outcome {
        RecvOutcome::Interrupted => AckStep::Again,
        RecvOutcome::TimedOut => AckStep::TimedOut,
        RecvOutcome::Overflowed => AckStep::Failed,
        RecvOutcome::Failed => AckStep::Failed,
        RecvOutcome::Closed => AckStep::Closed,
        RecvOutcome::Data(bytes) => judge_ack(&parse_messages(bytes.as_slice())),
    }
}

/// What to do after a receive while streaming events.
#[derive(Clone, Debug)]
pub enum StreamStep {
    /// Receive again.
    Again,
    /// Events were lost; receive again.
    AgainAfterLoss,
    /// The receive failed; receive again.
    AgainAfterFailure,
    /// Handle these messages in order, then receive again.
    Deliver(Vec<ParsedNetlinkMessage>),
    /// Nobody takes events any more; end the stream.
    End,
}

/// Whether `step` is the step after one receive while streaming events. The stream runs until the
/// channel that takes the events is closed: nothing else ends it.
pub open spec fn is_stream_step(
    order: ByteOrder,
    outcome: RecvOutcome,
    channel_closed: bool,
    step: StreamStep,
) -> bool {
    if channel_closed {
        step is End
    } else {
        match outcome {
            RecvOutcome::Interrupted => step is Again,
            RecvOutcome::TimedOut => step is AgainAfterFailure,
            RecvOutcome::Overflowed => step is AgainAfterLoss,
            RecvOutcome::Failed => step is AgainAfterFailure,
            RecvOutcome::Closed => step is AgainAfterFailure,
            RecvOutcome::Data(bytes) => step matches StreamStep::Deliver(messages) && messages@
                == messages_in(order, bytes@),
        }
    }
}

/// The step after one receive while streaming events.
pub fn stream_step(outcome: &RecvOutcome, channel_closed: bool) -> (r: StreamStep)
    ensures
        is_stream_step(native_order(), *outcome, channel_closed, r),
{
    if channel_closed {
        return StreamStep::End;
    }
    match outcome {
        RecvOutcome::Interrupted => StreamStep::Again,
        RecvOutcome::TimedOut => StreamStep::AgainAfterFailure,
        RecvOutcome::Overflowed => StreamStep::AgainAfterLoss,
        RecvOutcome::Failed => StreamStep::AgainAfterFailure,
        RecvOutcome::Closed => StreamStep::AgainAfterFailure,
        RecvOutcome::Data(bytes) => StreamStep::Deliver(parse_messages(bytes.as_slice())),
    }
}

/// The stream ends exactly where the channel that takes the events is closed.
pub proof fn law_stream_ends_with_the_channel(
    order: ByteOrder,
    outcome: RecvOutcome,
    channel_closed: bool,
    step: StreamStep,
)
    requires
        is_stream_step(order, outcome, channel_closed, step),
    ensures
        step is End <==> channel_closed,
{
}

} // verus!
