use arbiter::platform::linux::capabilities::{
    has_effective_capability, CapabilityError, CAP_NET_ADMIN,
};
use arbiter::platform::linux::events::{
    nlmsg_align, parse_messages, recv_subscribe_ack, stream_step, subscribe_message, AckStep,
    RecvOutcome, StreamStep, CN_IDX_PROC, CN_VAL_PROC, PROC_CN_MCAST_LISTEN, SUBSCRIBE_LEN,
};
use arbiter::platform::linux::scheduler::{detect, ScxScheduler, Strategy};
use arbiter::platform::linux::wire::{read_i32, read_u16, read_u32, write_u16, write_u32, ByteOrder};

fn text(s: &str) -> Option<String> {
    Some(s.to_string())
}

#[test]
fn capability_bits_are_read() {
    let status = "Name:\tarbiter\nCapPrm:\t0\nCapEff:\t0000000000001000\nCapEff:\t0\n";
    assert_eq!(has_effective_capability(status, CAP_NET_ADMIN), Ok(true));
    assert_eq!(has_effective_capability(status, 11), Ok(false));
    assert_eq!(has_effective_capability(status, 13), Ok(false));
    assert_eq!(has_effective_capability("CapEff: ffffffffffffffff", 63), Ok(true));
    assert_eq!(has_effective_capability("CapEff:1", 0), Ok(true));
}

#[test]
fn capability_errors_are_told_apart() {
    assert_eq!(has_effective_capability("", 0), Err(CapabilityError::Missing));
    assert_eq!(has_effective_capability(" CapEff:\t1", 0), Err(CapabilityError::Missing));
    assert_eq!(has_effective_capability("CapEff:\t", 0), Err(CapabilityError::Invalid));
    assert_eq!(has_effective_capability("CapEff:\txyz", 0), Err(CapabilityError::Invalid));
    assert_eq!(
        has_effective_capability("CapEff:\t10000000000000000", 0),
        Err(CapabilityError::Invalid)
    );
}

#[test]
fn native_order_is_the_machines() {
    let native = ByteOrder::native();
    assert_eq!(read_u16(native, &0x1234u16.to_ne_bytes(), 0), 0x1234);
    assert_eq!(read_u32(native, &0xdead_beefu32.to_ne_bytes(), 0), 0xdead_beef);
    assert_eq!(read_i32(native, &(-5i32).to_ne_bytes(), 0), -5);
}

#[test]
fn numbers_read_back_in_either_order() {
    for order in [ByteOrder::Little, ByteOrder::Big] {
        let mut out = Vec::new();
        write_u16(order, &mut out, 0xabcd);
        write_u32(order, &mut out, 0x0102_0304);
        assert_eq!(out.len(), 6);
        assert_eq!(read_u16(order, &out, 0), 0xabcd);
        assert_eq!(read_u32(order, &out, 2), 0x0102_0304);
    }
    let mut out = Vec::new();
    write_u16(ByteOrder::Big, &mut out, 0x0102);
    assert_eq!(out, vec![1, 2]);
}

#[test]
fn subscription_is_well_formed() {
    let message = subscribe_message(321);
    let order = ByteOrder::native();
    assert_eq!(message.len(), SUBSCRIBE_LEN as usize);
    assert_eq!(read_u32(order, &message, 0), SUBSCRIBE_LEN);
    assert_eq!(read_u32(order, &message, 12), 321);
    assert_eq!(read_u32(order, &message, 16), CN_IDX_PROC);
    assert_eq!(read_u32(order, &message, 20), CN_VAL_PROC);
    assert_eq!(read_u16(order, &message, 32), 4);
    assert_eq!(read_u32(order, &message, 36), PROC_CN_MCAST_LISTEN);
    assert!(parse_messages(&message).is_empty());
}

#[test]
fn malformed_start_yields_nothing() {
    assert!(parse_messages(&[]).is_empty());
    assert!(parse_messages(&[1, 2, 3]).is_empty());
    let mut oversized = subscribe_message(1);
    oversized[0..4].copy_from_slice(&1000u32.to_ne_bytes());
    assert!(parse_messages(&oversized).is_empty());
    let mut tiny = subscribe_message(1);
    tiny[0..4].copy_from_slice(&4u32.to_ne_bytes());
    assert!(parse_messages(&tiny).is_empty());
}

#[test]
fn lengths_are_aligned_to_four() {
    assert_eq!(nlmsg_align(0), 0);
    assert_eq!(nlmsg_align(1), 4);
    assert_eq!(nlmsg_align(16), 16);
    assert_eq!(nlmsg_align(17), 20);
}

fn error_message(code: i32) -> Vec<u8> {
    let mut out = Vec::new();
    out.extend_from_slice(&36u32.to_ne_bytes());
    out.extend_from_slice(&2u16.to_ne_bytes());
    out.extend_from_slice(&0u16.to_ne_bytes());
    out.extend_from_slice(&[0; 8]);
    out.extend_from_slice(&code.to_ne_bytes());
    out.extend_from_slice(&[0; 16]);
    out
}

#[test]
fn answer_to_the_subscription_decides() {
    assert_eq!(recv_subscribe_ack(&RecvOutcome::Interrupted), AckStep::Again);
    assert_eq!(recv_subscribe_ack(&RecvOutcome::TimedOut), AckStep::TimedOut);
    assert_eq!(recv_subscribe_ack(&RecvOutcome::Overflowed), AckStep::Failed);
    assert_eq!(recv_subscribe_ack(&RecvOutcome::Failed), AckStep::Failed);
    assert_eq!(recv_subscribe_ack(&RecvOutcome::Closed), AckStep::Closed);
    assert_eq!(recv_subscribe_ack(&RecvOutcome::Data(vec![])), AckStep::Again);
    assert_eq!(recv_subscribe_ack(&RecvOutcome::Data(error_message(0))), AckStep::Accepted);
    assert_eq!(recv_subscribe_ack(&RecvOutcome::Data(error_message(-1))), AckStep::Rejected(-1));
    let mut both = error_message(-13);
    both.extend_from_slice(&error_message(0));
    assert_eq!(recv_subscribe_ack(&RecvOutcome::Data(both)), AckStep::Rejected(-13));
}

#[test]
fn stream_runs_until_the_channel_is_closed() {
    let step = |outcome: RecvOutcome| stream_step(&outcome, false);
    assert!(matches!(step(RecvOutcome::Interrupted), StreamStep::Again));
    assert!(matches!(step(RecvOutcome::Overflowed), StreamStep::AgainAfterLoss));
    assert!(matches!(step(RecvOutcome::TimedOut), StreamStep::AgainAfterFailure));
    assert!(matches!(step(RecvOutcome::Failed), StreamStep::AgainAfterFailure));
    assert!(matches!(step(RecvOutcome::Closed), StreamStep::AgainAfterFailure));
    assert!(matches!(
        step(RecvOutcome::Data(error_message(0))),
        StreamStep::Deliver(messages) if messages.len() == 1
    ));
    assert!(matches!(stream_step(&RecvOutcome::Interrupted, true), StreamStep::End));
    assert!(matches!(
        stream_step(&RecvOutcome::Data(error_message(0)), true),
        StreamStep::End
    ));
}

#[test]
fn schedulers_are_detected_by_name() {
    assert_eq!(detect(&None, &text("lavd")), ScxScheduler::NoScheduler);
    assert_eq!(detect(&text("disabled\n"), &text("lavd")), ScxScheduler::NoScheduler);
    assert_eq!(detect(&text("enabled\n"), &None).display(), ScxScheduler::Unknown("unknown".into()).display());
    assert_eq!(detect(&text("enabled\n"), &text("lavd_1.0\n")), ScxScheduler::Lavd);
    assert_eq!(detect(&text("enabled"), &text("scx_layered")), ScxScheduler::Layered);
    assert_eq!(detect(&text("enabled"), &text("rusty")), ScxScheduler::Rusty);
    assert_eq!(detect(&text("enabled"), &text("SCX_Rusty")), ScxScheduler::Rusty);
    assert_eq!(detect(&text("enabled"), &text("bpfland")), ScxScheduler::Bpfland);
    assert_eq!(
        detect(&text("enabled"), &text("scx_simple")),
        ScxScheduler::Unknown("scx_simple".into())
    );
}

#[test]
fn strategies_follow_the_scheduler() {
    assert_eq!(ScxScheduler::Bpfland.strategy(), Strategy::NiceAndWeight);
    assert_eq!(ScxScheduler::Layered.strategy(), Strategy::LayeredJson);
    assert_eq!(ScxScheduler::NoScheduler.strategy(), Strategy::BasicHints);
    assert_eq!(Strategy::BasicHints.name(), "BasicHints");
}
