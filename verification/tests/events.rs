use arbiter::platform::linux::events::{
    parse_messages, ParsedNetlinkMessage, ProcEvent, CN_IDX_PROC, CN_MSG_LEN, CN_VAL_PROC,
    NLMSG_DONE, NLMSG_ERROR, NLMSG_ERR_LEN, NLMSG_HDR_LEN, PROC_EVENT_EXEC, PROC_EVENT_EXIT,
    PROC_EVENT_HDR_LEN,
};

fn nl_hdr(nlmsg_type: u16, payload_len: usize) -> Vec<u8> {
    let mut out = Vec::new();
    out.extend_from_slice(&((NLMSG_HDR_LEN + payload_len) as u32).to_ne_bytes());
    out.extend_from_slice(&nlmsg_type.to_ne_bytes());
    out.extend_from_slice(&0u16.to_ne_bytes());
    out.extend_from_slice(&1u32.to_ne_bytes());
    out.extend_from_slice(&0u32.to_ne_bytes());
    assert_eq!(out.len(), NLMSG_HDR_LEN);
    out
}

fn cn_msg_bytes(event_len: usize) -> Vec<u8> {
    let mut out = Vec::new();
    out.extend_from_slice(&CN_IDX_PROC.to_ne_bytes());
    out.extend_from_slice(&CN_VAL_PROC.to_ne_bytes());
    out.extend_from_slice(&0u32.to_ne_bytes());
    out.extend_from_slice(&0u32.to_ne_bytes());
    out.extend_from_slice(&(event_len as u16).to_ne_bytes());
    out.extend_from_slice(&0u16.to_ne_bytes());
    assert_eq!(out.len(), CN_MSG_LEN);
    out
}

fn event_hdr_bytes(what: u32) -> Vec<u8> {
    let mut out = Vec::new();
    out.extend_from_slice(&what.to_ne_bytes());
    out.extend_from_slice(&1u32.to_ne_bytes());
    out.extend_from_slice(&99u64.to_ne_bytes());
    assert_eq!(out.len(), PROC_EVENT_HDR_LEN);
    out
}

fn build_exec_message(pid: u32, tgid: u32) -> Vec<u8> {
    let mut payload = cn_msg_bytes(PROC_EVENT_HDR_LEN + 8);
    payload.extend_from_slice(&event_hdr_bytes(PROC_EVENT_EXEC));
    payload.extend_from_slice(&pid.to_ne_bytes());
    payload.extend_from_slice(&tgid.to_ne_bytes());

    let mut message = nl_hdr(0x10, payload.len());
    message.extend_from_slice(&payload);
    message
}

fn build_ack_message(error: i32) -> Vec<u8> {
    let mut payload = error.to_ne_bytes().to_vec();
    payload.extend_from_slice(&nl_hdr(NLMSG_DONE, 0));
    assert_eq!(payload.len(), NLMSG_ERR_LEN);

    let mut message = nl_hdr(NLMSG_ERROR, payload.len());
    message.extend_from_slice(&payload);
    message
}

fn build_exit_message(pid: u32, exit_code: u32) -> Vec<u8> {
    let mut payload = cn_msg_bytes(PROC_EVENT_HDR_LEN + 12);
    payload.extend_from_slice(&event_hdr_bytes(PROC_EVENT_EXIT));
    payload.extend_from_slice(&pid.to_ne_bytes());
    payload.extend_from_slice(&pid.to_ne_bytes());
    payload.extend_from_slice(&exit_code.to_ne_bytes());

    let mut message = nl_hdr(0x10, payload.len());
    message.extend_from_slice(&payload);
    message
}

#[test]
fn parses_exec_event_message() {
    let parsed = parse_messages(&build_exec_message(123, 123));
    assert_eq!(parsed.len(), 1);
    match &parsed[0] {
        ParsedNetlinkMessage::ProcEvent(ProcEvent::Exec { pid, tgid }) => {
            assert_eq!((*pid, *tgid), (123, 123));
        }
        _ => panic!("expected exec event"),
    }
}

#[test]
fn parses_ack_message() {
    let parsed = parse_messages(&build_ack_message(0));
    assert_eq!(parsed.len(), 1);
    assert!(matches!(parsed[0], ParsedNetlinkMessage::Ack));
}

#[test]
fn parses_error_message() {
    let parsed = parse_messages(&build_ack_message(-libc::EPERM));
    assert_eq!(parsed.len(), 1);
    assert!(matches!(parsed[0], ParsedNetlinkMessage::Error(errno) if errno == -libc::EPERM));
}

#[test]
fn ignores_truncated_connector_payload() {
    let mut payload = cn_msg_bytes(PROC_EVENT_HDR_LEN + 8);
    payload.extend_from_slice(&event_hdr_bytes(PROC_EVENT_EXEC));
    payload.extend_from_slice(&123u32.to_ne_bytes());

    let mut message = nl_hdr(0x10, payload.len());
    message.extend_from_slice(&payload);

    assert!(parse_messages(&message).is_empty());
}

#[test]
fn parses_multiple_netlink_messages_from_single_buffer() {
    let mut buffer = build_exec_message(123, 123);
    buffer.extend_from_slice(&build_exit_message(123, 42));

    let parsed = parse_messages(&buffer);
    assert_eq!(parsed.len(), 2);
    assert!(matches!(
        parsed[0],
        ParsedNetlinkMessage::ProcEvent(ProcEvent::Exec { pid: 123, tgid: 123 })
    ));
    assert!(matches!(
        parsed[1],
        ParsedNetlinkMessage::ProcEvent(ProcEvent::Exit { pid: 123, exit_code: 42 })
    ));
}
