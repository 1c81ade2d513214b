use fragmented::error::FragError;
use fragmented::frame::{Frame, OpCode};
use fragmented::message::{Action, Message};
use fragmented::session::Fragmented;
use fragmented::utf8::{is_valid_utf8, is_valid_utf8_prefix};
use uuid::Uuid;

fn frame(fin: bool, opcode: OpCode, data: &[u8]) -> Frame {
    Frame::new(fin, opcode, Some(data.to_vec()), data.len() as u64)
}

fn start(opcode: OpCode, data: &[u8]) -> Message {
    Message::FragmentStart(Some(frame(false, opcode, data)))
}

fn cont(data: &[u8]) -> Message {
    Message::Fragment(Some(frame(false, OpCode::Continue, data)))
}

fn last(data: &[u8]) -> Message {
    Message::FragmentComplete(Some(frame(true, OpCode::Continue, data)))
}

fn assert_idle(s: &Fragmented) {
    assert!(!s.started());
    assert!(!s.complete());
    assert_eq!(s.opcode(), OpCode::Close);
    assert_eq!(s.total_length(), 0);
    assert!(s.buffer().is_empty());
    assert!(!s.is_ready());
}

/// Feeds a message that is expected to be accumulated.
fn feed(s: &mut Fragmented, m: Message) {
    assert_eq!(s.handle(Some(m)), Ok(Action::Flush));
}

/// Delivers the completed message without extensions.
fn emit(s: &mut Fragmented) -> Result<Message, FragError> {
    let f = s.assembled().expect("a completed message");
    s.deliver(f)
}

#[test]
fn new_session_is_idle() {
    let id = Uuid::from_u128(42);
    let s = Fragmented::new(id);
    assert_idle(&s);
    assert_eq!(s.uuid(), id);
    assert_eq!(s.assembled(), None);
}

#[test]
fn hello_world_is_assembled() {
    let mut s = Fragmented::new(Uuid::nil());
    feed(&mut s, start(OpCode::Text, b"He"));
    feed(&mut s, cont(b"llo"));
    assert!(!s.is_ready());
    feed(&mut s, last(b" world"));
    assert!(s.is_ready());
    let f = s.assembled().unwrap();
    assert!(f.fin);
    assert_eq!(f.opcode, OpCode::Text);
    assert_eq!(f.application_data, Some(b"Hello world".to_vec()));
    assert_eq!(f.payload_length, 11);
    let m = s.deliver(f.clone()).unwrap();
    assert_eq!(m, Message::Other(Some(f)));
    assert_idle(&s);
}

#[test]
fn unfinished_sequence_then_start_fails() {
    let mut s = Fragmented::new(Uuid::nil());
    feed(&mut s, start(OpCode::Binary, &[0, 1, 2]));
    feed(&mut s, cont(&[3, 4]));
    assert_eq!(s.assembled(), None);
    let r = s.handle(Some(start(OpCode::Binary, &[9])));
    assert_eq!(r, Err(FragError::InvalidFragmentStart));
    assert_eq!(s.buffer(), &[0, 1, 2, 3, 4]);
    assert_eq!(s.assembled(), None);
}

#[test]
fn final_continuation_while_idle_fails() {
    let mut s = Fragmented::new(Uuid::nil());
    let r = s.handle(Some(last(b"x")));
    assert_eq!(r, Err(FragError::InvalidFragmentComplete));
    assert_eq!(r.unwrap_err().description(), "invalid fragment complete frame received");
    assert_idle(&s);
}

#[test]
fn continuation_while_idle_fails() {
    let mut s = Fragmented::new(Uuid::nil());
    let r = s.handle(Some(cont(b"x")));
    assert_eq!(r, Err(FragError::InvalidFragment));
    assert_eq!(r.unwrap_err().description(), "invalid fragment frame received");
    assert_idle(&s);
}

#[test]
fn continuation_after_completion_fails() {
    let mut s = Fragmented::new(Uuid::nil());
    feed(&mut s, start(OpCode::Binary, b"a"));
    feed(&mut s, last(b"b"));
    assert_eq!(s.handle(Some(cont(b"c"))), Err(FragError::InvalidFragment));
    assert_eq!(s.handle(Some(last(b"c"))), Err(FragError::InvalidFragmentComplete));
    assert_eq!(s.buffer(), b"ab");
    assert!(s.is_ready());
}

#[test]
fn sequence_concatenates_in_order_and_sums_lengths() {
    let mut s = Fragmented::new(Uuid::nil());
    feed(&mut s, start(OpCode::Binary, &[1]));
    feed(&mut s, cont(&[]));
    feed(&mut s, cont(&[2, 3]));
    feed(&mut s, Message::Fragment(Some(Frame::new(false, OpCode::Continue, None, 5))));
    feed(&mut s, last(&[4, 5, 6]));
    assert_eq!(s.buffer(), &[1, 2, 3, 4, 5, 6]);
    assert_eq!(s.total_length(), 1 + 0 + 2 + 5 + 3);
    assert_eq!(s.opcode(), OpCode::Binary);
}

#[test]
fn start_and_final_only() {
    let mut s = Fragmented::new(Uuid::nil());
    feed(&mut s, start(OpCode::Binary, &[7, 8]));
    feed(&mut s, last(&[9]));
    let m = emit(&mut s).unwrap();
    assert_eq!(
        m,
        Message::Other(Some(Frame::new(true, OpCode::Binary, Some(vec![7, 8, 9]), 3)))
    );
}

#[test]
fn back_to_back_messages_are_independent() {
    let mut s = Fragmented::new(Uuid::nil());
    feed(&mut s, start(OpCode::Text, b"ab"));
    feed(&mut s, last(b"cd"));
    let first = emit(&mut s).unwrap();
    assert_idle(&s);
    feed(&mut s, start(OpCode::Binary, &[1]));
    feed(&mut s, cont(&[2]));
    feed(&mut s, last(&[3]));
    let second = emit(&mut s).unwrap();
    assert_idle(&s);
    assert_eq!(first, Message::Other(Some(Frame::new(true, OpCode::Text, Some(b"abcd".to_vec()), 4))));
    assert_eq!(second, Message::Other(Some(Frame::new(true, OpCode::Binary, Some(vec![1, 2, 3]), 3))));
}

#[test]
fn anomalous_fragment_mid_sequence_fails() {
    let mut s = Fragmented::new(Uuid::nil());
    feed(&mut s, start(OpCode::Text, b"a"));
    let bad = Message::BadFragment(Some(frame(true, OpCode::Text, b"b")));
    let r = s.handle(Some(bad));
    assert_eq!(r, Err(FragError::InvalidContinuationOpcode));
    assert_eq!(r.unwrap_err().description(), "invalid opcode for continuation fragment");
    assert_eq!(s.buffer(), b"a");
}

#[test]
fn anomalous_fragment_while_idle_passes_through() {
    let mut s = Fragmented::new(Uuid::nil());
    let bad = Message::BadFragment(Some(frame(true, OpCode::Text, b"b")));
    assert_eq!(s.handle(Some(bad.clone())), Ok(Action::Yield(Some(bad))));
    assert_idle(&s);
}

#[test]
fn ordinary_messages_pass_through_unchanged() {
    let mut s = Fragmented::new(Uuid::nil());
    let whole = Message::Other(Some(frame(true, OpCode::Text, b"whole")));
    assert_eq!(s.handle(Some(whole.clone())), Ok(Action::Yield(Some(whole))));
    let ping = Message::Other(Some(frame(true, OpCode::Ping, b"p")));
    assert_eq!(s.handle(Some(ping.clone())), Ok(Action::Yield(Some(ping))));
    assert_eq!(s.handle(Some(Message::Other(None))), Ok(Action::Yield(Some(Message::Other(None)))));
    assert_eq!(s.handle(None), Ok(Action::Yield(None)));
    assert_idle(&s);
}

#[test]
fn ordinary_message_mid_sequence_passes_through() {
    let mut s = Fragmented::new(Uuid::nil());
    feed(&mut s, start(OpCode::Binary, b"a"));
    let pong = Message::Other(Some(frame(true, OpCode::Pong, b"")));
    assert_eq!(s.handle(Some(pong.clone())), Ok(Action::Yield(Some(pong))));
    assert_eq!(s.buffer(), b"a");
    assert!(s.started());
}

#[test]
fn missing_frames_are_rejected() {
    let mut s = Fragmented::new(Uuid::nil());
    let r = s.handle(Some(Message::FragmentStart(None)));
    assert_eq!(r, Err(FragError::InvalidFragmentStart));
    assert_eq!(r.unwrap_err().description(), "invalid fragment start frame received");
    assert_idle(&s);
    feed(&mut s, start(OpCode::Binary, b"a"));
    assert_eq!(s.handle(Some(Message::Fragment(None))), Err(FragError::InvalidFragment));
    assert_eq!(s.handle(Some(Message::FragmentComplete(None))), Err(FragError::InvalidFragmentComplete));
    assert_eq!(s.buffer(), b"a");
}

#[test]
fn invalid_text_prefix_rejected_at_first_continuation() {
    let mut s = Fragmented::new(Uuid::nil());
    feed(&mut s, start(OpCode::Text, b"ok"));
    let r = s.handle(Some(cont(&[0xff])));
    assert_eq!(r, Err(FragError::Utf8Validation));
    assert_eq!(r.unwrap_err().description(), "error during UTF-8 validation");
    assert_eq!(s.buffer(), b"ok");
    assert_eq!(s.total_length(), 2);
}

#[test]
fn invalid_start_data_rejected_at_first_continuation() {
    let mut s = Fragmented::new(Uuid::nil());
    feed(&mut s, start(OpCode::Text, &[0xc0, 0x80]));
    assert_eq!(s.handle(Some(cont(b"a"))), Err(FragError::Utf8Validation));
}

#[test]
fn scalar_split_across_fragments_is_accepted() {
    // U+00E9 is 0xC3 0xA9; U+20AC is 0xE2 0x82 0xAC
    let mut s = Fragmented::new(Uuid::nil());
    feed(&mut s, start(OpCode::Text, &[b'a', 0xc3]));
    feed(&mut s, cont(&[0xa9, 0xe2]));
    feed(&mut s, cont(&[0x82]));
    feed(&mut s, last(&[0xac]));
    let m = emit(&mut s).unwrap();
    let data = m.base().unwrap().application_data.clone().unwrap();
    assert_eq!(String::from_utf8(data).unwrap(), "a\u{e9}\u{20ac}");
}

#[test]
fn binary_messages_are_not_checked() {
    let mut s = Fragmented::new(Uuid::nil());
    feed(&mut s, start(OpCode::Binary, &[0xff]));
    feed(&mut s, cont(&[0xfe]));
    feed(&mut s, last(&[0xc0]));
    assert!(emit(&mut s).is_ok());
}

#[test]
fn large_text_skips_incremental_check() {
    let mut s = Fragmented::new(Uuid::nil());
    let big = vec![b'x'; 8096];
    feed(&mut s, start(OpCode::Text, &big));
    feed(&mut s, cont(&[0xff]));
    feed(&mut s, last(b"y"));
    assert_eq!(emit(&mut s), Err(FragError::InvalidUtf8));
    assert!(s.is_ready());
}

#[test]
fn limit_is_on_running_length() {
    let mut s = Fragmented::new(Uuid::nil());
    let below = vec![b'x'; 8094];
    feed(&mut s, start(OpCode::Text, &below));
    assert_eq!(s.handle(Some(cont(&[0xff]))), Err(FragError::Utf8Validation));
    let mut t = Fragmented::new(Uuid::nil());
    let at = vec![b'x'; 8095];
    feed(&mut t, start(OpCode::Text, &at));
    feed(&mut t, cont(&[0xff]));
    assert_eq!(t.total_length(), 8096);
}

#[test]
fn final_invalid_text_is_rejected_and_kept() {
    let mut s = Fragmented::new(Uuid::nil());
    feed(&mut s, start(OpCode::Text, b"a"));
    feed(&mut s, last(&[0xe2, 0x82]));
    let r = emit(&mut s);
    assert_eq!(r, Err(FragError::InvalidUtf8));
    assert_eq!(r.unwrap_err().description(), "invalid UTF-8 in text frame");
    assert!(s.is_ready());
    assert_eq!(s.buffer(), &[b'a', 0xe2, 0x82]);
}

#[test]
fn final_check_sees_decoded_data() {
    // an extension may turn the raw bytes into text before the final check
    let mut s = Fragmented::new(Uuid::nil());
    feed(&mut s, start(OpCode::Text, b"a"));
    feed(&mut s, last(&[0xff]));
    let mut f = s.assembled().unwrap();
    f.application_data = Some(b"decoded".to_vec());
    let m = s.deliver(f).unwrap();
    assert_eq!(m.base().unwrap().application_data, Some(b"decoded".to_vec()));
    assert_idle(&s);
}

#[test]
fn length_overflow_is_rejected() {
    let mut s = Fragmented::new(Uuid::nil());
    feed(&mut s, Message::FragmentStart(Some(Frame::new(false, OpCode::Binary, None, u64::MAX))));
    let r = s.handle(Some(Message::Fragment(Some(Frame::new(false, OpCode::Continue, None, 1)))));
    assert_eq!(r, Err(FragError::LengthOverflow));
    assert_eq!(r.unwrap_err().description(), "payload length overflow");
    assert_eq!(s.total_length(), u64::MAX);
}

#[test]
fn ext_decode_applies_to_final_data_frames() {
    assert!(frame(true, OpCode::Text, b"").needs_ext_decode());
    assert!(frame(true, OpCode::Binary, b"").needs_ext_decode());
    assert!(!frame(false, OpCode::Text, b"").needs_ext_decode());
    assert!(!frame(true, OpCode::Ping, b"").needs_ext_decode());
    assert!(!frame(true, OpCode::Continue, b"").needs_ext_decode());
}

#[test]
fn utf8_checks() {
    assert!(is_valid_utf8(b""));
    assert!(is_valid_utf8("h\u{e9}\u{20ac}\u{1f600}".as_bytes()));
    assert!(!is_valid_utf8(&[0xe2, 0x82]));
    assert!(is_valid_utf8_prefix(&[0xe2, 0x82]));
    assert!(!is_valid_utf8_prefix(&[0xe2, 0x41]));
    assert!(!is_valid_utf8_prefix(&[0xed, 0xa0]));
    assert!(!is_valid_utf8_prefix(&[0xf5]));
    assert!(!is_valid_utf8(&[0xc0, 0x80]));
}

#[test]
fn message_base_accessor() {
    let f = frame(true, OpCode::Text, b"x");
    assert_eq!(Message::Fragment(Some(f.clone())).base(), Some(&f));
    assert_eq!(Message::Other(None).base(), None);
}

#[test]
fn open_run_with_pass_through_accumulates_fragments_only() {
    let mut s = Fragmented::new(Uuid::nil());
    feed(&mut s, start(OpCode::Binary, &[1, 2]));
    let ping = Message::Other(Some(frame(true, OpCode::Ping, &[9, 9, 9])));
    assert_eq!(s.handle(Some(ping.clone())), Ok(Action::Yield(Some(ping))));
    feed(&mut s, cont(&[3]));
    assert_eq!(s.handle(Some(Message::Other(None))), Ok(Action::Yield(Some(Message::Other(None)))));
    feed(&mut s, cont(&[4, 5]));
    assert!(s.started());
    assert!(!s.complete());
    assert_eq!(s.opcode(), OpCode::Binary);
    assert_eq!(s.buffer(), &[1, 2, 3, 4, 5]);
    assert_eq!(s.total_length(), 5);
}

#[test]
fn finished_message_then_reset() {
    let mut s = Fragmented::new(Uuid::nil());
    feed(&mut s, start(OpCode::Text, b"ab"));
    feed(&mut s, last(b"c"));
    let f = s.assembled().unwrap();
    let m = s.finished_message(f.clone()).unwrap();
    assert_eq!(m, Message::Other(Some(f)));
    assert!(s.is_ready());
    s.reset();
    assert_idle(&s);
}

#[test]
fn finished_message_rejects_invalid_text() {
    let mut s = Fragmented::new(Uuid::nil());
    feed(&mut s, start(OpCode::Text, b"a"));
    feed(&mut s, last(&[0xff]));
    let f = s.assembled().unwrap();
    assert_eq!(s.finished_message(f), Err(FragError::InvalidUtf8));
    assert!(s.is_ready());
}

#[test]
fn every_error_has_its_description() {
    assert_eq!(FragError::InvalidFragmentStart.description(), "invalid fragment start frame received");
    assert_eq!(FragError::InvalidFragment.description(), "invalid fragment frame received");
    assert_eq!(
        FragError::InvalidFragmentComplete.description(),
        "invalid fragment complete frame received"
    );
    assert_eq!(
        FragError::InvalidContinuationOpcode.description(),
        "invalid opcode for continuation fragment"
    );
    assert_eq!(FragError::Utf8Validation.description(), "error during UTF-8 validation");
    assert_eq!(FragError::InvalidUtf8.description(), "invalid UTF-8 in text frame");
    assert_eq!(FragError::LengthOverflow.description(), "payload length overflow");
}
