//! The reassembly session: its state, its transitions, and the delivery of
//! an assembled message.
use vstd::prelude::*;
use crate::error::FragError;
use crate::frame::{data_of, Frame, OpCode};
use crate::message::{Action, Message};
use crate::utf8::{is_valid_utf8, is_valid_utf8_prefix, valid_utf8, valid_utf8_prefix};
use uuid::Uuid;

verus! {

#[verifier::external_type_specification]
#[verifier::external_body]
pub struct ExUuid(Uuid);

/// Below this running length the accumulated text of a message is checked
/// at every continuation.
pub const INCREMENTAL_UTF8_LIMIT: u64 = 8096;

/// The state of a session, apart from its connection identifier.
pub ghost struct Session {
    pub started: bool,
    pub complete: bool,
    pub opcode: OpCode,
    pub total_length: nat,
    pub buf: Seq<u8>,
}

/// The state between messages.
pub open spec fn idle() -> Session {
    Session {
        started: false,
        complete: false,
        opcode: OpCode::Close,
        total_length: 0,
        buf: Seq::empty(),
    }
}

impl Session {
    /// `complete` only within a sequence, and nothing held between messages.
    pub open spec fn wf(self) -> bool {
        &&& self.complete ==> self.started
        &&& !self.started ==> self == idle()
        &&& self.total_length <= u64::MAX
    }

    /// A sequence is open and still takes fragments.
    pub open spec fn accumulating(self) -> bool {
        self.started && !self.complete
    }

    /// The final fragment has been seen; the message awaits delivery.
    pub open spec fn ready(self) -> bool {
        self.started && self.complete
    }

    /// `f` is the frame that delivers the completed message: final, with the
    /// captured opcode, the accumulated data and the summed payload length.
    pub open spec fn assembles(self, f: Frame) -> bool {
        &&& f.fin
        &&& f.opcode == self.opcode
        &&& f.application_data is Some
        &&& data_of(f) == self.buf
        &&& f.payload_length == self.total_length
    }

    /// Whether adding the payload length of `f` overflows 64 bits.
    pub open spec fn overflows(self, f: Frame) -> bool {
        self.total_length + f.payload_length > u64::MAX
    }

    /// The frame's length and data added to the running totals.
    pub open spec fn absorb(self, f: Frame) -> Session {
        Session {
            total_length: (self.total_length + f.payload_length) as nat,
            buf: self.buf + data_of(f),
            ..self
        }
    }
}

/// Taking a fragment-start: the opcode is captured and the sequence opens.
pub open spec fn on_start(s: Session, base: Option<Frame>) -> (Session, Result<Action, FragError>) {
    match base {
        None => (s, Err(FragError::InvalidFragmentStart)),
        Some(f) => if s.started {
            (s, Err(FragError::InvalidFragmentStart))
        } else if s.overflows(f) {
            (s, Err(FragError::LengthOverflow))
        } else {
            (Session { started: true, opcode: f.opcode, ..s.absorb(f) }, Ok(Action::Flush))
        },
    }
}

/// Taking a continuation: the running totals grow, and the text of a small
/// message must still begin well-formed UTF-8.
pub open spec fn on_fragment(s: Session, base: Option<Frame>) -> (Session, Result<Action, FragError>) {
    if !s.accumulating() {
        (s, Err(FragError::InvalidFragment))
    } else {
        match base {
            None => (s, Err(FragError::InvalidFragment)),
            Some(f) => if s.overflows(f) {
                (s, Err(FragError::LengthOverflow))
            } else {
                let t = s.absorb(f);
                if s.opcode == OpCode::Text && t.total_length < INCREMENTAL_UTF8_LIMIT
                    && !valid_utf8_prefix(t.buf) {
                    (s, Err(FragError::Utf8Validation))
                } else {
                    (t, Ok(Action::Flush))
                }
            },
        }
    }
}

/// Taking a final continuation: the running totals grow and the message is
/// complete.
pub open spec fn on_complete(s: Session, base: Option<Frame>) -> (Session, Result<Action, FragError>) {
    if !s.accumulating() {
        (s, Err(FragError::InvalidFragmentComplete))
    } else {
        match base {
            None => (s, Err(FragError::InvalidFragmentComplete)),
            Some(f) => if s.overflows(f) {
                (s, Err(FragError::LengthOverflow))
            } else {
                (Session { complete: true, ..s.absorb(f) }, Ok(Action::Flush))
            },
        }
    }
}

/// One transition of the session on a pulled message (`None`: the stream
/// ended). Every error leaves the state as it was.
pub open spec fn next(s: Session, m: Option<Message>) -> (Session, Result<Action, FragError>) {
    match m {
        Some(Message::FragmentStart(base)) => on_start(s, base),
        Some(Message::Fragment(base)) => on_fragment(s, base),
        Some(Message::FragmentComplete(base)) => on_complete(s, base),
        Some(Message::BadFragment(_)) => if s.accumulating() {
            (s, Err(FragError::InvalidContinuationOpcode))
        } else {
            (s, Ok(Action::Yield(m)))
        },
        _ => (s, Ok(Action::Yield(m))),
    }
}

/// Delivery of the (extension-decoded) assembled frame `f`: a final text
/// frame must be well-formed UTF-8; on success the session returns to idle.
pub open spec fn deliver_spec(s: Session, f: Frame) -> (Session, Result<Message, FragError>) {
    if f.opcode == OpCode::Text && f.fin && f.application_data is Some
        && !valid_utf8(data_of(f)) {
        (s, Err(FragError::InvalidUtf8))
    } else {
        (idle(), Ok(Message::Other(Some(f))))
    }
}

/// Appends the bytes of `d` to `buf`.
fn append_bytes(buf: &mut Vec<u8>, d: &Vec<u8>)
    ensures
        final(buf)@ == old(buf)@ + d@,
{
    let mut i: usize = 0;
    while i < d.len()
        invariant
            i <= d@.len(),
            buf@ == old(buf)@ + d@.take(i as int),
        decreases d@.len() - i,
    {
        buf.push(d[i]);
        i = i + 1;
        assert(d@.take(i as int) =~= d@.take(i - 1) + seq![d@[i - 1]]);
        assert(buf@ =~= old(buf)@ + d@.take(i as int));
    }
    assert(d@.take(i as int) =~= d@);
}

/// The reassembly session of one connection.
pub struct Fragmented {
    uuid: Uuid,
    started: bool,
    complete: bool,
    opcode: OpCode,
    total_length: u64,
    buf: Vec<u8>,
}

impl View for Fragmented {
    type V = Session;

    closed spec fn view(&self) -> Session {
        Session {
            started: self.started,
            complete: self.complete,
            opcode: self.opcode,
            total_length: self.total_length as nat,
            buf: self.buf@,
        }
    }
}

impl Fragmented {
    /// The connection identifier, as a spec value.
    pub closed spec fn id(&self) -> Uuid {
        self.uuid
    }

    /// A fresh, idle session for the connection `uuid`.
    pub fn new(uuid: Uuid) -> (r: Fragmented)
        ensures
            r@ == idle(),
            r.id() == uuid,
    {
        let r = Fragmented {
            uuid,
            started: false,
            complete: false,
            opcode: OpCode::Close,
            total_length: 0,
            buf: Vec::new(),
        };
        assert(r@ =~= idle());
        r
    }

    /// The connection identifier, which locates the extension state shared
    /// by the layers of this connection.
    pub fn uuid(&self) -> (r: Uuid)
        ensures
            r == self.id(),
    {
        self.uuid
    }

    /// Whether a fragmented message is open.
    pub fn started(&self) -> (r: bool)
        ensures
            r == self@.started,
    {
        self.started
    }

    /// Whether the open message has seen its final fragment.
    pub fn complete(&self) -> (r: bool)
        ensures
            r == self@.complete,
    {
        self.complete
    }

    /// The opcode of the open message (`Close` between messages).
    pub fn opcode(&self) -> (r: OpCode)
        ensures
            r == self@.opcode,
    {
        self.opcode
    }

    /// The sum of the payload lengths taken so far.
    pub fn total_length(&self) -> (r: u64)
        ensures
            r == self@.total_length,
    {
        self.total_length
    }

    /// The application data taken so far.
    pub fn buffer(&self) -> (r: &[u8])
        ensures
            r@ == self@.buf,
    {
        self.buf.as_slice()
    }

    /// Appends the frame's data and sets the running length to `total`.
    fn absorb(&mut self, f: &Frame, total: u64)
        requires
            total == old(self)@.total_length + f.payload_length,
        ensures
            final(self)@ == (Session { total_length: total as nat, ..old(self)@.absorb(*f) }),
            final(self).uuid == old(self).uuid,
    {
        match &f.application_data {
            Some(d) => append_bytes(&mut self.buf, d),
            None => {
                assert(self.buf@ =~= self.buf@ + Seq::<u8>::empty());
            },
        }
        self.total_length = total;
    }

    /// Takes one pulled message (`None`: the stream ended) and says what the
    /// driver does next. Fragments are accumulated; anything that is no part
    /// of a sequence is handed back unchanged; every error leaves the session
    /// as it was.
    pub fn handle(&mut self, msg: Option<Message>) -> (r: Result<Action, FragError>)
        ensures
            final(self)@ == next(old(self)@, msg).0,
            r == next(old(self)@, msg).1,
            final(self).id() == old(self).id(),
    {
        match msg {
            Some(Message::FragmentStart(base)) => match base {
                None => Err(FragError::InvalidFragmentStart),
                Some(f) => {
                    if self.started {
                        return Err(FragError::InvalidFragmentStart);
                    }
                    match self.total_length.checked_add(f.payload_length) {
                        None => Err(FragError::LengthOverflow),
                        Some(total) => {
                            self.absorb(&f, total);
                            self.opcode = f.opcode;
                            self.started = true;
                            Ok(Action::Flush)
                        },
                    }
                },
            },
            Some(Message::Fragment(base)) => {
                if !self.started || self.complete {
                    return Err(FragError::InvalidFragment);
                }
                match base {
                    None => Err(FragError::InvalidFragment),
                    Some(f) => match self.total_length.checked_add(f.payload_length) {
                        None => Err(FragError::LengthOverflow),
                        Some(total) => {
                            let ghost before = self@;
                            let old_len = self.buf.len();
                            let old_total = self.total_length;
                            self.absorb(&f, total);
                            if self.opcode == OpCode::Text && total < INCREMENTAL_UTF8_LIMIT
                                && !is_valid_utf8_prefix(self.buf.as_slice()) {
                                self.buf.truncate(old_len);
                                self.total_length = old_total;
                                assert(self.buf@ =~= before.buf);
                                assert(self@ =~= before);
                                Err(FragError::Utf8Validation)
                            } else {
                                Ok(Action::Flush)
                            }
                        },
                    },
                }
            },
            Some(Message::FragmentComplete(base)) => {
                if !self.started || self.complete {
                    return Err(FragError::InvalidFragmentComplete);
                }
                match base {
                    None => Err(FragError::InvalidFragmentComplete),
                    Some(f) => match self.total_length.checked_add(f.payload_length) {
                        None => Err(FragError::LengthOverflow),
                        Some(total) => {
                            self.absorb(&f, total);
                            self.complete = true;
                            Ok(Action::Flush)
                        },
                    },
                }
            },
            Some(Message::BadFragment(base)) => {
                if self.started && !self.complete {
                    Err(FragError::InvalidContinuationOpcode)
                } else {
                    Ok(Action::Yield(Some(Message::BadFragment(base))))
                }
            },
            other => Ok(Action::Yield(other)),
        }
    }

    /// Whether the final fragment has been seen and the message awaits
    /// delivery.
    pub fn is_ready(&self) -> (r: bool)
        ensures
            r == self@.ready(),
    {
        self.started && self.complete
    }

    /// The frame to deliver once the message is complete: final, with the
    /// captured opcode, the accumulated data and the summed payload length.
    /// `None` while no message is complete.
    pub fn assembled(&self) -> (r: Option<Frame>)
        ensures
            r is Some <==> self@.ready(),
            r matches Some(f) ==> self@.assembles(f),
    {
        if self.started && self.complete {
            let mut data: Vec<u8> = Vec::new();
            data.extend_from_slice(self.buf.as_slice());
            assert(data@ =~= self.buf@);
            Some(Frame::new(true, self.opcode, Some(data), self.total_length))
        } else {
            None
        }
    }

    /// The message that delivers `f`, the assembled frame after the
    /// extension chain has run on it: a final text frame must be well-formed
    /// UTF-8. The session is not changed; see `reset` and `deliver`.
    pub fn finished_message(&self, f: Frame) -> (r: Result<Message, FragError>)
        requires
            self@.ready(),
        ensures
            r == deliver_spec(self@, f).1,
    {
        if f.opcode == OpCode::Text && f.fin {
            match &f.application_data {
                Some(d) => {
                    if !is_valid_utf8(d.as_slice()) {
                        return Err(FragError::InvalidUtf8);
                    }
                },
                None => {},
            }
        }
        Ok(Message::Other(Some(f)))
    }

    /// Ends the delivered message: the session is idle again.
    pub fn reset(&mut self)
        requires
            old(self)@.ready(),
        ensures
            final(self)@ == idle(),
            final(self).id() == old(self).id(),
    {
        self.started = false;
        self.complete = false;
        self.opcode = OpCode::Close;
        self.total_length = 0;
        self.buf.clear();
        assert(self@ =~= idle());
    }

    /// Delivers `f`, the assembled frame after the extension chain has run
    /// on it: a final text frame must be well-formed UTF-8. On success the
    /// message is returned and the session is idle again; on failure the
    /// session is left as it was.
    pub fn deliver(&mut self, f: Frame) -> (r: Result<Message, FragError>)
        requires
            old(self)@.ready(),
        ensures
            final(self)@ == deliver_spec(old(self)@, f).0,
            r == deliver_spec(old(self)@, f).1,
            final(self).id() == old(self).id(),
    {
        let r = self.finished_message(f);
        if r.is_ok() {
            self.reset();
        }
        r
    }
}

} // verus!
