//! What holds of every run of a session.
use vstd::prelude::*;
use crate::error::FragError;
use crate::frame::{data_of, Frame, OpCode};
use crate::message::{Action, Message};
use crate::session::{deliver_spec, idle, next, Session, INCREMENTAL_UTF8_LIMIT};
use crate::utf8::{lemma_invalid_prefix_stays_invalid, valid_utf8, valid_utf8_prefix};

verus! {

/// A fragment-start, a continuation or a final continuation.
pub open spec fn is_fragment_kind(m: Message) -> bool {
    m is FragmentStart || m is Fragment || m is FragmentComplete
}

/// The data a message adds to a fragmented message: that of its frame for a
/// fragment, nothing for any other message.
pub open spec fn carried(m: Message) -> Seq<u8> {
    match m.base_spec() {
        Some(f) => if is_fragment_kind(m) {
            data_of(f)
        } else {
            Seq::empty()
        },
        None => Seq::empty(),
    }
}

/// The payload length a message adds to a fragmented message: that of its
/// frame for a fragment, nothing for any other message.
pub open spec fn announced(m: Message) -> nat {
    match m.base_spec() {
        Some(f) => if is_fragment_kind(m) {
            f.payload_length as nat
        } else {
            0
        },
        None => 0,
    }
}

/// The data of `ms`, concatenated in order.
pub open spec fn concat_carried(ms: Seq<Message>) -> Seq<u8>
    decreases ms.len(),
{
    if ms.len() == 0 {
        Seq::empty()
    } else {
        concat_carried(ms.drop_last()) + carried(ms.last())
    }
}

/// The payload lengths of `ms`, summed.
pub open spec fn sum_announced(ms: Seq<Message>) -> nat
    decreases ms.len(),
{
    if ms.len() == 0 {
        0
    } else {
        sum_announced(ms.drop_last()) + announced(ms.last())
    }
}

/// The session after taking each of `ms` in turn, or the first error.
pub open spec fn run(s: Session, ms: Seq<Message>) -> Result<Session, FragError>
    decreases ms.len(),
{
    if ms.len() == 0 {
        Ok(s)
    } else {
        match run(s, ms.drop_last()) {
            Err(e) => Err(e),
            Ok(t) => match next(t, Some(ms.last())).1 {
                Err(e) => Err(e),
                Ok(_) => Ok(next(t, Some(ms.last())).0),
            },
        }
    }
}

/// `ms` is the beginning of one fragmented message: a fragment-start, then
/// continuations, with messages that are no part of a sequence in between.
pub open spec fn is_open_run(ms: Seq<Message>) -> bool {
    &&& ms.len() >= 1
    &&& ms[0] is FragmentStart
    &&& forall|i: int| 0 < i < ms.len() ==> #[trigger] ms[i] is Fragment || ms[i] is Other
}

/// `ms` is one whole fragmented message: an open run, then a final
/// continuation.
pub open spec fn is_fragment_run(ms: Seq<Message>) -> bool {
    &&& ms.len() >= 2
    &&& is_open_run(ms.drop_last())
    &&& ms.last() is FragmentComplete
}

/// The opcode of the frame a message wraps.
pub open spec fn opcode_of(m: Message) -> OpCode {
    match m.base_spec() {
        Some(f) => f.opcode,
        None => OpCode::Close,
    }
}

/// The idle state is well formed.
pub proof fn lemma_idle_wf()
    ensures
        idle().wf(),
{
}

/// Every transition, and every delivery, keeps the session well formed:
/// `complete` only inside a sequence, nothing held between messages.
pub proof fn lemma_wf_preserved(s: Session, m: Option<Message>, f: Frame)
    requires
        s.wf(),
    ensures
        next(s, m).0.wf(),
        deliver_spec(s, f).0.wf(),
{
}

/// A rejected message leaves the session as it was.
pub proof fn lemma_error_leaves_state(s: Session, m: Option<Message>)
    ensures
        next(s, m).1 is Err ==> next(s, m).0 == s,
{
}

/// The beginning of a fragmented message taken from idle, if no step is
/// rejected, leaves the sequence open, with the opcode of its first frame,
/// the data of its fragments concatenated in arrival order, and the sum of
/// their payload lengths; the messages in between add nothing.
pub proof fn lemma_open_run(ms: Seq<Message>)
    requires
        is_open_run(ms),
    ensures
        run(idle(), ms) matches Ok(t) ==> {
            &&& t.accumulating()
            &&& t.opcode == opcode_of(ms[0])
            &&& t.buf == concat_carried(ms)
            &&& t.total_length == sum_announced(ms)
        },
    decreases ms.len(),
{
    let p = ms.drop_last();
    let m = ms.last();
    assert(concat_carried(ms) == concat_carried(p) + carried(m));
    assert(sum_announced(ms) == sum_announced(p) + announced(m));
    if ms.len() == 1 {
        assert(p =~= Seq::<Message>::empty());
        assert(run(idle(), p) == Ok::<Session, FragError>(idle()));
        if let Ok(t) = run(idle(), ms) {
            assert(t == next(idle(), Some(m)).0);
            assert(t.buf =~= concat_carried(ms));
        }
    } else {
        assert forall|i: int| 0 < i < p.len() implies #[trigger] p[i] is Fragment || p[i] is Other by {
            assert(p[i] == ms[i]);
        }
        assert(p[0] == ms[0]);
        lemma_open_run(p);
        assert(m is Fragment || m is Other);
        if let Ok(t) = run(idle(), ms) {
            let t0 = run(idle(), p)->Ok_0;
            assert(t == next(t0, Some(m)).0);
            if m is Other {
                assert(t.buf =~= concat_carried(ms));
            }
        }
    }
}

/// A whole fragmented message taken from idle, if no step is rejected,
/// leaves the session ready to deliver, with the opcode of its first frame,
/// the data of its fragments concatenated in arrival order, and the sum of
/// their payload lengths.
pub proof fn lemma_sequencing(ms: Seq<Message>)
    requires
        is_fragment_run(ms),
    ensures
        run(idle(), ms) matches Ok(t) ==> {
            &&& t.ready()
            &&& t.opcode == opcode_of(ms[0])
            &&& t.buf == concat_carried(ms)
            &&& t.total_length == sum_announced(ms)
        },
{
    let p = ms.drop_last();
    lemma_open_run(p);
    assert(p[0] == ms[0]);
    assert(concat_carried(ms) == concat_carried(p) + carried(ms.last()));
    if let Ok(t) = run(idle(), ms) {
        let t0 = run(idle(), p)->Ok_0;
        assert(t == next(t0, Some(ms.last())).0);
    }
}

/// Outside an open sequence a continuation or a final continuation is
/// rejected; inside one, a fragment-start or an anomalous fragment is.
pub proof fn lemma_no_interleaving(s: Session, m: Message)
    requires
        s.wf(),
    ensures
        !s.accumulating() && (m is Fragment || m is FragmentComplete) ==> next(s, Some(m)).1 is Err,
        s.started && m is FragmentStart ==> next(s, Some(m)).1 is Err,
        s.accumulating() && m is BadFragment ==> next(s, Some(m)).1 is Err,
{
}

/// A successful delivery leaves the session exactly idle, so the next
/// fragmented message is assembled as if it were the first.
pub proof fn lemma_reset(s: Session, f: Frame, ms: Seq<Message>)
    requires
        is_fragment_run(ms),
        deliver_spec(s, f).1 is Ok,
    ensures
        deliver_spec(s, f).0 == idle(),
        run(deliver_spec(s, f).0, ms) matches Ok(t) ==> {
            &&& t.ready()
            &&& t.buf == concat_carried(ms)
            &&& t.total_length == sum_announced(ms)
        },
{
    lemma_sequencing(ms);
}

/// For a text message whose running length stays under the limit, a
/// continuation is rejected exactly when the data accumulated with it can no
/// longer begin well-formed UTF-8.
pub proof fn lemma_utf8_incremental(s: Session, f: Frame)
    requires
        s.accumulating(),
        s.opcode == OpCode::Text,
        !s.overflows(f),
        s.total_length + f.payload_length < INCREMENTAL_UTF8_LIMIT,
    ensures
        (next(s, Some(Message::Fragment(Some(f)))).1 == Err::<Action, FragError>(
            FragError::Utf8Validation,
        )) == !valid_utf8_prefix(s.buf + data_of(f)),
{
}

/// Once the accumulated text of a message under the limit cannot begin
/// well-formed UTF-8, every further continuation is rejected.
pub proof fn lemma_utf8_invalid_stays_rejected(s: Session, f: Frame)
    requires
        s.accumulating(),
        s.opcode == OpCode::Text,
        !valid_utf8_prefix(s.buf),
        !s.overflows(f),
        s.total_length + f.payload_length < INCREMENTAL_UTF8_LIMIT,
    ensures
        next(s, Some(Message::Fragment(Some(f)))).1 == Err::<Action, FragError>(
            FragError::Utf8Validation,
        ),
{
    lemma_invalid_prefix_stays_invalid(s.buf, data_of(f));
}

/// Whatever its size, a final text frame with data is delivered exactly when
/// that data is well-formed UTF-8.
pub proof fn lemma_utf8_final(s: Session, f: Frame)
    requires
        f.opcode == OpCode::Text,
        f.fin,
        f.application_data is Some,
    ensures
        (deliver_spec(s, f).1 is Ok) == valid_utf8(data_of(f)),
{
}

/// A message that is no part of a fragment sequence, and an anomalous
/// fragment outside an open sequence, is handed back unchanged and leaves
/// the session as it was.
pub proof fn lemma_pass_through(s: Session, m: Option<Message>)
    requires
        m matches Some(x) ==> x is Other || (x is BadFragment && !s.accumulating()),
    ensures
        next(s, m) == (s, Ok::<Action, FragError>(Action::Yield(m))),
{
}

} // verus!
