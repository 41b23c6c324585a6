//! The driver of a transfer: each packet that arrives is handed to the
//! handler of its kind, which moves the session on and says what is to be
//! done next.

use crate::buffer;
use crate::buffer::{be16, contents};
use crate::error::Error;
use crate::file::{write_spec, FileWrite, FileWriteView};
use crate::options::{parse_options, OptionsView};
use crate::packet;
use crate::packet::{ack_bytes, error_failure, packet_opcode, parsed_error, ErrorView};
use crate::session::{blocknum_add, in_window, SessionView, TftpSession};
use crate::OpCode;
use crate::ROLLOVER;
use bytes::Bytes;
use vstd::prelude::*;

verus! {

/// What follows a step of the transfer.
pub enum Next {
    /// Wait for the next packet.
    Receive,
    /// Read the file from `reader_pos` on and send the window behind the
    /// block `blocknum_start`, then wait for the next packet.
    Read { blocknum_start: u16, reader_pos: u64, lastch: Option<u8> },
    /// The transfer is complete.
    Complete,
    /// The peer has ended the transfer with an ERROR packet.
    Refused(packet::Error),
}

/// What a `Next` holds.
pub enum NextView {
    Receive,
    Read { blocknum_start: u16, reader_pos: u64, lastch: Option<u8> },
    Complete,
    Refused(ErrorView),
}

impl View for Next {
    type V = NextView;

    open spec fn view(&self) -> NextView {
        match self {
            Next::Receive => NextView::Receive,
            Next::Read { blocknum_start, reader_pos, lastch } => NextView::Read {
                blocknum_start: *blocknum_start,
                reader_pos: *reader_pos,
                lastch: *lastch,
            },
            Next::Complete => NextView::Complete,
            Next::Refused(e) => NextView::Refused(e@),
        }
    }
}

/// One step of a transfer, in the order in which it is carried out: what
/// is put on the local file, what is sent, and what follows. A packet that
/// is sent before a wait is sent again whenever the wait runs out.
pub struct Step {
    pub write: Option<FileWrite>,
    pub send: Option<Bytes>,
    pub next: Next,
}

/// What a `Step` holds.
pub struct StepView {
    pub write: Option<FileWriteView>,
    pub send: Option<Seq<u8>>,
    pub next: NextView,
}

impl View for Step {
    type V = StepView;

    open spec fn view(&self) -> StepView {
        StepView {
            write: match self.write {
                Some(w) => Some(w@),
                None => None,
            },
            send: match self.send {
                Some(p) => Some(contents(p)),
                None => None,
            },
            next: self.next@,
        }
    }
}

/// A session after a packet, and the step that the packet calls for.
pub struct Outcome {
    pub session: SessionView,
    pub step: StepView,
}

/// The step that only waits.
pub open spec fn wait_step() -> StepView {
    StepView { write: None, send: None, next: NextView::Receive }
}

/// The step that sends the window behind the block `blocknum_start`.
pub open spec fn read_step(s: SessionView, blocknum_start: u16) -> StepView {
    StepView {
        write: None,
        send: None,
        next: NextView::Read {
            blocknum_start,
            reader_pos: s.window_start(blocknum_start).0,
            lastch: s.window_start(blocknum_start).1,
        },
    }
}

/// What an ACK of the block `blocknum` does. The very first ACK, of block
/// 0 before any wrap, starts the sending. Any other ACK counts only if its
/// block lies in the window; then it is taken, and the transfer is complete
/// if the last packet sent was a short one, else the next window is sent.
pub open spec fn ack_outcome(s: SessionView, blocknum: u16) -> Outcome {
    if blocknum != 0 || s.rollover != 0 {
        if !in_window(s.blocknum_ack, s.options.windowsize(), blocknum) {
            Outcome { session: s, step: wait_step() }
        } else {
            let taken = SessionView { blocknum_ack: blocknum, ..s };
            if taken.sent_completed() {
                Outcome {
                    session: taken,
                    step: StepView { write: None, send: None, next: NextView::Complete },
                }
            } else {
                Outcome { session: taken, step: read_step(taken, blocknum) }
            }
        }
    } else {
        Outcome { session: s, step: read_step(s, s.blocknum_ack) }
    }
}

/// What a DATA packet with the block `blocknum` does. A block before the
/// expected one is passed over. A block after it is answered with the ACK
/// of the last block taken, so that the peer sends again from there. The
/// expected block is written; a short one ends the transfer with its ACK;
/// the last of a window is answered with its ACK; any other is followed by
/// a wait.
pub open spec fn data_outcome(s: SessionView, blocknum: u16, payload: Seq<u8>) -> Outcome {
    let expect = blocknum_add(s.blocknum_ack, 1);
    if expect < blocknum {
        Outcome {
            session: SessionView { received_data: 0, ..s },
            step: StepView {
                write: None,
                send: Some(ack_bytes(s.blocknum_ack)),
                next: NextView::Receive,
            },
        }
    } else if expect == blocknum {
        let w = write_spec(payload, s.mode, s.lastch, s.host);
        let taken = SessionView {
            received_data: (s.received_data + 1) as u16,
            rollover: if expect == ROLLOVER {
                (s.rollover + 1) as u32
            } else {
                s.rollover
            },
            lastch: w.lastch,
            blocknum_ack: blocknum,
            ..s
        };
        if payload.len() < s.options.blksize() {
            Outcome {
                session: taken,
                step: StepView {
                    write: Some(w.change()),
                    send: Some(ack_bytes(blocknum)),
                    next: NextView::Complete,
                },
            }
        } else if taken.received_data_last() {
            Outcome {
                session: SessionView { received_data: 0, ..taken },
                step: StepView {
                    write: Some(w.change()),
                    send: Some(ack_bytes(blocknum)),
                    next: NextView::Receive,
                },
            }
        } else {
            Outcome {
                session: taken,
                step: StepView { write: Some(w.change()), send: None, next: NextView::Receive },
            }
        }
    } else {
        Outcome { session: s, step: wait_step() }
    }
}

/// What an OACK does: its options become the session's; then a write
/// request sends its first window, and a read request acknowledges block 0.
pub open spec fn oack_outcome(s: SessionView, req_code: OpCode, options: OptionsView) -> Outcome {
    let agreed = SessionView { options, ..s };
    if req_code == OpCode::Wrq {
        Outcome { session: agreed, step: read_step(agreed, 0) }
    } else {
        Outcome {
            session: agreed,
            step: StepView {
                write: None,
                send: Some(ack_bytes(agreed.blocknum_ack)),
                next: NextView::Receive,
            },
        }
    }
}

/// What a packet does to a session that can take it: the outcome of its
/// kind's handler, on the session marked as no longer fresh. `None` where
/// the packet is refused.
pub open spec fn packet_outcome(s: SessionView, req_code: OpCode, b: Seq<u8>) -> Option<Outcome> {
    let started = SessionView { fresh: false, ..s };
    let body = b.skip(2);
    if b.len() < 2 {
        None
    } else {
        match packet_opcode(b) {
            Some(OpCode::Ack) => if body.len() < 2 {
                None
            } else {
                Some(ack_outcome(started, be16(body[0], body[1])))
            },
            Some(OpCode::Data) => if body.len() < 2 {
                None
            } else {
                Some(data_outcome(started, be16(body[0], body[1]), body.skip(2)))
            },
            Some(OpCode::Oack) => if s.fresh {
                Some(oack_outcome(started, req_code, parse_options(body)))
            } else {
                None
            },
            Some(OpCode::Error) => match parsed_error(body) {
                Some(e) => Some(
                    Outcome {
                        session: started,
                        step: StepView { write: None, send: None, next: NextView::Refused(e) },
                    },
                ),
                None => None,
            },
            _ => None,
        }
    }
}

/// The failure with which a packet is refused: one that is too short for
/// its kind, one of a kind that answers nothing, an OACK that is not the
/// first packet, or an ERROR packet that cannot be read.
pub open spec fn packet_failure(b: Seq<u8>, e: Error) -> bool {
    if b.len() < 2 {
        e is InvalidPacketLength
    } else {
        match packet_opcode(b) {
            Some(OpCode::Ack) => e is InvalidPacketLength,
            Some(OpCode::Data) => e is InvalidPacketLength,
            Some(OpCode::Error) => error_failure(b.skip(2), e),
            _ => e is InvalidOpCode,
        }
    }
}

/// Timeout idempotence: a DATA packet that comes a second time, because
/// the peer did not see it acknowledged, is not written a second time. The
/// last block taken and the carry stay as they are, and whatever is sent in
/// answer is the ACK of the last block taken.
pub proof fn lemma_duplicate_data(s: SessionView, blocknum: u16, payload: Seq<u8>)
    requires
        blocknum == blocknum_add(s.blocknum_ack, 1),
    ensures
        ({
            let first = data_outcome(s, blocknum, payload);
            let second = data_outcome(first.session, blocknum, payload);
            &&& first.step.write is Some
            &&& first.session.blocknum_ack == blocknum
            &&& second.step.write is None
            &&& second.session.blocknum_ack == blocknum
            &&& second.session.lastch == first.session.lastch
            &&& second.session.rollover == first.session.rollover
            &&& second.step.send matches Some(packet) ==> packet == ack_bytes(blocknum)
        }),
{
}

/// A DATA packet with any block number but the expected one is not
/// written, and the last block taken stays as it is.
pub proof fn lemma_unexpected_data(s: SessionView, blocknum: u16, payload: Seq<u8>)
    requires
        blocknum != blocknum_add(s.blocknum_ack, 1),
    ensures
        data_outcome(s, blocknum, payload).step.write is None,
        data_outcome(s, blocknum, payload).session.blocknum_ack == s.blocknum_ack,
        data_outcome(s, blocknum, payload).session.lastch == s.lastch,
        data_outcome(s, blocknum, payload).step.send matches Some(packet) ==> packet == ack_bytes(
            s.blocknum_ack,
        ),
{
}

/// An ACK of a block outside the window changes nothing and is followed by
/// a wait.
pub proof fn lemma_unexpected_ack(s: SessionView, blocknum: u16)
    requires
        blocknum != 0 || s.rollover != 0,
        !in_window(s.blocknum_ack, s.options.windowsize(), blocknum),
    ensures
        ack_outcome(s, blocknum) == (Outcome { session: s, step: wait_step() }),
{
}

/// Handles an ACK packet, from behind its opcode.
pub fn handle_ack(session: &mut TftpSession, ack: &mut Bytes) -> (r: Result<Step, Error>)
    ensures
        contents(*old(ack)).len() < 2 ==> (r matches Err(Error::InvalidPacketLength))
            && final(session)@ == old(session)@,
        contents(*old(ack)).len() >= 2 ==> (r matches Ok(step) && (Outcome {
            session: final(session)@,
            step: step@,
        }) == ack_outcome(old(session)@, be16(contents(*old(ack))[0], contents(*old(ack))[1]))),
{
    let blocknum = match packet::parse_blocknum(ack) {
        Ok(blocknum) => blocknum,
        Err(e) => {
            return Err(e);
        },
    };
    if blocknum != 0 || session.rollover() != 0 {
        if !session.blocknum_expect(blocknum) {
            return Ok(Step { write: None, send: None, next: Next::Receive });
        }
        session.set_blocknum_ack(blocknum);
        if session.sent_completed() {
            return Ok(Step { write: None, send: None, next: Next::Complete });
        }
    }
    let blocknum_start = session.blocknum_ack();
    let (reader_pos, lastch) = session.window_start(blocknum_start);
    Ok(Step { write: None, send: None, next: Next::Read { blocknum_start, reader_pos, lastch } })
}

/// Handles a DATA packet, from behind its opcode.
pub fn handle_data(session: &mut TftpSession, data: &mut Bytes) -> (r: Result<Step, Error>)
    requires
        old(session)@.received_data < u16::MAX,
        old(session)@.rollover < u32::MAX,
    ensures
        contents(*old(data)).len() < 2 ==> (r matches Err(Error::InvalidPacketLength))
            && final(session)@ == old(session)@,
        contents(*old(data)).len() >= 2 ==> (r matches Ok(step) && (Outcome {
            session: final(session)@,
            step: step@,
        }) == data_outcome(
            old(session)@,
            be16(contents(*old(data))[0], contents(*old(data))[1]),
            contents(*old(data)).skip(2),
        )),
{
    let blocknum = match packet::parse_blocknum(data) {
        Ok(blocknum) => blocknum,
        Err(e) => {
            return Err(e);
        },
    };
    let blocknum_expect = session.blocknum_ack_add(1);
    if blocknum_expect < blocknum {
        let packet = session.send_ack();
        session.received_data_clear();
        Ok(Step { write: None, send: Some(packet), next: Next::Receive })
    } else if blocknum_expect == blocknum {
        session.received_data_inc();
        if blocknum_expect == ROLLOVER {
            session.rollover_add(1);
        }
        let (write, _, lastch) = session.write(buffer::as_slice(data));
        session.set_lastch(lastch);
        session.set_blocknum_ack(blocknum);
        if buffer::len(data) < session.options().blksize() {
            let packet = session.send_ack();
            Ok(Step { write: Some(write), send: Some(packet), next: Next::Complete })
        } else if session.received_data_last() {
            let packet = session.send_ack();
            session.received_data_clear();
            Ok(Step { write: Some(write), send: Some(packet), next: Next::Receive })
        } else {
            Ok(Step { write: Some(write), send: None, next: Next::Receive })
        }
    } else {
        Ok(Step { write: None, send: None, next: Next::Receive })
    }
}

/// Handles an ERROR packet, from behind its opcode: the peer has ended
/// the transfer, and the step hands on what it said.
pub fn handle_error(session: &mut TftpSession, error: &mut Bytes) -> (r: Result<Step, Error>)
    ensures
        final(session)@ == old(session)@,
        r matches Ok(step) ==> parsed_error(contents(*old(error))) matches Some(e) && step@ == (
        StepView { write: None, send: None, next: NextView::Refused(e) }),
        r matches Err(e) ==> parsed_error(contents(*old(error))) is None && error_failure(
            contents(*old(error)),
            e,
        ),
{
    match packet::parse_error(error) {
        Ok(e) => Ok(Step { write: None, send: None, next: Next::Refused(e) }),
        Err(e) => Err(e),
    }
}

/// Handles an OACK packet, from behind its opcode. `req_code` is the kind
/// of the request that the OACK answers.
pub fn handle_oack(session: &mut TftpSession, req_code: &OpCode, oack: &mut Bytes) -> (r: Result<
    Step,
    Error,
>)
    ensures
        r matches Ok(step) && (Outcome { session: final(session)@, step: step@ }) == oack_outcome(
            old(session)@,
            *req_code,
            parse_options(contents(*old(oack))),
        ),
{
    let options = match packet::parse_oack(oack) {
        Ok(options) => options,
        Err(e) => {
            return Err(e);
        },
    };
    session.set_options(options);
    match req_code {
        OpCode::Wrq => {
            let (reader_pos, lastch) = session.window_start(0);
            Ok(
                Step {
                    write: None,
                    send: None,
                    next: Next::Read { blocknum_start: 0, reader_pos, lastch },
                },
            )
        },
        _ => {
            let packet = session.send_ack();
            Ok(Step { write: None, send: Some(packet), next: Next::Receive })
        },
    }
}

/// Handles one packet: reads its opcode and hands the rest to the handler
/// of its kind. A request, an unknown kind, and an OACK that is not the
/// first packet of the session are refused.
pub fn handle_packet(req_code: &OpCode, session: &mut TftpSession, buf: Bytes) -> (r: Result<
    Step,
    Error,
>)
    requires
        old(session)@.received_data < u16::MAX,
        old(session)@.rollover < u32::MAX,
    ensures
        r matches Ok(step) ==> packet_outcome(old(session)@, *req_code, contents(buf)) == Some(
            Outcome { session: final(session)@, step: step@ },
        ),
        r matches Err(e) ==> packet_outcome(old(session)@, *req_code, contents(buf)) is None
            && packet_failure(contents(buf), e) && final(session)@ == (
        SessionView { fresh: false, ..old(session)@ }),
{
    let ghost whole = contents(buf);
    let mut buf = buf;
    let fresh = session.fresh();
    session.set_started();
    let op_code = match packet::parse_opcode(&mut buf) {
        Ok(Some(op_code)) => op_code,
        Ok(None) => {
            return Err(Error::InvalidOpCode);
        },
        Err(e) => {
            return Err(e);
        },
    };
    proof {
        if whole.len() >= 4 {
            assert(whole.skip(2).skip(2) =~= whole.skip(4));
        }
    }
    match op_code {
        OpCode::Ack => handle_ack(session, &mut buf),
        OpCode::Data => handle_data(session, &mut buf),
        OpCode::Oack => {
            if fresh {
                handle_oack(session, req_code, &mut buf)
            } else {
                Err(Error::InvalidOpCode)
            }
        },
        OpCode::Error => handle_error(session, &mut buf),
        _ => Err(Error::InvalidOpCode),
    }
}

} // verus!
