//! The session coordinator: it owns the sequence counter, the receive buffer
//! and the table of requests in flight, and decides what each inbound frame
//! and each outbound intent leads to. Whoever drives the session moves the
//! bytes and runs the handlers; every decision is taken here.

use vstd::prelude::*;
use vstd::string::StringExecFns;
use std::collections::BTreeMap;
use crate::error::ProtocolError;
use crate::frame::FrameType;
use crate::packet::{frame_bytes, next_seq, PackageSender};
use crate::reader::{next_frame, FramePoll, PackageReceiver};
use crate::schema::{
    parse_request, parse_update, request_bytes, response_bytes, update_bytes, Request, Response,
    ResponseModel, Status, Update,
};

verus! {

broadcast use vstd::std_specs::btree::group_btree_axioms, vstd::laws_cmp::group_laws_cmp;

/// What an inbound frame leads to.
pub enum Inbound<W> {
    /// No whole frame has arrived yet.
    Pending,
    /// The response to a request in flight: its waiter, and the payload to hand it.
    Deliver(W, Vec<u8>),
    /// A request to answer, with the sequence id that the response must carry.
    Request(u8, Request),
    /// A one-way notification.
    Update(Update),
}

/// What an inbound frame leads to, over plain values.
pub enum InboundModel<W> {
    Pending,
    Deliver(W, Seq<u8>),
    Request(u8, Request),
    Update(Update),
    Fail(ProtocolError),
}

/// The outcome of the next inbound step, given the waiters in flight and the
/// received bytes: the outcome, the waiters after it and the bytes left.
pub open spec fn inbound_step<W>(waiters: Map<u8, W>, buf: Seq<u8>) -> (
    InboundModel<W>,
    Map<u8, W>,
    Seq<u8>,
) {
    match next_frame(buf) {
        FramePoll::Incomplete => (InboundModel::Pending, waiters, buf),
        FramePoll::Malformed => (InboundModel::Fail(ProtocolError::MalformedFrame), waiters, buf),
        FramePoll::Ready(typ, seq_id, payload, rest) => match typ {
            FrameType::Response => if waiters.contains_key(seq_id) {
                (InboundModel::Deliver(waiters[seq_id], payload), waiters.remove(seq_id), rest)
            } else {
                (InboundModel::Fail(ProtocolError::UnknownSequence), waiters, rest)
            },
            FrameType::Request => match parse_request(payload) {
                Some(r) => (InboundModel::Request(seq_id, r), waiters, rest),
                None => (InboundModel::Fail(ProtocolError::DecodeFailure), waiters, rest),
            },
            FrameType::Notify => match parse_update(payload) {
                Some(u) => (InboundModel::Update(u), waiters, rest),
                None => (InboundModel::Fail(ProtocolError::DecodeFailure), waiters, rest),
            },
        },
    }
}

pub open spec fn inbound_model<W>(r: Result<Inbound<W>, ProtocolError>) -> InboundModel<W> {
    match r {
        Ok(Inbound::Pending) => InboundModel::Pending,
        Ok(Inbound::Deliver(w, p)) => InboundModel::Deliver(w, p@),
        Ok(Inbound::Request(s, q)) => InboundModel::Request(s, q),
        Ok(Inbound::Update(u)) => InboundModel::Update(u),
        Err(e) => InboundModel::Fail(e),
    }
}

/// An outbound intent handed to the session: a request with the waiter of its
/// response, or a notification.
pub enum Notice<W> {
    RequestTask(Request, W),
    UpdateTask(Update),
}

/// The response sent for a request whose handler returned `result`: the
/// handler's response, or on an error an `InternalError` carrying its text.
pub open spec fn answer_for(result: Result<Response, String>) -> ResponseModel {
    match result {
        Ok(rsp) => rsp@,
        Err(msg) => ResponseModel { status: Status::InternalError, error: msg@, list_projects: None },
    }
}

/// The text of the response sent where this side answers no requests.
pub open spec fn unsupported_text() -> Seq<char> {
    "This side does not process requests."@
}

/// One side of a session: `W` is whatever waits for a response.
pub struct BidirectStream<W> {
    sender: PackageSender,
    receiver: PackageReceiver,
    requests: BTreeMap<u8, W>,
}

impl<W> BidirectStream<W> {
    /// The last sequence id handed out.
    pub closed spec fn last_seq(&self) -> u8 {
        self.sender.last_seq()
    }

    /// The bytes received and not yet read.
    pub closed spec fn buffered(&self) -> Seq<u8> {
        self.receiver@
    }

    /// The requests in flight: sequence id to waiter.
    pub closed spec fn waiters(&self) -> Map<u8, W> {
        self.requests@
    }

    /// No request in flight holds the reserved id 0.
    pub open spec fn wf(&self) -> bool {
        forall|k: u8| #[trigger] self.waiters().contains_key(k) ==> k != 0
    }

    pub fn new() -> (r: BidirectStream<W>)
        ensures
            r.wf(),
            r.last_seq() == 0,
            r.buffered() == Seq::<u8>::empty(),
            r.waiters() == Map::<u8, W>::empty(),
    {
        let r = BidirectStream {
            sender: PackageSender::new(),
            receiver: PackageReceiver::new(),
            requests: BTreeMap::new(),
        };
        assert(r.waiters() =~= Map::<u8, W>::empty());
        r
    }

    /// Appends a buffer that the transport delivered.
    pub fn receive(&mut self, bytes: Vec<u8>)
        requires
            old(self).wf(),
        ensures
            final(self).wf(),
            final(self).buffered() == old(self).buffered() + bytes@,
            final(self).waiters() == old(self).waiters(),
            final(self).last_seq() == old(self).last_seq(),
    {
        self.receiver.push(bytes);
        assert(self.waiters() == old(self).waiters());
    }

    /// Reads the next inbound frame and decides what it leads to. A response
    /// goes to the waiter of its sequence id, which leaves the table; a response
    /// that no request waits for, an unknown frame type or a payload that does
    /// not decode fails the session.
    pub fn next_inbound(&mut self) -> (r: Result<Inbound<W>, ProtocolError>)
        requires
            old(self).wf(),
        ensures
            final(self).wf(),
            final(self).last_seq() == old(self).last_seq(),
            inbound_model(r) == inbound_step(old(self).waiters(), old(self).buffered()).0,
            r is Ok ==> final(self).waiters() == inbound_step(
                old(self).waiters(),
                old(self).buffered(),
            ).1 && final(self).buffered() == inbound_step(
                old(self).waiters(),
                old(self).buffered(),
            ).2,
            r is Err ==> final(self).waiters() == old(self).waiters(),
    {
        let ghost w0 = self.waiters();
        let (typ, seq_id, msg) = match self.receiver.read_package() {
            Ok(Some(x)) => x,
            Ok(None) => return Ok(Inbound::Pending),
            Err(e) => return Err(e),
        };
        match typ {
            FrameType::Response => match self.requests.remove(&seq_id) {
                Some(w) => {
                    assert(self.waiters() =~= w0.remove(seq_id));
                    Ok(Inbound::Deliver(w, msg))
                },
                None => Err(ProtocolError::UnknownSequence),
            },
            FrameType::Request => match Request::decode(msg.as_slice()) {
                Some(req) => Ok(Inbound::Request(seq_id, req)),
                None => Err(ProtocolError::DecodeFailure),
            },
            FrameType::Notify => match Update::decode(msg.as_slice()) {
                Some(upd) => Ok(Inbound::Update(upd)),
                None => Err(ProtocolError::DecodeFailure),
            },
        }
    }

    /// Sends a request: hands out the next sequence id, records the waiter
    /// under it, and returns the id with the frame to write. Where that id
    /// still belongs to a request in flight, nothing changes and the waiter is
    /// dropped.
    pub fn send_request(&mut self, req: &Request, waiter: W) -> (r: Result<
        (u8, Vec<u8>),
        ProtocolError,
    >)
        requires
            old(self).wf(),
        ensures
            final(self).wf(),
            final(self).buffered() == old(self).buffered(),
            r is Err <==> old(self).waiters().contains_key(next_seq(old(self).last_seq())),
            r matches Err(e) ==> e == ProtocolError::SequenceInUse && final(self).waiters()
                == old(self).waiters() && final(self).last_seq() == old(self).last_seq(),
            r matches Ok((s, b)) ==> s == next_seq(old(self).last_seq()) && final(self).last_seq()
                == s && final(self).waiters() == old(self).waiters().insert(s, waiter) && b@
                == frame_bytes(FrameType::Request, s, request_bytes(*req)),
    {
        let next = self.sender.peek_seq_id();
        if self.requests.contains_key(&next) {
            return Err(ProtocolError::SequenceInUse);
        }
        let payload = req.encode();
        proof {
            crate::wire::lemma_varint_len_u64(crate::schema::TAG_REQUEST_LIST);
            crate::wire::lemma_varint_len_u64(0);
        }
        let seq_id = self.sender.next_seq_id();
        let bytes = PackageSender::write_package(FrameType::Request, seq_id, &payload).unwrap();
        self.requests.insert(seq_id, waiter);
        assert forall|k: u8| #[trigger] self.waiters().contains_key(k) implies k != 0 by {
            if k != seq_id {
                assert(old(self).waiters().contains_key(k));
            }
        }
        Ok((seq_id, bytes))
    }

    /// Sends a notification: it takes the next sequence id too, and nothing
    /// waits for an answer.
    pub fn send_update(&mut self, upd: &Update) -> (r: (u8, Vec<u8>))
        requires
            old(self).wf(),
        ensures
            final(self).wf(),
            final(self).buffered() == old(self).buffered(),
            final(self).waiters() == old(self).waiters(),
            r.0 == next_seq(old(self).last_seq()),
            final(self).last_seq() == r.0,
            r.1@ == frame_bytes(FrameType::Notify, r.0, update_bytes(*upd)),
    {
        let payload = upd.encode();
        let seq_id = self.sender.next_seq_id();
        let bytes = PackageSender::write_package(FrameType::Notify, seq_id, &payload).unwrap();
        assert(self.waiters() == old(self).waiters());
        (seq_id, bytes)
    }

    /// Carries out an outbound intent; the bytes returned are the frame to write.
    pub fn handle_notice(&mut self, notice: Notice<W>) -> (r: Result<Vec<u8>, ProtocolError>)
        requires
            old(self).wf(),
        ensures
            final(self).wf(),
            final(self).buffered() == old(self).buffered(),
            match notice {
                Notice::RequestTask(req, w) => {
                    &&& r is Err <==> old(self).waiters().contains_key(
                        next_seq(old(self).last_seq()),
                    )
                    &&& r matches Err(e) ==> e == ProtocolError::SequenceInUse
                        && final(self).waiters() == old(self).waiters()
                        && final(self).last_seq() == old(self).last_seq()
                    &&& r matches Ok(b) ==> {
                        let s = next_seq(old(self).last_seq());
                        &&& final(self).last_seq() == s
                        &&& final(self).waiters() == old(self).waiters().insert(s, w)
                        &&& b@ == frame_bytes(FrameType::Request, s, request_bytes(req))
                    }
                },
                Notice::UpdateTask(upd) => {
                    let s = next_seq(old(self).last_seq());
                    &&& r matches Ok(b) && b@ == frame_bytes(FrameType::Notify, s, update_bytes(upd))
                    &&& final(self).last_seq() == s
                    &&& final(self).waiters() == old(self).waiters()
                },
            },
    {
        match notice {
            Notice::RequestTask(req, w) => match self.send_request(&req, w) {
                Ok((_, bytes)) => Ok(bytes),
                Err(e) => Err(e),
            },
            Notice::UpdateTask(upd) => {
                let (_, bytes) = self.send_update(&upd);
                Ok(bytes)
            },
        }
    }

    /// Takes every waiter still in flight, so that each can be told that no
    /// response will come; the table is then empty.
    pub fn abort_all(&mut self) -> (r: BTreeMap<u8, W>)
        requires
            old(self).wf(),
        ensures
            final(self).wf(),
            r@ == old(self).waiters(),
            final(self).waiters() == Map::<u8, W>::empty(),
            final(self).buffered() == old(self).buffered(),
            final(self).last_seq() == old(self).last_seq(),
    {
        let mut taken: BTreeMap<u8, W> = BTreeMap::new();
        std::mem::swap(&mut taken, &mut self.requests);
        assert(self.waiters() =~= Map::<u8, W>::empty());
        taken
    }
}

/// The response to send for a request whose handler returned `result`.
pub fn answer(result: Result<Response, String>) -> (r: Response)
    ensures
        r@ == answer_for(result),
{
    match result {
        Ok(rsp) => rsp,
        Err(msg) => Response { status: Status::InternalError, error: msg, list_projects: None },
    }
}

/// The response frame for the request that came with `seq_id`, whose handler
/// returned `result`. Fails only where the encoded response does not fit a frame.
pub fn respond(seq_id: u8, result: Result<Response, String>) -> (r: Result<Vec<u8>, ProtocolError>)
    ensures
        response_bytes(answer_for(result)).len() <= 65535 <==> r is Ok,
        r matches Ok(b) ==> b@ == frame_bytes(FrameType::Response, seq_id, response_bytes(answer_for(result))),
        r matches Err(e) ==> e == ProtocolError::PayloadTooLarge,
{
    let rsp = answer(result);
    let payload = rsp.encode();
    PackageSender::send_response(seq_id, &payload)
}

/// The response frame for the request that came with `seq_id` on a side
/// with no request handler: a `NotImplemented` response. Fails only where it
/// does not fit a frame.
pub fn respond_unhandled(seq_id: u8) -> (r: Result<Vec<u8>, ProtocolError>)
    ensures
        response_bytes(unsupported_response()).len() <= 65535 <==> r is Ok,
        r matches Ok(b) ==> b@ == frame_bytes(FrameType::Response, seq_id, response_bytes(unsupported_response())),
        r matches Err(e) ==> e == ProtocolError::PayloadTooLarge,
{
    respond(seq_id, Ok(unsupported()))
}

/// The response on a side that answers no requests.
pub open spec fn unsupported_response() -> ResponseModel {
    ResponseModel { status: Status::NotImplemented, error: unsupported_text(), list_projects: None }
}

/// The response for a request on a side that answers none.
pub fn unsupported() -> (r: Response)
    ensures
        r@ == unsupported_response(),
{
    Response {
        status: Status::NotImplemented,
        error: String::from_str("This side does not process requests."),
        list_projects: None,
    }
}

/// A response, once its request is in flight, goes to that request's waiter,
/// which leaves the table; a second response with the same sequence id then
/// fails the session. So each request gets at most one response, and a
/// response for a sequence id that no request of this side holds is refused.
pub proof fn lemma_response_delivered_once<W>(
    waiters: Map<u8, W>,
    s: u8,
    w: W,
    payload: Seq<u8>,
    again: Seq<u8>,
    rest: Seq<u8>,
)
    requires
        !waiters.contains_key(s),
        payload.len() <= 65535,
        again.len() <= 65535,
    ensures
        ({
            let m = waiters.insert(s, w);
            let (out, m2, left) = inbound_step(m, frame_bytes(FrameType::Response, s, payload)
                + frame_bytes(FrameType::Response, s, again) + rest);
            &&& out == InboundModel::Deliver(w, payload)
            &&& m2 == waiters
            &&& left == frame_bytes(FrameType::Response, s, again) + rest
            &&& inbound_step(m2, left).0 == InboundModel::<W>::Fail(ProtocolError::UnknownSequence)
        }),
{
    let first = frame_bytes(FrameType::Response, s, payload);
    let second = frame_bytes(FrameType::Response, s, again);
    crate::reader::lemma_frame_round_trip(FrameType::Response, s, payload, second + rest);
    assert(first + second + rest =~= first + (second + rest));
    crate::reader::lemma_frame_round_trip(FrameType::Response, s, again, rest);
    assert(waiters.insert(s, w).remove(s) =~= waiters);
}

/// A response whose sequence id no request in flight holds fails the session.
pub proof fn lemma_unknown_sequence_fails<W>(
    waiters: Map<u8, W>,
    s: u8,
    payload: Seq<u8>,
    rest: Seq<u8>,
)
    requires
        !waiters.contains_key(s),
        payload.len() <= 65535,
    ensures
        inbound_step(waiters, frame_bytes(FrameType::Response, s, payload) + rest).0
            == InboundModel::<W>::Fail(ProtocolError::UnknownSequence),
{
    crate::reader::lemma_frame_round_trip(FrameType::Response, s, payload, rest);
}

/// A frame whose type byte is 3 fails the session, whatever follows it.
pub proof fn lemma_type_three_fails<W>(waiters: Map<u8, W>, b: Seq<u8>)
    requires
        b.len() >= 4,
        b[0] == 3,
    ensures
        inbound_step(waiters, b).0 == InboundModel::<W>::Fail(ProtocolError::MalformedFrame),
{
}

/// A whole exchange between two sides: the request frame that one side
/// writes reaches the other as that request with its sequence id; the
/// response frame written back with that id reaches the first side's waiter,
/// and its payload reads back as the response that was answered.
pub proof fn lemma_request_response_exchange<W, V>(
    client: Map<u8, W>,
    server: Map<u8, V>,
    s: u8,
    w: W,
    req: Request,
    rsp: ResponseModel,
)
    requires
        !client.contains_key(s),
        crate::schema::status_wf(rsp.status),
        response_bytes(rsp).len() <= 65535,
    ensures
        inbound_step(server, frame_bytes(FrameType::Request, s, request_bytes(req))) == (
            InboundModel::<V>::Request(s, req),
            server,
            Seq::<u8>::empty(),
        ),
        inbound_step(
            client.insert(s, w),
            frame_bytes(FrameType::Response, s, response_bytes(rsp)),
        ) == (InboundModel::Deliver(w, response_bytes(rsp)), client, Seq::<u8>::empty()),
        crate::schema::parse_response(response_bytes(rsp)) == Some(rsp),
{
    crate::schema::lemma_request_round_trip(req);
    assert(request_bytes(req).len() <= 2) by {
        crate::wire::lemma_varint_len_u64(crate::schema::TAG_REQUEST_LIST);
        crate::wire::lemma_varint_len_u64(0);
    }
    let qf = frame_bytes(FrameType::Request, s, request_bytes(req));
    crate::reader::lemma_frame_round_trip(FrameType::Request, s, request_bytes(req), seq![]);
    assert(qf + Seq::<u8>::empty() =~= qf);
    let rf = frame_bytes(FrameType::Response, s, response_bytes(rsp));
    crate::reader::lemma_frame_round_trip(FrameType::Response, s, response_bytes(rsp), seq![]);
    assert(rf + Seq::<u8>::empty() =~= rf);
    assert(client.insert(s, w).remove(s) =~= client);
    crate::schema::lemma_response_round_trip(rsp);
}

/// What happens to a session, one event at a time: a request handed to it
/// with its waiter, bytes received, or one inbound step.
pub enum SessionEvent<W> {
    Send(W),
    Receive(Seq<u8>),
    Step,
}

/// A session over plain values: the waiters in flight, the last sequence id
/// handed out and the bytes received and not yet read.
pub struct SessionModel<W> {
    pub waiters: Map<u8, W>,
    pub last: u8,
    pub buf: Seq<u8>,
}

/// One event, as `send_request`, `receive` and `next_inbound` carry it out:
/// the session after it, how many requests it refused, the waiters it handed
/// a response to, and whether it failed the session.
pub open spec fn session_step<W>(s: SessionModel<W>, e: SessionEvent<W>) -> (
    SessionModel<W>,
    nat,
    Seq<W>,
    bool,
) {
    match e {
        SessionEvent::Send(w) => {
            let n = next_seq(s.last);
            if s.waiters.contains_key(n) {
                (s, 1, seq![], false)
            } else {
                (SessionModel { waiters: s.waiters.insert(n, w), last: n, buf: s.buf }, 0, seq![], false)
            }
        },
        SessionEvent::Receive(bytes) => (
            SessionModel { buf: s.buf + bytes, ..s },
            0,
            seq![],
            false,
        ),
        SessionEvent::Step => {
            let (out, m, rest) = inbound_step(s.waiters, s.buf);
            match out {
                InboundModel::Deliver(w, _) => (
                    SessionModel { waiters: m, buf: rest, ..s },
                    0,
                    seq![w],
                    false,
                ),
                InboundModel::Fail(_) => (s, 0, seq![], true),
                _ => (SessionModel { waiters: m, buf: rest, ..s }, 0, seq![], false),
            }
        },
    }
}

/// A run of events: the session after it, the requests refused, the waiters
/// handed a response, and whether it failed. Once the session has failed it
/// takes no more events, and every request handed to it later is refused.
pub open spec fn session_run<W>(s: SessionModel<W>, evs: Seq<SessionEvent<W>>) -> (
    SessionModel<W>,
    nat,
    Seq<W>,
    bool,
)
    decreases evs.len(),
{
    if evs.len() == 0 {
        (s, 0, seq![], false)
    } else {
        let (s1, r1, d1, f1) = session_step(s, evs[0]);
        if f1 {
            (s1, r1 + sends(evs.drop_first()), d1, true)
        } else {
            let (s2, r2, d2, f2) = session_run(s1, evs.drop_first());
            (s2, r1 + r2, d1 + d2, f2)
        }
    }
}

/// The number of requests handed to the session in a run of events.
pub open spec fn sends<W>(evs: Seq<SessionEvent<W>>) -> nat
    decreases evs.len(),
{
    if evs.len() == 0 {
        0
    } else {
        (if evs[0] is Send { 1nat } else { 0nat }) + sends(evs.drop_first())
    }
}

/// Over any run, whether it ends normally or fails the session, every
/// request handed to the session is accounted for exactly once: refused (its
/// waiter dropped), answered (its waiter handed the response), or still in
/// flight, where `abort_all` hands its waiter back. So no waiter is left
/// waiting once the session ends.
pub proof fn lemma_every_waiter_resolved<W>(s: SessionModel<W>, evs: Seq<SessionEvent<W>>)
    requires
        s.waiters.dom().finite(),
    ensures
        ({
            let (f, refused, delivered, _) = session_run(s, evs);
            &&& f.waiters.dom().finite()
            &&& s.waiters.len() + sends(evs) == refused + delivered.len() + f.waiters.len()
        }),
    decreases evs.len(),
{
    if evs.len() > 0 {
        let (s1, r1, d1, f1) = session_step(s, evs[0]);
        assert(s1.waiters.dom().finite() && s.waiters.len() + (if evs[0] is Send { 1nat } else { 0nat })
            == r1 + d1.len() + s1.waiters.len()) by {
            match evs[0] {
                SessionEvent::Send(w) => {
                    let n = next_seq(s.last);
                    if !s.waiters.contains_key(n) {
                        assert(s.waiters.insert(n, w).dom() =~= s.waiters.dom().insert(n));
                    }
                },
                SessionEvent::Receive(_) => {},
                SessionEvent::Step => {
                    let (out, m, rest) = inbound_step(s.waiters, s.buf);
                    if out is Deliver {
                        let k = match next_frame(s.buf) {
                            FramePoll::Ready(_, seq_id, _, _) => seq_id,
                            _ => 0,
                        };
                        assert(m.dom() =~= s.waiters.dom().remove(k));
                    }
                },
            }
        }
        assert(sends(evs) == (if evs[0] is Send { 1nat } else { 0nat }) + sends(evs.drop_first()));
        if !f1 {
            lemma_every_waiter_resolved(s1, evs.drop_first());
        }
    }
}

} // verus!
