//! The sequencing of requests and responses. A session decides what to do
//! next; the caller performs it (builds, encodes, sends, receives, checks)
//! and reports back. Requests carry their sequence number as a marker.
use vstd::prelude::*;

verus! {

/// Why a run was aborted.
#[derive(Clone, Copy, Debug, PartialEq, Eq, Structural)]
pub enum RunError {
    /// The workload found the response wrong.
    IncorrectResponse,
    /// A response arrived for another request than the one outstanding.
    OutOfOrder,
}

impl RunError {
    /// The fixed text that a run aborts with.
    pub fn message(&self) -> (r: &'static str)
        ensures
            *self == RunError::IncorrectResponse ==> r@ == "Incorrect response."@,
            *self == RunError::OutOfOrder ==> r@ == "Response out of order."@,
    {
        match self {
            RunError::IncorrectResponse => "Incorrect response.",
            RunError::OutOfOrder => "Response out of order.",
        }
    }
}

/// What the producing side does next.
#[derive(Clone, Copy, Debug, PartialEq, Eq, Structural)]
pub enum ClientAction {
    /// Build request number `k` and send it.
    Send(u64),
    /// Obtain and check the response to request number `k`.
    Await(u64),
    /// All iterations passed.
    Finish,
}

/// The producing side of a run of `total` iterations: at most one request is
/// outstanding, and a response is checked before the next request is built.
#[derive(Clone, Copy, Debug, PartialEq, Eq, Structural)]
pub struct ClientSession {
    pub total: u64,
    /// Requests sent so far.
    pub sent: u64,
    /// Responses found correct so far.
    pub validated: u64,
}

impl ClientSession {
    pub open spec fn wf(&self) -> bool {
        self.validated <= self.sent <= self.total && self.sent <= self.validated + 1
    }

    pub open spec fn spec_next(&self) -> ClientAction {
        if self.sent > self.validated {
            ClientAction::Await(self.validated)
        } else if self.validated == self.total {
            ClientAction::Finish
        } else {
            ClientAction::Send(self.sent)
        }
    }

    /// The session and result after a response with `marker` was checked.
    pub open spec fn spec_on_response(&self, marker: u64, correct: bool) -> (ClientSession, Result<(), RunError>) {
        if marker != self.validated {
            (*self, Err(RunError::OutOfOrder))
        } else if !correct {
            (*self, Err(RunError::IncorrectResponse))
        } else {
            (ClientSession { validated: (self.validated + 1) as u64, ..*self }, Ok(()))
        }
    }

    pub fn new(total: u64) -> (r: ClientSession)
        ensures
            r.wf(),
            r == (ClientSession { total, sent: 0, validated: 0 }),
    {
        ClientSession { total, sent: 0, validated: 0 }
    }

    pub fn next_action(&self) -> (r: ClientAction)
        requires
            self.wf(),
        ensures
            r == self.spec_next(),
    {
        if self.sent > self.validated {
            ClientAction::Await(self.validated)
        } else if self.validated == self.total {
            ClientAction::Finish
        } else {
            ClientAction::Send(self.sent)
        }
    }

    /// Records that the request that `next_action` asked for was sent.
    pub fn on_sent(&mut self)
        requires
            old(self).wf(),
            old(self).spec_next() is Send,
        ensures
            final(self).wf(),
            *final(self) == (ClientSession { sent: (old(self).sent + 1) as u64, ..*old(self) }),
    {
        self.sent = self.sent + 1;
    }

    /// Records the response to the outstanding request: its `marker` and
    /// whether the workload found it `correct`. Any other response aborts.
    pub fn on_response(&mut self, marker: u64, correct: bool) -> (r: Result<(), RunError>)
        requires
            old(self).wf(),
            old(self).spec_next() is Await,
        ensures
            final(self).wf(),
            (*final(self), r) == old(self).spec_on_response(marker, correct),
    {
        if marker != self.validated {
            Err(RunError::OutOfOrder)
        } else if !correct {
            Err(RunError::IncorrectResponse)
        } else {
            self.validated = self.validated + 1;
            Ok(())
        }
    }
}

/// What the consuming side does next.
#[derive(Clone, Copy, Debug, PartialEq, Eq, Structural)]
pub enum ServerAction {
    /// Read and decode request number `k`.
    Receive(u64),
    /// Build the response to request number `k` and send it, flushed.
    Respond(u64),
    /// All iterations were served.
    Finish,
}

/// The consuming side of a run of `total` iterations: it answers each
/// request before it reads the next.
#[derive(Clone, Copy, Debug, PartialEq, Eq, Structural)]
pub struct ServerSession {
    pub total: u64,
    /// Requests decoded so far.
    pub received: u64,
    /// Responses sent so far.
    pub answered: u64,
}

impl ServerSession {
    pub open spec fn wf(&self) -> bool {
        self.answered <= self.received <= self.total && self.received <= self.answered + 1
    }

    pub open spec fn spec_next(&self) -> ServerAction {
        if self.received > self.answered {
            ServerAction::Respond(self.answered)
        } else if self.answered == self.total {
            ServerAction::Finish
        } else {
            ServerAction::Receive(self.received)
        }
    }

    pub fn new(total: u64) -> (r: ServerSession)
        ensures
            r.wf(),
            r == (ServerSession { total, received: 0, answered: 0 }),
    {
        ServerSession { total, received: 0, answered: 0 }
    }

    pub fn next_action(&self) -> (r: ServerAction)
        requires
            self.wf(),
        ensures
            r == self.spec_next(),
    {
        if self.received > self.answered {
            ServerAction::Respond(self.answered)
        } else if self.answered == self.total {
            ServerAction::Finish
        } else {
            ServerAction::Receive(self.received)
        }
    }

    /// Records that the request that `next_action` asked for was decoded.
    pub fn on_received(&mut self)
        requires
            old(self).wf(),
            old(self).spec_next() is Receive,
        ensures
            final(self).wf(),
            *final(self) == (ServerSession { received: (old(self).received + 1) as u64, ..*old(self) }),
    {
        self.received = self.received + 1;
    }

    /// Records that the response to the outstanding request was sent.
    pub fn on_responded(&mut self)
        requires
            old(self).wf(),
            old(self).spec_next() is Respond,
        ensures
            final(self).wf(),
            *final(self) == (ServerSession { answered: (old(self).answered + 1) as u64, ..*old(self) }),
    {
        self.answered = self.answered + 1;
    }
}

/// The client session and result after the responses `rs` (marker and
/// verdict, in order of arrival), each one awaited after the request that
/// `next_action` asked for was sent. A run stops at its first error.
pub open spec fn client_after(total: u64, rs: Seq<(u64, bool)>) -> (ClientSession, Result<(), RunError>)
    decreases rs.len(),
{
    if rs.len() == 0 {
        (ClientSession { total, sent: 0, validated: 0 }, Ok(()))
    } else {
        let (s, r) = client_after(total, rs.drop_last());
        if r is Err || s.spec_next() is Finish {
            (s, r)
        } else {
            ClientSession { sent: (s.sent + 1) as u64, ..s }.spec_on_response(rs.last().0, rs.last().1)
        }
    }
}

/// Whether the `i`-th response carries the marker of the `i`-th request and
/// was found correct, for every response in `rs`.
pub open spec fn all_in_step(rs: Seq<(u64, bool)>) -> bool {
    forall|i: int| 0 <= i < rs.len() ==> #[trigger] rs[i] == (i as u64, true)
}

/// A run of at most `total` responses succeeds exactly when the `k`-th
/// response answers the `k`-th request and is correct, for every `k`; it
/// then has sent and validated one request per response, and it finishes
/// exactly when it has had `total` of them.
pub proof fn lemma_client_run(total: u64, rs: Seq<(u64, bool)>)
    requires
        rs.len() <= total,
    ensures
        client_after(total, rs).1 is Ok <==> all_in_step(rs),
        client_after(total, rs).0.wf(),
        all_in_step(rs) ==> client_after(total, rs).0 == (ClientSession {
            total,
            sent: rs.len() as u64,
            validated: rs.len() as u64,
        }),
        all_in_step(rs) ==> (client_after(total, rs).0.spec_next() is Finish <==> rs.len() == total),
    decreases rs.len(),
{
    if rs.len() > 0 {
        let p = rs.drop_last();
        lemma_client_run(total, p);
        if all_in_step(rs) {
            assert forall|i: int| 0 <= i < p.len() implies #[trigger] p[i] == (i as u64, true) by {
                assert(rs[i] == (i as u64, true));
            }
            assert(rs[rs.len() - 1] == ((rs.len() - 1) as u64, true));
        } else if all_in_step(p) {
            let i = choose|i: int| 0 <= i < rs.len() && #[trigger] rs[i] != (i as u64, true);
            if i < p.len() {
                assert(p[i] == rs[i]);
            }
        }
    }
}

/// With no iterations a client finishes at once, without a request.
pub proof fn lemma_client_no_iterations()
    ensures
        client_after(0, Seq::empty()).0.spec_next() == ClientAction::Finish,
{
}

/// With no iterations a server finishes at once, without reading.
pub proof fn lemma_server_no_iterations()
    ensures
        (ServerSession { total: 0, received: 0, answered: 0 }).spec_next() == ServerAction::Finish,
{
}

/// A response that answers the outstanding request but is wrong ends the run
/// with `IncorrectResponse`, whatever came before it in step.
pub proof fn lemma_mismatch_aborts(total: u64, rs: Seq<(u64, bool)>)
    requires
        rs.len() <= total,
        rs.len() > 0,
        all_in_step(rs.drop_last()),
        rs.last() == ((rs.len() - 1) as u64, false),
    ensures
        client_after(total, rs).1 == Err::<(), RunError>(RunError::IncorrectResponse),
{
    lemma_client_run(total, rs.drop_last());
}

/// A client awaits only the response to the request it sent last, with no
/// other request outstanding; a server responds only to the request it
/// received last, with none other unanswered.
pub proof fn lemma_lockstep(c: ClientSession, s: ServerSession, k: u64)
    requires
        c.wf(),
        s.wf(),
    ensures
        c.spec_next() == ClientAction::Await(k) ==> c.sent == k + 1 && c.validated == k,
        c.spec_next() is Send ==> c.sent == c.validated,
        s.spec_next() == ServerAction::Respond(k) ==> s.received == k + 1 && s.answered == k,
        s.spec_next() is Receive ==> s.received == s.answered,
{
}

} // verus!
