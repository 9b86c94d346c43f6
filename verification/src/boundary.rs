//! The guarded state container behind the foreign-call boundary: one
//! engine, the last response it produced, and the single outbound string
//! slot. The foreign glue wraps a container in its lock and hands these
//! operations plain bytes; everything the operations decide is stated
//! here.

use vstd::prelude::*;
use vstd::string::StringSliceAdditionalSpecFns;
use crate::engine::{EngineApi, Event, Response};
use crate::events::{decode_event, event_of};
use crate::json::{json_of_response, parse_action, response_json, spec_parse_action};

verus! {

/// Why a boundary payload was refused. The container is left unchanged
/// whenever one of these is returned.
#[derive(Clone, Copy, Debug, PartialEq, Eq, Structural)]
pub enum DecodeError {
    /// The action payload is not a canonical action encoding.
    BadAction,
    /// The event payload is not an event encoding of the host framework.
    BadEvent,
}

/// The state that persists behind one handle: the engine, the response
/// of the most recent action or event, and the most recent outbound
/// string. The foreign glue guards one of these with its lock, so every
/// operation here holds it exclusively.
pub struct UserData<E: EngineApi> {
    pub engine: E,
    pub last_response: Response,
    pub last_string: Vec<u8>,
}

impl<E: EngineApi> UserData<E> {
    pub open spec fn wf(&self) -> bool {
        self.engine.wf() && self.last_response.wf()
    }

    /// A fresh container around an engine: no response yet beyond the
    /// quiet default, and an empty outbound slot.
    pub fn new(engine: E) -> (r: UserData<E>)
        requires
            engine.wf(),
        ensures
            r.wf(),
            r.engine == engine,
            !r.last_response.shutdown_required,
            r.last_response.msgs@.len() == 0,
            r.last_response.tunnels@ == seq![0u8, 0u8, 0u8],
            r.last_string@.len() == 0,
    {
        UserData { engine, last_response: Response::default(), last_string: Vec::new() }
    }

    /// Decode one action payload and execute it. A payload outside the
    /// action grammar is refused, deterministically, with the container
    /// unchanged; an accepted one updates the last response with the
    /// turn's outcome and leaves the outbound slot alone.
    pub fn execute_inner(&mut self, body: &[u8]) -> (r: Result<Response, DecodeError>)
        requires
            old(self).wf(),
        ensures
            final(self).wf(),
            final(self).last_string == old(self).last_string,
            (r is Err) == (spec_parse_action(body@) is None),
            r is Err ==> r == Err::<Response, DecodeError>(DecodeError::BadAction) && *final(self)
                == *old(self),
            r matches Ok(resp) ==> final(self).last_response.shutdown_required
                == resp.shutdown_required && final(self).last_response.msgs@ == resp.msgs@
                && final(self).last_response.tunnels@ == resp.tunnels@ && resp.wf(),
            r is Ok ==> (spec_parse_action(body@) matches Some(a) && old(self).engine.execute_rel(
                a,
                final(self).engine,
                final(self).last_response,
            )),
    {
        match parse_action(body) {
            None => Err(DecodeError::BadAction),
            Some(action) => {
                let resp = self.engine.execute(action);
                self.last_response = resp;
                Ok(self.last_response.duplicate())
            },
        }
    }

    /// Decode one lifecycle event payload and let the engine take note
    /// of it. A payload the host framework's decoder refuses is refused
    /// here, with the container unchanged; the canonical fieldless
    /// encodings are always accepted.
    pub fn handle_event_inner(&mut self, body: &[u8]) -> (r: Result<Response, DecodeError>)
        requires
            old(self).wf(),
        ensures
            final(self).wf(),
            final(self).last_string == old(self).last_string,
            r is Err ==> r == Err::<Response, DecodeError>(DecodeError::BadEvent) && *final(self)
                == *old(self),
            r matches Ok(resp) ==> final(self).last_response.shutdown_required
                == resp.shutdown_required && final(self).last_response.msgs@ == resp.msgs@
                && final(self).last_response.tunnels@ == resp.tunnels@ && resp.wf(),
            (r is Err) == (event_of(body@) is None),
            event_of(body@) matches Some(ev) ==> old(self).engine.handle_event_rel(
                ev,
                final(self).engine,
                final(self).last_response,
            ),
            r is Ok ==> exists|ev: Event|
                old(self).engine.handle_event_rel(ev, final(self).engine, final(self).last_response),
            body@ == "\"Create\"".spec_bytes() ==> r is Ok && old(self).engine.handle_event_rel(
                Event::Create,
                final(self).engine,
                final(self).last_response,
            ),
            body@ == "\"SaveInstanceState\"".spec_bytes() ==> r is Ok
                && old(self).engine.handle_event_rel(
                Event::SaveInstanceState,
                final(self).engine,
                final(self).last_response,
            ),
            body@ == "\"Stop\"".spec_bytes() ==> r is Ok && old(self).engine.handle_event_rel(
                Event::Stop,
                final(self).engine,
                final(self).last_response,
            ),
    {
        match decode_event(body) {
            None => Err(DecodeError::BadEvent),
            Some(ev) => {
                let resp = self.engine.handle_event(&ev);
                self.last_response = resp;
                Ok(self.last_response.duplicate())
            },
        }
    }

    /// Produce the starting view and leave it in the outbound slot. The
    /// slot is never left empty, so a fresh handle always has markup to
    /// show.
    pub fn initial_html_inner(&mut self)
        requires
            old(self).wf(),
        ensures
            final(self).wf(),
            final(self).last_string@.len() > 0,
            final(self).last_string@ == old(self).engine.view_page(),
            final(self).last_response == old(self).last_response,
    {
        let html = self.engine.initial_html();
        self.last_string = html;
    }

    /// Encode the last response into the outbound slot. The engine and
    /// the response itself are untouched, so encoding twice in a row
    /// leaves the slot byte-identical.
    pub fn last_response_inner(&mut self)
        requires
            old(self).wf(),
        ensures
            final(self).wf(),
            final(self).engine == old(self).engine,
            final(self).last_response == old(self).last_response,
            final(self).last_string@ == json_of_response(old(self).last_response),
    {
        let j = response_json(&self.last_response);
        self.last_string = j;
    }

    /// The current outbound string, exactly as the last outbound-writing
    /// operation left it.
    pub fn last_string(&self) -> (r: &Vec<u8>)
        ensures
            r@ == self.last_string@,
    {
        &self.last_string
    }

    /// Whether the last response asked the host to shut down. Read-only.
    pub fn is_shutdown_required(&self) -> (r: bool)
        ensures
            r == self.last_response.shutdown_required,
    {
        self.last_response.shutdown_required()
    }
}

/// An accepted quit payload demands shutdown: when an execute call on
/// the bytes of the text `"Quit"` succeeds, the engine's execution
/// relation together with the decoded action forces the stored response
/// to require shutdown.
pub proof fn lemma_quit_payload_shuts_down(
    pre: UserData<crate::engine::Engine>,
    post: UserData<crate::engine::Engine>,
)
    requires
        spec_parse_action("\"Quit\"".spec_bytes()) matches Some(a) ==> pre.engine.execute_rel(
            a,
            post.engine,
            post.last_response,
        ),
    ensures
        post.last_response.shutdown_required,
{
    crate::json::lemma_quit_payload();
}

/// After a call whose outcome was the response `resp`, encoding the last
/// response fills the outbound slot with exactly the encoding of `resp`:
/// what `execute_inner` or `handle_event_inner` returned is what
/// `last_response_inner` then writes out.
pub proof fn lemma_outbound_reflects_outcome<E: EngineApi>(
    mid: UserData<E>,
    fin: UserData<E>,
    resp: Response,
)
    requires
        mid.last_response.shutdown_required == resp.shutdown_required,
        mid.last_response.msgs@ == resp.msgs@,
        mid.last_response.tunnels@ == resp.tunnels@,
        fin.last_response == mid.last_response,
        fin.last_string@ == json_of_response(mid.last_response),
    ensures
        fin.last_string@ == json_of_response(resp),
{
}

/// Encoding the last response is idempotent: once the outbound slot
/// holds the encoding of a response, encoding the same response again
/// leaves the slot byte-identical. Two containers that agree on the last
/// response and both hold its encoding hold the same bytes.
pub proof fn lemma_last_response_json_idempotent<E: EngineApi>(d1: UserData<E>, d2: UserData<E>)
    requires
        d1.last_string@ == json_of_response(d1.last_response),
        d2.last_response == d1.last_response,
        d2.last_string@ == json_of_response(d2.last_response),
    ensures
        d2.last_string@ == d1.last_string@,
{
}

} // verus!
