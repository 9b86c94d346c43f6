//! Decoding of lifecycle events. The encoding belongs to the host
//! framework, so the framework's own decoder is called; only its call is
//! trusted, and the boundary takes the decoded event from there.

use vstd::prelude::*;
use vstd::string::StringSliceAdditionalSpecFns;
use crate::engine::Event;

verus! {

/// What the host framework's decoder yields for an event payload. The
/// decoder is serde on fixed input bytes, so its result is a function of
/// the payload alone.
pub uninterp spec fn event_of(s: Seq<u8>) -> Option<Event>;

/// Relies on `narthex_engine_trait::Event::from_json`, which decodes an
/// event with serde from its externally tagged encoding; the canonical
/// encoding of each fieldless variant decodes to that variant, and a
/// payload that is not valid text or not a valid encoding is refused.
/// The state carried by a restore event is dropped: the engine reads
/// only the kind of the event.
#[verifier::external_body]
pub(crate) fn decode_event(s: &[u8]) -> (r: Option<Event>)
    ensures
        r == event_of(s@),
        s@ == "\"Create\"".spec_bytes() ==> r == Some(Event::Create),
        s@ == "\"SaveInstanceState\"".spec_bytes() ==> r == Some(Event::SaveInstanceState),
        s@ == "\"Stop\"".spec_bytes() ==> r == Some(Event::Stop),
{
    match core::str::from_utf8(s) {
        Err(_) => None,
        Ok(txt) => match narthex_engine_trait::Event::from_json(txt) {
            Err(_) => None,
            Ok(narthex_engine_trait::Event::Create) => Some(Event::Create),
            Ok(narthex_engine_trait::Event::SaveInstanceState) => Some(Event::SaveInstanceState),
            Ok(narthex_engine_trait::Event::RestoreInstanceState(_)) => Some(
                Event::RestoreInstanceState,
            ),
            Ok(narthex_engine_trait::Event::Stop) => Some(Event::Stop),
        },
    }
}

} // verus!
