//! The request registry: every request that the host has created, by
//! handle, with the phase it is in.
//!
//! An entry is under construction until it is launched, then awaits its
//! response, and is concluded once an outcome has been recorded. It never
//! moves backwards. Entries leave the registry only when the registry is
//! cleared, which also restarts the handles at zero; between two clearings
//! the registry holds exactly the handles that were issued.

use std::collections::HashMap;
use vstd::prelude::*;
use crate::codec::{decode_headers, decode_text};
use crate::error::Error;
use crate::handle::HandleAllocator;
use crate::request::{header_views, PendingRequest, RequestView};
use crate::response::{Outcome, OutcomeView};

verus! {

broadcast use vstd::std_specs::hash::group_hash_axioms;

/// The stage of an entry's life.
#[derive(Clone, Copy, Debug, PartialEq, Eq, Structural)]
pub enum Phase {
    /// Created and still open to changes.
    UnderConstruction,
    /// Handed to the transport; no outcome yet.
    AwaitingResponse,
    /// The outcome is in.
    Concluded,
}

/// An entry as plain mathematical values.
pub struct EntryView {
    pub handle: u64,
    pub phase: Phase,
    pub pending_request: Option<RequestView>,
    pub outcome: Option<OutcomeView>,
}

impl EntryView {
    /// The pending request is there exactly while the entry is under
    /// construction, and the outcome exactly once it is concluded. A
    /// pending request holds only header fields that can travel.
    pub open spec fn wf(self) -> bool {
        match self.phase {
            Phase::UnderConstruction => self.pending_request is Some && self.outcome is None
                && self.pending_request->0.wf(),
            Phase::AwaitingResponse => self.pending_request is None && self.outcome is None,
            Phase::Concluded => self.pending_request is None && self.outcome is Some,
        }
    }

    /// The entry that `create` makes.
    pub open spec fn fresh(handle: u64, request: RequestView) -> EntryView {
        EntryView {
            handle,
            phase: Phase::UnderConstruction,
            pending_request: Some(request),
            outcome: None,
        }
    }

    /// This entry with `fields` added to its pending request.
    pub open spec fn with_headers(self, fields: Seq<(Seq<char>, Seq<char>)>) -> EntryView {
        EntryView {
            pending_request: match self.pending_request {
                Some(request) => Some(request.with_headers(fields)),
                None => None,
            },
            ..self
        }
    }

    /// This entry with the body of its pending request replaced.
    pub open spec fn with_body(self, text: Seq<char>) -> EntryView {
        EntryView {
            pending_request: match self.pending_request {
                Some(request) => Some(request.with_body(text)),
                None => None,
            },
            ..self
        }
    }

    /// This entry after its request was taken for launch.
    pub open spec fn launched(self) -> EntryView {
        EntryView { phase: Phase::AwaitingResponse, pending_request: None, ..self }
    }

    /// This entry after `outcome` was recorded.
    pub open spec fn concluded(self, outcome: OutcomeView) -> EntryView {
        EntryView {
            phase: Phase::Concluded,
            pending_request: None,
            outcome: Some(outcome),
            ..self
        }
    }
}

/// One request of the registry.
#[derive(Debug)]
pub struct RequestEntry {
    handle: u64,
    phase: Phase,
    pending_request: Option<PendingRequest>,
    outcome: Option<Outcome>,
}

impl View for RequestEntry {
    type V = EntryView;

    closed spec fn view(&self) -> EntryView {
        EntryView {
            handle: self.handle,
            phase: self.phase,
            pending_request: match self.pending_request {
                Some(request) => Some(request@),
                None => None,
            },
            outcome: match self.outcome {
                Some(outcome) => Some(outcome@),
                None => None,
            },
        }
    }
}

impl RequestEntry {
    /// Whether the entry meets its invariant, the stored outcome included.
    pub closed spec fn wf(&self) -> bool {
        &&& self@.wf()
        &&& match self.outcome {
            Some(outcome) => outcome.wf(),
            None => true,
        }
    }

    /// The handle under which the entry is registered.
    pub fn handle(&self) -> (handle: u64)
        ensures
            handle == self@.handle,
    {
        self.handle
    }

    /// The phase the entry is in.
    pub fn phase(&self) -> (phase: Phase)
        ensures
            phase == self@.phase,
    {
        self.phase
    }

    /// The request as described so far, while the entry is under
    /// construction.
    pub fn pending_request(&self) -> (pending: Option<&PendingRequest>)
        ensures
            match pending {
                Some(request) => self@.pending_request == Some(request@),
                None => self@.pending_request is None,
            },
    {
        self.pending_request.as_ref()
    }

    /// The outcome, once the entry is concluded.
    pub fn outcome(&self) -> (recorded: Option<&Outcome>)
        ensures
            match recorded {
                Some(outcome) => self@.outcome == Some(outcome@) && (self.wf() ==> outcome.wf()),
                None => self@.outcome is None,
            },
    {
        self.outcome.as_ref()
    }
}

/// The registry as plain mathematical values: the handle that comes next
/// and the entries by handle.
pub struct RegistryView {
    pub next: nat,
    pub entries: Map<u64, EntryView>,
}

impl RegistryView {
    /// The registry holds exactly the handles issued so far, each entry
    /// under its own handle and in a consistent phase.
    pub open spec fn wf(self) -> bool {
        &&& self.next <= u64::MAX
        &&& forall|h: u64| #[trigger] self.entries.contains_key(h) <==> (h as nat) < self.next
        &&& forall|h: u64| #[trigger]
            self.entries.contains_key(h) ==> self.entries[h].handle == h && self.entries[h].wf()
    }

    /// The registry with no entries, about to issue handle zero.
    pub open spec fn empty() -> RegistryView {
        RegistryView { next: 0, entries: Map::empty() }
    }

    /// Whether `handle` was issued since the registry was last cleared.
    pub open spec fn issued(self, handle: u64) -> bool {
        (handle as nat) < self.next
    }

    /// Whether another request can be created.
    pub open spec fn has_room(self) -> bool {
        self.next < u64::MAX
    }

    /// The phase of the entry under `handle`, if there is one.
    pub open spec fn phase_of(self, handle: u64) -> Option<Phase> {
        if self.entries.contains_key(handle) {
            Some(self.entries[handle].phase)
        } else {
            None
        }
    }

    /// The registry with the entry under `handle` replaced.
    pub open spec fn with_entry(self, handle: u64, entry: EntryView) -> RegistryView {
        RegistryView { entries: self.entries.insert(handle, entry), ..self }
    }

    /// Creating a request: the next handle is issued and a fresh entry is
    /// registered under it.
    pub open spec fn create(self, method: Seq<char>, url: Seq<char>) -> (RegistryView, u64) {
        let handle = self.next as u64;
        let request = RequestView::bare(crate::request::Method::from_word(method), url);
        (
            RegistryView {
                next: self.next + 1,
                entries: self.entries.insert(handle, EntryView::fresh(handle, request)),
            },
            handle,
        )
    }

    /// Adding headers: an unknown handle is an error; an entry that is no
    /// longer under construction is left alone without complaint, whatever
    /// the payload; otherwise the payload is decoded and its fields are
    /// added, or the decoder's error is returned and nothing changes.
    pub open spec fn mutate_headers(self, handle: u64, payload: Seq<char>) -> (
        RegistryView,
        Result<(), Error>,
    ) {
        if !self.entries.contains_key(handle) {
            (self, Err(Error::UnknownHandle))
        } else if self.entries[handle].phase != Phase::UnderConstruction {
            (self, Ok(()))
        } else {
            match decode_text(payload) {
                Err(fault) => (self, Err(fault)),
                Ok(fields) => (
                    self.with_entry(handle, self.entries[handle].with_headers(fields)),
                    Ok(()),
                ),
            }
        }
    }

    /// Replacing the body: an unknown handle is an error; an entry that is
    /// no longer under construction is left alone without complaint;
    /// otherwise the body becomes the bytes of `text`.
    pub open spec fn mutate_body(self, handle: u64, text: Seq<char>) -> (
        RegistryView,
        Result<(), Error>,
    ) {
        if !self.entries.contains_key(handle) {
            (self, Err(Error::UnknownHandle))
        } else if self.entries[handle].phase != Phase::UnderConstruction {
            (self, Ok(()))
        } else {
            (self.with_entry(handle, self.entries[handle].with_body(text)), Ok(()))
        }
    }

    /// Taking a request for launch: only an entry under construction can be
    /// taken; it then awaits its response. Every other handle is unknown to
    /// this operation.
    pub open spec fn take_for_launch(self, handle: u64) -> (
        RegistryView,
        Result<RequestView, Error>,
    ) {
        if self.phase_of(handle) == Some(Phase::UnderConstruction) {
            (
                self.with_entry(handle, self.entries[handle].launched()),
                Ok(self.entries[handle].pending_request->0),
            )
        } else {
            (self, Err(Error::UnknownHandle))
        }
    }

    /// Recording an outcome: an entry that awaits its response is concluded
    /// with it. For every other handle nothing happens.
    pub open spec fn record_outcome(self, handle: u64, outcome: OutcomeView) -> RegistryView {
        if self.phase_of(handle) == Some(Phase::AwaitingResponse) {
            self.with_entry(handle, self.entries[handle].concluded(outcome))
        } else {
            self
        }
    }
}

/// The requests of the host, by handle, together with the allocator that
/// issues their handles.
pub struct Registry {
    allocator: HandleAllocator,
    entries: HashMap<u64, RequestEntry>,
}

impl View for Registry {
    type V = RegistryView;

    closed spec fn view(&self) -> RegistryView {
        RegistryView {
            next: self.allocator@,
            entries: self.entries@.map_values(|entry: RequestEntry| entry@),
        }
    }
}

/// A taken request, or the reason why none was taken, as plain values.
pub open spec fn taken_view(taken: Result<PendingRequest, Error>) -> Result<RequestView, Error> {
    match taken {
        Ok(request) => Ok(request@),
        Err(fault) => Err(fault),
    }
}

impl Registry {
    /// Whether the registry meets its invariant.
    pub closed spec fn wf(&self) -> bool {
        &&& self@.wf()
        &&& forall|h: u64| #[trigger] self.entries@.contains_key(h) ==> self.entries@[h].wf()
    }

    /// A well-formed registry has a well-formed view.
    pub proof fn lemma_wf_view(&self)
        requires
            self.wf(),
        ensures
            self@.wf(),
    {
    }

    /// A registry without entries whose first handle will be zero.
    pub fn new() -> (registry: Registry)
        ensures
            registry.wf(),
            registry@ == RegistryView::empty(),
    {
        let registry = Registry { allocator: HandleAllocator::new(), entries: HashMap::new() };
        assert(registry@.entries =~= Map::empty());
        registry
    }

    /// Whether another request can be created.
    pub fn has_room(&self) -> (room: bool)
        ensures
            room == self@.has_room(),
    {
        self.allocator.can_allocate()
    }

    /// The handle that the next created request will get.
    pub fn next_handle(&self) -> (handle: u64)
        ensures
            handle as nat == self@.next,
    {
        self.allocator.peek()
    }

    /// The entry under `handle`, if there is one.
    pub fn entry(&self, handle: u64) -> (found: Option<&RequestEntry>)
        requires
            self.wf(),
        ensures
            match found {
                Some(entry) => self@.entries.contains_key(handle) && entry@
                    == self@.entries[handle] && entry.wf(),
                None => !self@.entries.contains_key(handle),
            },
    {
        self.entries.get(&handle)
    }

    /// The phase of the entry under `handle`, if there is one.
    pub fn phase(&self, handle: u64) -> (phase: Option<Phase>)
        requires
            self.wf(),
        ensures
            phase == self@.phase_of(handle),
    {
        match self.entries.get(&handle) {
            Some(entry) => Some(entry.phase),
            None => None,
        }
    }

    /// Creates a request for `url`: reads the verb from `method`, falling
    /// back to GET for a word it does not know, issues the next handle and
    /// registers a fresh entry under it.
    ///
    /// The handle is larger than every handle issued since the registry was
    /// last cleared, and no entry is replaced.
    pub fn create(&mut self, method: &str, url: &str) -> (handle: u64)
        requires
            old(self).wf(),
            old(self)@.has_room(),
        ensures
            final(self).wf(),
            (final(self)@, handle) == old(self)@.create(method@, url@),
            !old(self)@.issued(handle),
            final(self)@.issued(handle),
            forall|earlier: u64| old(self)@.issued(earlier) ==> earlier < handle,
            forall|other: u64|
                other != handle ==> final(self)@.entries.contains_key(other) == old(
                    self,
                )@.entries.contains_key(other),
            forall|other: u64|
                old(self)@.entries.contains_key(other) ==> final(self)@.entries[other] == old(
                    self,
                )@.entries[other],
    {
        let request = PendingRequest::new(method, url);
        let handle = self.allocator.next();
        let entry = RequestEntry {
            handle,
            phase: Phase::UnderConstruction,
            pending_request: Some(request),
            outcome: None,
        };
        self.entries.insert(handle, entry);
        assert(self@.entries =~= old(self)@.entries.insert(handle, entry@));
        handle
    }

    /// Adds the header fields that `header_text` decodes to.
    ///
    /// Fails with `UnknownHandle` where the registry has no such entry. An
    /// entry that is no longer under construction is left as it is and the
    /// call succeeds. Otherwise the payload is decoded: its fields are added
    /// after those the request already has, or the decoder's error is
    /// returned and the registry is unchanged.
    pub fn mutate_headers(&mut self, handle: u64, header_text: &str) -> (done: Result<(), Error>)
        requires
            old(self).wf(),
        ensures
            final(self).wf(),
            (final(self)@, done) == old(self)@.mutate_headers(handle, header_text@),
    {
        match self.phase(handle) {
            None => {
                return Err(Error::UnknownHandle);
            },
            Some(Phase::UnderConstruction) => {},
            Some(_) => {
                return Ok(());
            },
        }
        let fields = match decode_headers(header_text) {
            Ok(fields) => fields,
            Err(fault) => {
                return Err(fault);
            },
        };
        let entry = self.entries.remove(&handle).unwrap();
        let ghost before = entry@;
        let RequestEntry { handle: own, phase, pending_request, outcome } = entry;
        let mut request = pending_request.unwrap();
        let ghost added = header_views(fields@);
        request.add_headers(fields);
        let entry = RequestEntry { handle: own, phase, pending_request: Some(request), outcome };
        assert(entry@ == before.with_headers(added));
        self.entries.insert(handle, entry);
        assert(self@.entries =~= old(self)@.entries.insert(handle, entry@));
        Ok(())
    }

    /// Replaces the body of the request by the raw bytes of `body_text`.
    ///
    /// Fails with `UnknownHandle` where the registry has no such entry. An
    /// entry that is no longer under construction is left as it is and the
    /// call succeeds.
    pub fn mutate_body(&mut self, handle: u64, body_text: &str) -> (done: Result<(), Error>)
        requires
            old(self).wf(),
        ensures
            final(self).wf(),
            (final(self)@, done) == old(self)@.mutate_body(handle, body_text@),
    {
        match self.phase(handle) {
            None => {
                return Err(Error::UnknownHandle);
            },
            Some(Phase::UnderConstruction) => {},
            Some(_) => {
                return Ok(());
            },
        }
        let entry = self.entries.remove(&handle).unwrap();
        let ghost before = entry@;
        let RequestEntry { handle: own, phase, pending_request, outcome } = entry;
        let mut request = pending_request.unwrap();
        request.attach_body(body_text);
        let entry = RequestEntry { handle: own, phase, pending_request: Some(request), outcome };
        assert(entry@ == before.with_body(body_text@));
        self.entries.insert(handle, entry);
        assert(self@.entries =~= old(self)@.entries.insert(handle, entry@));
        Ok(())
    }

    /// Takes the pending request of an entry that is under construction and
    /// leaves the entry awaiting its response.
    ///
    /// Fails with `UnknownHandle` where the registry has no such entry, and
    /// also where the entry was launched before: a request can be taken
    /// once.
    pub fn take_for_launch(&mut self, handle: u64) -> (taken: Result<PendingRequest, Error>)
        requires
            old(self).wf(),
        ensures
            final(self).wf(),
            (final(self)@, taken_view(taken)) == old(self)@.take_for_launch(handle),
            taken matches Ok(request) ==> request@.wf(),
    {
        match self.phase(handle) {
            Some(Phase::UnderConstruction) => {},
            _ => {
                return Err(Error::UnknownHandle);
            },
        }
        let entry = self.entries.remove(&handle).unwrap();
        let ghost before = entry@;
        let RequestEntry { handle: own, phase: _, pending_request, outcome } = entry;
        let request = pending_request.unwrap();
        let entry = RequestEntry {
            handle: own,
            phase: Phase::AwaitingResponse,
            pending_request: None,
            outcome,
        };
        assert(entry@ == before.launched());
        self.entries.insert(handle, entry);
        assert(self@.entries =~= old(self)@.entries.insert(handle, entry@));
        Ok(request)
    }

    /// Records the outcome of a launched request and concludes its entry.
    ///
    /// Nothing happens where the registry has no such entry, or where the
    /// entry does not await a response: an entry that was never launched
    /// keeps its request, and a concluded entry keeps the outcome it has.
    pub fn record_outcome(&mut self, handle: u64, outcome: Outcome)
        requires
            old(self).wf(),
            outcome.wf(),
        ensures
            final(self).wf(),
            final(self)@ == old(self)@.record_outcome(handle, outcome@),
    {
        match self.phase(handle) {
            Some(Phase::AwaitingResponse) => {},
            _ => {
                return ;
            },
        }
        let entry = self.entries.remove(&handle).unwrap();
        let ghost before = entry@;
        let entry = RequestEntry {
            handle: entry.handle,
            phase: Phase::Concluded,
            pending_request: None,
            outcome: Some(outcome),
        };
        assert(entry@ == before.concluded(outcome@));
        self.entries.insert(handle, entry);
        assert(self@.entries =~= old(self)@.entries.insert(handle, entry@));
    }

    /// Drops every entry and restarts the handles at zero.
    pub fn clear(&mut self)
        ensures
            final(self).wf(),
            final(self)@ == RegistryView::empty(),
    {
        self.entries.clear();
        self.allocator.reset();
        assert(self@.entries =~= Map::empty());
    }
}

} // verus!
