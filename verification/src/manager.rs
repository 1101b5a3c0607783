//! The host-facing operations and the lifecycle of the background runtime.
//!
//! The manager decides; it performs no I/O. The embedding program owns the
//! runtime and the HTTP client. It tells the manager whether a runtime could
//! be started, sends what `request_launch` hands out without making the
//! host wait, and reports each outcome back with `record_outcome`, in
//! whatever order the outcomes arrive.
//!
//! Retention: entries are kept until the next shutdown or restart, which
//! drops them all together with the handle counter, so that a handle never
//! names two live requests.

use vstd::prelude::*;
use crate::error::Error;
use crate::handle::{decimal, format_handle, handle_of_text, parse_handle};
use crate::registry::{Phase, Registry, RegistryView, RequestEntry};
use crate::request::{PendingRequest, RequestView};
use crate::response::{Outcome, OutcomeView};

verus! {

/// The longest time, in seconds, that the transport may spend on one
/// request before it fails the request with a timeout.
pub const REQUEST_TIMEOUT_SECS: u64 = 10;

/// The number of worker threads of the background runtime.
pub const WORKER_THREADS: usize = 2;

/// Whether the background runtime is up.
#[derive(Clone, Copy, Debug, PartialEq, Eq, Structural)]
pub enum RuntimeState {
    Stopped,
    Running,
}

/// What the embedding program is to send, as plain values.
pub struct LaunchView {
    pub handle: u64,
    pub request: RequestView,
    pub timeout_secs: u64,
}

/// What the embedding program is to send after a successful launch: the
/// request, the handle under which its outcome is to be recorded, and the
/// time the transport may take.
#[derive(Debug)]
pub struct Launch {
    pub handle: u64,
    pub request: PendingRequest,
    pub timeout_secs: u64,
}

impl View for Launch {
    type V = LaunchView;

    open spec fn view(&self) -> LaunchView {
        LaunchView { handle: self.handle, request: self.request@, timeout_secs: self.timeout_secs }
    }
}

/// A launch, or the reason why nothing was launched, as plain values.
pub open spec fn launched_view(launched: Result<Launch, Error>) -> Result<LaunchView, Error> {
    match launched {
        Ok(launch) => Ok(launch@),
        Err(fault) => Err(fault),
    }
}

/// The manager as plain mathematical values.
pub struct ManagerView {
    pub running: bool,
    pub registry: RegistryView,
}

impl ManagerView {
    /// Whether the registry meets its invariant.
    pub open spec fn wf(self) -> bool {
        self.registry.wf()
    }

    /// The manager before anything has happened: stopped, with no requests.
    pub open spec fn initial() -> ManagerView {
        ManagerView { running: false, registry: RegistryView::empty() }
    }

    /// Shutting down: the runtime is stopped, every entry is dropped and the
    /// handles start again at zero.
    pub open spec fn shutdown(self) -> ManagerView {
        ManagerView { running: false, registry: RegistryView::empty() }
    }

    /// Starting up. A manager that is running is shut down first. The
    /// manager is running afterwards exactly if a runtime could be started.
    pub open spec fn startup(self, started: bool) -> ManagerView {
        let base = if self.running {
            self.shutdown()
        } else {
            self
        };
        ManagerView { running: started, ..base }
    }

    /// Creating a request: the registry creates it, and the host is given
    /// the numeral of its handle.
    pub open spec fn init(self, url: Seq<char>, method: Seq<char>) -> (ManagerView, Seq<char>) {
        let (registry, handle) = self.registry.create(method, url);
        (ManagerView { registry, ..self }, decimal(handle as nat))
    }

    /// Adding headers to the request that `handle_text` names. A text that
    /// names no handle is an unknown handle.
    pub open spec fn set_headers(self, handle_text: Seq<char>, payload: Seq<char>) -> (
        ManagerView,
        Result<(), Error>,
    ) {
        match handle_of_text(handle_text) {
            None => (self, Err(Error::UnknownHandle)),
            Some(handle) => {
                let (registry, done) = self.registry.mutate_headers(handle, payload);
                (ManagerView { registry, ..self }, done)
            },
        }
    }

    /// Replacing the body of the request that `handle_text` names. A text
    /// that names no handle is an unknown handle.
    pub open spec fn set_body(self, handle_text: Seq<char>, text: Seq<char>) -> (
        ManagerView,
        Result<(), Error>,
    ) {
        match handle_of_text(handle_text) {
            None => (self, Err(Error::UnknownHandle)),
            Some(handle) => {
                let (registry, done) = self.registry.mutate_body(handle, text);
                (ManagerView { registry, ..self }, done)
            },
        }
    }

    /// Launching the request that `handle_text` names. While the runtime is
    /// stopped nothing is launched, whatever the handle. Otherwise the
    /// registry decides, and a taken request goes out with its handle and the
    /// fixed timeout.
    pub open spec fn launch(self, handle_text: Seq<char>) -> (
        ManagerView,
        Result<LaunchView, Error>,
    ) {
        if !self.running {
            (self, Err(Error::RuntimeNotStarted))
        } else {
            match handle_of_text(handle_text) {
                None => (self, Err(Error::UnknownHandle)),
                Some(handle) => {
                    let (registry, taken) = self.registry.take_for_launch(handle);
                    (
                        ManagerView { registry, ..self },
                        match taken {
                            Ok(request) => Ok(
                                LaunchView { handle, request, timeout_secs: REQUEST_TIMEOUT_SECS },
                            ),
                            Err(fault) => Err(fault),
                        },
                    )
                },
            }
        }
    }

    /// Recording the outcome of a launched request.
    pub open spec fn conclude(self, handle: u64, outcome: OutcomeView) -> ManagerView {
        ManagerView { registry: self.registry.record_outcome(handle, outcome), ..self }
    }

    /// The phase of the request that `handle_text` names, if there is one.
    pub open spec fn phase_of(self, handle_text: Seq<char>) -> Option<Phase> {
        match handle_of_text(handle_text) {
            None => None,
            Some(handle) => self.registry.phase_of(handle),
        }
    }
}

/// The state behind the host-facing operations: the lifecycle of the
/// background runtime and the registry of requests.
pub struct HttpManager {
    state: RuntimeState,
    registry: Registry,
}

impl View for HttpManager {
    type V = ManagerView;

    closed spec fn view(&self) -> ManagerView {
        ManagerView { running: self.state == RuntimeState::Running, registry: self.registry@ }
    }
}

impl HttpManager {
    /// Whether the manager meets its invariant.
    pub closed spec fn wf(&self) -> bool {
        self.registry.wf()
    }

    /// A well-formed manager has a well-formed view.
    pub proof fn lemma_wf_view(&self)
        requires
            self.wf(),
        ensures
            self@.wf(),
    {
        self.registry.lemma_wf_view();
    }

    /// A stopped manager without requests.
    pub fn new() -> (manager: HttpManager)
        ensures
            manager.wf(),
            manager@ == ManagerView::initial(),
    {
        HttpManager { state: RuntimeState::Stopped, registry: Registry::new() }
    }

    /// The state of the background runtime as the manager knows it.
    pub fn state(&self) -> (state: RuntimeState)
        ensures
            (state == RuntimeState::Running) == self@.running,
    {
        self.state
    }

    /// Whether the background runtime is up.
    pub fn is_running(&self) -> (running: bool)
        ensures
            running == self@.running,
    {
        match self.state {
            RuntimeState::Running => true,
            RuntimeState::Stopped => false,
        }
    }

    /// Whether another request can be created.
    pub fn has_room(&self) -> (room: bool)
        ensures
            room == self@.registry.has_room(),
    {
        self.registry.has_room()
    }

    /// Records that the embedding program has replaced the background
    /// runtime. `runtime_started` tells whether the new runtime came up.
    ///
    /// A manager that was running is restarted: its entries are dropped and
    /// its handles start again at zero, as after a shutdown. The manager is
    /// running afterwards if the runtime came up, and stopped if it did not.
    /// Returns whether a previous runtime was replaced.
    pub fn http_startup(&mut self, runtime_started: bool) -> (restarted: bool)
        requires
            old(self).wf(),
        ensures
            final(self).wf(),
            restarted == old(self)@.running,
            final(self)@ == old(self)@.startup(runtime_started),
    {
        let restarted = self.is_running();
        if restarted {
            self.registry.clear();
        }
        self.state = if runtime_started {
            RuntimeState::Running
        } else {
            RuntimeState::Stopped
        };
        restarted
    }

    /// Records that the embedding program has stopped the background
    /// runtime: the manager is stopped, every entry is dropped and the
    /// handles start again at zero. Returns whether a runtime was up.
    pub fn http_shutdown(&mut self) -> (was_running: bool)
        ensures
            final(self).wf(),
            was_running == old(self)@.running,
            final(self)@ == old(self)@.shutdown(),
    {
        let was_running = self.is_running();
        self.registry.clear();
        self.state = RuntimeState::Stopped;
        was_running
    }

    /// Creates a request for `url` with the verb that `method` names, or GET
    /// where it names none, and returns the numeral of its handle.
    ///
    /// The handle is larger than every handle issued since the last
    /// shutdown or restart.
    pub fn request_init(&mut self, url: &str, method: &str) -> (handle_text: String)
        requires
            old(self).wf(),
            old(self)@.registry.has_room(),
        ensures
            final(self).wf(),
            (final(self)@, handle_text@) == old(self)@.init(url@, method@),
            ({
                let handle = old(self)@.registry.next as u64;
                &&& handle_of_text(handle_text@) == Some(handle)
                &&& !old(self)@.registry.issued(handle)
                &&& final(self)@.registry.issued(handle)
                &&& forall|earlier: u64| old(self)@.registry.issued(earlier) ==> earlier < handle
            }),
    {
        let handle = self.registry.create(method, url);
        proof {
            crate::handle::lemma_handle_text_round_trip(handle);
        }
        format_handle(handle)
    }

    /// Adds the header fields of the JSON object `headers_json` to the
    /// request that `handle_text` names.
    ///
    /// Fails with `UnknownHandle` where the text names no registered
    /// request. A request that was launched before is left as it is and the
    /// call succeeds. Otherwise fails with `MalformedInput`,
    /// `InvalidHeaderName` or `InvalidHeaderValue` where the payload does
    /// not decode, and then changes nothing.
    pub fn request_set_headers(&mut self, handle_text: &str, headers_json: &str) -> (done: Result<
        (),
        Error,
    >)
        requires
            old(self).wf(),
        ensures
            final(self).wf(),
            (final(self)@, done) == old(self)@.set_headers(handle_text@, headers_json@),
    {
        match parse_handle(handle_text) {
            None => Err(Error::UnknownHandle),
            Some(handle) => self.registry.mutate_headers(handle, headers_json),
        }
    }

    /// Replaces the body of the request that `handle_text` names by the raw
    /// bytes of `body_text`.
    ///
    /// Fails with `UnknownHandle` where the text names no registered
    /// request. A request that was launched before is left as it is and the
    /// call succeeds.
    pub fn request_set_body(&mut self, handle_text: &str, body_text: &str) -> (done: Result<
        (),
        Error,
    >)
        requires
            old(self).wf(),
        ensures
            final(self).wf(),
            (final(self)@, done) == old(self)@.set_body(handle_text@, body_text@),
    {
        match parse_handle(handle_text) {
            None => Err(Error::UnknownHandle),
            Some(handle) => self.registry.mutate_body(handle, body_text),
        }
    }

    /// Launches the request that `handle_text` names: its entry now awaits a
    /// response, and the request is handed out to be sent.
    ///
    /// Fails with `RuntimeNotStarted` while the runtime is stopped. Fails
    /// with `UnknownHandle` where the text names no registered request, and
    /// where the request was launched before. A failed launch changes
    /// nothing.
    pub fn request_launch(&mut self, handle_text: &str) -> (launched: Result<Launch, Error>)
        requires
            old(self).wf(),
        ensures
            final(self).wf(),
            (final(self)@, launched_view(launched)) == old(self)@.launch(handle_text@),
            launched matches Ok(launch) ==> launch@.request.wf(),
    {
        if !self.is_running() {
            return Err(Error::RuntimeNotStarted);
        }
        match parse_handle(handle_text) {
            None => Err(Error::UnknownHandle),
            Some(handle) => match self.registry.take_for_launch(handle) {
                Ok(request) => Ok(Launch { handle, request, timeout_secs: REQUEST_TIMEOUT_SECS }),
                Err(fault) => Err(fault),
            },
        }
    }

    /// Records the outcome of a launched request. The entry is concluded
    /// with it if it awaits a response; for every other handle nothing
    /// happens.
    pub fn record_outcome(&mut self, handle: u64, outcome: Outcome)
        requires
            old(self).wf(),
            outcome.wf(),
        ensures
            final(self).wf(),
            final(self)@ == old(self)@.conclude(handle, outcome@),
    {
        self.registry.record_outcome(handle, outcome);
    }

    /// The phase of the request that `handle_text` names, if there is one.
    pub fn request_phase(&self, handle_text: &str) -> (phase: Option<Phase>)
        requires
            self.wf(),
        ensures
            phase == self@.phase_of(handle_text@),
    {
        match parse_handle(handle_text) {
            None => None,
            Some(handle) => self.registry.phase(handle),
        }
    }

    /// The entry of the request that `handle_text` names, if there is one.
    pub fn request_entry(&self, handle_text: &str) -> (found: Option<&RequestEntry>)
        requires
            self.wf(),
        ensures
            match found {
                Some(entry) => handle_of_text(handle_text@) is Some
                    && self@.registry.entries.contains_key(handle_of_text(handle_text@)->0)
                    && entry@ == self@.registry.entries[handle_of_text(handle_text@)->0]
                    && entry.wf(),
                None => self@.phase_of(handle_text@) is None,
            },
    {
        match parse_handle(handle_text) {
            None => None,
            Some(handle) => self.registry.entry(handle),
        }
    }
}

} // verus!
