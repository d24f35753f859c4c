//! Capture loop: what is made of each frame that the virtual interface
//! delivers, and the state machine that the loop around it follows.
//!
//! The loop itself blocks on the driver and so belongs to the caller. It
//! hands each event to [`step`], which answers with the next state and with
//! what is to be done.

use vstd::prelude::*;
use vstd::slice::{slice_subrange, slice_to_vec};
use vstd::utf8::{decode_utf8, valid_utf8};
use crate::frame::{
    accepted_transport, decode_frame, ip_header_of, layout_of, HeaderView, IpSummary,
    TransportSummary,
};
use crate::sniff::{sniff, sniff_of, utf8_text, SniffReport, SniffReportView};

verus! {

/// Largest part of a TCP payload that is copied out of a frame.
pub const TCP_COPY_LIMIT: usize = 4096;

/// Largest part of a UDP payload that is copied out of a frame.
pub const UDP_COPY_LIMIT: usize = 2048;

/// Largest part of a payload that is shown to an observer.
pub const PREVIEW_LIMIT: usize = 128;

/// The port of the domain name system.
pub const DNS_PORT: u16 = 53;

/// How long the loop rests after a failed receive, in milliseconds.
pub const RETRY_DELAY_MILLIS: u64 = 200;

/// Capacity of the ring buffer of a capture session, in bytes.
pub const SESSION_CAPACITY: u32 = 0x200000;

/// What a payload was recognised as.
#[derive(Clone, Debug, PartialEq, Eq)]
pub enum Application {
    /// The payload travels on an HTTP port; the report says what it holds.
    Http(SniffReport),
    /// The payload travels on the DNS port.
    Dns { payload_len: usize },
}

/// The mathematical content of an [`Application`].
pub enum ApplicationView {
    Http(SniffReportView),
    Dns { payload_len: nat },
}

impl View for Application {
    type V = ApplicationView;

    open spec fn view(&self) -> ApplicationView {
        match *self {
            Application::Http(report) => ApplicationView::Http(report@),
            Application::Dns { payload_len } => ApplicationView::Dns {
                payload_len: payload_len as nat,
            },
        }
    }
}

/// What is kept of the payload of a packet once its frame is given back.
#[derive(Clone, Debug, PartialEq, Eq)]
pub struct PayloadSummary {
    /// The start of the payload, up to the limit of its protocol.
    pub copy: Vec<u8>,
    /// The start of the copy, up to `PREVIEW_LIMIT` bytes.
    pub preview: Vec<u8>,
    /// The preview as text, where it is valid UTF-8.
    pub preview_text: Option<String>,
    pub application: Option<Application>,
}

/// The mathematical content of a [`PayloadSummary`].
pub struct PayloadSummaryView {
    pub copy: Seq<u8>,
    pub preview: Seq<u8>,
    pub preview_text: Option<Seq<char>>,
    pub application: Option<ApplicationView>,
}

impl View for PayloadSummary {
    type V = PayloadSummaryView;

    open spec fn view(&self) -> PayloadSummaryView {
        PayloadSummaryView {
            copy: self.copy@,
            preview: self.preview@,
            preview_text: match self.preview_text {
                Some(text) => Some(text@),
                None => None,
            },
            application: match self.application {
                Some(application) => Some(application@),
                None => None,
            },
        }
    }
}

/// What an observer is told of one packet.
#[derive(Clone, Debug, PartialEq, Eq)]
pub struct PacketSummary {
    pub ip: Option<IpSummary>,
    pub transport: Option<TransportSummary>,
    /// The payload of a TCP or UDP packet that has one.
    pub payload: Option<PayloadSummary>,
}

/// The mathematical content of a [`PacketSummary`].
pub struct PacketSummaryView {
    pub ip: Option<IpSummary>,
    pub transport: Option<TransportSummary>,
    pub payload: Option<PayloadSummaryView>,
}

impl View for PacketSummary {
    type V = PacketSummaryView;

    open spec fn view(&self) -> PacketSummaryView {
        PacketSummaryView {
            ip: self.ip,
            transport: self.transport,
            payload: match self.payload {
                Some(payload) => Some(payload@),
                None => None,
            },
        }
    }
}

/// The first `limit` bytes of `bytes`, or all of them where there are fewer.
pub open spec fn prefix(bytes: Seq<u8>, limit: nat) -> Seq<u8> {
    if bytes.len() <= limit {
        bytes
    } else {
        bytes.take(limit as int)
    }
}

/// How much of a payload is copied, by protocol.
pub open spec fn copy_limit(transport: TransportSummary) -> nat {
    match transport {
        TransportSummary::Tcp(_) => TCP_COPY_LIMIT as nat,
        TransportSummary::Udp(_) => UDP_COPY_LIMIT as nat,
        TransportSummary::Other => 0,
    }
}

/// What the copy of a payload is recognised as: on TCP what the sniffer
/// reports, on UDP the domain name system by its port.
pub open spec fn application_of(transport: TransportSummary, copy: Seq<u8>) -> Option<
    ApplicationView,
> {
    match transport {
        TransportSummary::Tcp(tcp) => match sniff_of(copy, tcp.source_port, tcp.destination_port) {
            Some(report) => Some(ApplicationView::Http(report)),
            None => None,
        },
        TransportSummary::Udp(udp) => if udp.source_port == DNS_PORT || udp.destination_port
            == DNS_PORT {
            Some(ApplicationView::Dns { payload_len: copy.len() })
        } else {
            None
        },
        TransportSummary::Other => None,
    }
}

/// What is kept of a payload: nothing of an empty one and nothing where the
/// transport is neither TCP nor UDP.
pub open spec fn payload_summary_of(transport: TransportSummary, payload: Seq<u8>) -> Option<
    PayloadSummaryView,
> {
    if transport is Other || payload.len() == 0 {
        None
    } else {
        let copy = prefix(payload, copy_limit(transport));
        let preview = prefix(copy, PREVIEW_LIMIT as nat);
        Some(
            PayloadSummaryView {
                copy,
                preview,
                preview_text: if valid_utf8(preview) {
                    Some(decode_utf8(preview))
                } else {
                    None
                },
                application: application_of(transport, copy),
            },
        )
    }
}

/// What an observer is told of a packet with the given headers and payload.
pub open spec fn summary_of(
    ip: Option<IpSummary>,
    transport: Option<TransportSummary>,
    payload: Seq<u8>,
) -> PacketSummaryView {
    PacketSummaryView {
        ip,
        transport,
        payload: match transport {
            Some(t) => payload_summary_of(t, payload),
            None => None,
        },
    }
}

/// What an observer is told of a frame.
pub open spec fn frame_summary(frame: Seq<u8>) -> PacketSummaryView {
    let transport = accepted_transport(frame);
    summary_of(
        if transport is Some {
            ip_header_of(frame)
        } else {
            None
        },
        transport,
        layout_of(frame, transport).payload,
    )
}

fn take_prefix(bytes: &[u8], limit: usize) -> (part: &[u8])
    ensures
        part@ == prefix(bytes@, limit as nat),
{
    if bytes.len() <= limit {
        bytes
    } else {
        slice_subrange(bytes, 0, limit)
    }
}

fn summarize_payload(transport: &TransportSummary, payload: &[u8]) -> (summary: Option<
    PayloadSummary,
>)
    ensures
        match summary {
            Some(s) => Some(s@) == payload_summary_of(*transport, payload@),
            None => payload_summary_of(*transport, payload@) is None,
        },
{
    if payload.len() == 0 {
        return None;
    }
    let limit = match transport {
        TransportSummary::Tcp(_) => TCP_COPY_LIMIT,
        TransportSummary::Udp(_) => UDP_COPY_LIMIT,
        TransportSummary::Other => {
            return None;
        },
    };
    let copy = slice_to_vec(take_prefix(payload, limit));
    let preview = slice_to_vec(take_prefix(copy.as_slice(), PREVIEW_LIMIT));
    let preview_text = match utf8_text(preview.as_slice()) {
        Some(text) => Some(text.to_owned()),
        None => None,
    };
    let application = match transport {
        TransportSummary::Tcp(tcp) => match sniff(
            copy.as_slice(),
            tcp.source_port,
            tcp.destination_port,
        ) {
            Some(report) => Some(Application::Http(report)),
            None => None,
        },
        TransportSummary::Udp(udp) => if udp.source_port == DNS_PORT || udp.destination_port
            == DNS_PORT {
            Some(Application::Dns { payload_len: copy.len() })
        } else {
            None
        },
        TransportSummary::Other => None,
    };
    Some(PayloadSummary { copy, preview, preview_text, application })
}

/// Says what an observer is told of a decoded frame. The payload is copied,
/// up to the limit of its protocol, so that the frame can be given back.
pub fn summarize(view: &HeaderView<'_>) -> (summary: PacketSummary)
    ensures
        summary@ == summary_of(view.ip, view.transport, view.payload@),
{
    let payload = match &view.transport {
        Some(transport) => summarize_payload(transport, view.payload),
        None => None,
    };
    PacketSummary { ip: view.ip, transport: view.transport, payload }
}

/// Decodes a frame and says what an observer is told of it.
pub fn inspect_frame(frame: &[u8]) -> (summary: PacketSummary)
    ensures
        summary@ == frame_summary(frame@),
{
    let view = decode_frame(frame);
    summarize(&view)
}

/// How far the acquisition of a capture session has come.
#[derive(Clone, Copy, Debug, PartialEq, Eq)]
pub enum Acquisition {
    NotStarted,
    /// The adapter is being opened by its name.
    Opening,
    /// No adapter of that name exists: one is being created.
    Creating,
    /// A session on the adapter is being started.
    Starting,
}

/// The state of the capture loop.
#[derive(Clone, Copy, Debug, PartialEq, Eq)]
pub enum CaptureState {
    /// No session is open yet.
    Idle(Acquisition),
    /// Frames are being received.
    Capturing,
    /// Termination was signalled; the host is being restored.
    Stopping,
    /// The host is restored; the process ends.
    Stopped,
}

/// What happened, as the caller of the loop saw it.
#[derive(Clone, Copy, Debug)]
pub enum CaptureEvent<'a> {
    /// The loop is asked to start.
    Start,
    AdapterOpened,
    /// No adapter of the name exists.
    AdapterNotFound,
    AdapterCreated,
    /// The adapter could not be created.
    AdapterUnavailable,
    SessionStarted,
    /// No session could be started on the adapter.
    SessionUnavailable,
    /// A frame was received.
    Frame(&'a [u8]),
    /// The driver failed to deliver a frame.
    ReceiveFailed,
    /// The shutdown coordinator signalled termination.
    ShutdownRequested,
    /// The host is restored.
    RestorationDone,
}

/// What the caller of the loop is to do.
#[derive(Clone, Debug, PartialEq, Eq)]
pub enum CaptureAction {
    /// Nothing: the event changes nothing.
    Nothing,
    /// Open the adapter by its name.
    OpenAdapter,
    /// Create the adapter.
    CreateAdapter,
    /// Start a session with a ring buffer of this capacity.
    StartSession { capacity: u32 },
    /// Block for the next frame.
    Receive,
    /// Hand the summary to the observer, then block for the next frame.
    Report(PacketSummary),
    /// Log the failure, rest for the delay, then block for the next frame.
    Retry { delay_millis: u64 },
    /// The session cannot be had: hand over to the fault handler.
    Fault,
    /// End the process.
    Exit,
}

/// The mathematical content of a [`CaptureAction`].
pub enum CaptureActionView {
    Nothing,
    OpenAdapter,
    CreateAdapter,
    StartSession { capacity: u32 },
    Receive,
    Report(PacketSummaryView),
    Retry { delay_millis: u64 },
    Fault,
    Exit,
}

impl View for CaptureAction {
    type V = CaptureActionView;

    open spec fn view(&self) -> CaptureActionView {
        match *self {
            CaptureAction::Nothing => CaptureActionView::Nothing,
            CaptureAction::OpenAdapter => CaptureActionView::OpenAdapter,
            CaptureAction::CreateAdapter => CaptureActionView::CreateAdapter,
            CaptureAction::StartSession { capacity } => CaptureActionView::StartSession {
                capacity,
            },
            CaptureAction::Receive => CaptureActionView::Receive,
            CaptureAction::Report(summary) => CaptureActionView::Report(summary@),
            CaptureAction::Retry { delay_millis } => CaptureActionView::Retry { delay_millis },
            CaptureAction::Fault => CaptureActionView::Fault,
            CaptureAction::Exit => CaptureActionView::Exit,
        }
    }
}

/// The state that follows `state` on `event`, and what is to be done.
///
/// A missing adapter is created. A failed receive is retried after a rest.
/// Only a signal of the shutdown coordinator, or a session that cannot be
/// had, ends the capture; an event that has no meaning in a state changes
/// nothing.
pub open spec fn capture_step(state: CaptureState, event: CaptureEvent<'_>) -> (
    CaptureState,
    CaptureActionView,
) {
    match (state, event) {
        (CaptureState::Stopped, _) => (CaptureState::Stopped, CaptureActionView::Nothing),
        (CaptureState::Stopping, CaptureEvent::RestorationDone) => (
            CaptureState::Stopped,
            CaptureActionView::Exit,
        ),
        (CaptureState::Stopping, _) => (CaptureState::Stopping, CaptureActionView::Nothing),
        (_, CaptureEvent::ShutdownRequested) => (
            CaptureState::Stopping,
            CaptureActionView::Nothing,
        ),
        (CaptureState::Idle(Acquisition::NotStarted), CaptureEvent::Start) => (
            CaptureState::Idle(Acquisition::Opening),
            CaptureActionView::OpenAdapter,
        ),
        (CaptureState::Idle(Acquisition::Opening), CaptureEvent::AdapterOpened) => (
            CaptureState::Idle(Acquisition::Starting),
            CaptureActionView::StartSession { capacity: SESSION_CAPACITY },
        ),
        (CaptureState::Idle(Acquisition::Opening), CaptureEvent::AdapterNotFound) => (
            CaptureState::Idle(Acquisition::Creating),
            CaptureActionView::CreateAdapter,
        ),
        (CaptureState::Idle(Acquisition::Creating), CaptureEvent::AdapterCreated) => (
            CaptureState::Idle(Acquisition::Starting),
            CaptureActionView::StartSession { capacity: SESSION_CAPACITY },
        ),
        (CaptureState::Idle(Acquisition::Creating), CaptureEvent::AdapterUnavailable) => (
            CaptureState::Stopping,
            CaptureActionView::Fault,
        ),
        (CaptureState::Idle(Acquisition::Starting), CaptureEvent::SessionStarted) => (
            CaptureState::Capturing,
            CaptureActionView::Receive,
        ),
        (CaptureState::Idle(Acquisition::Starting), CaptureEvent::SessionUnavailable) => (
            CaptureState::Stopping,
            CaptureActionView::Fault,
        ),
        (CaptureState::Capturing, CaptureEvent::Frame(frame)) => (
            CaptureState::Capturing,
            CaptureActionView::Report(frame_summary(frame@)),
        ),
        (CaptureState::Capturing, CaptureEvent::ReceiveFailed) => (
            CaptureState::Capturing,
            CaptureActionView::Retry { delay_millis: RETRY_DELAY_MILLIS },
        ),
        _ => (state, CaptureActionView::Nothing),
    }
}

/// Takes one event and answers with the next state and with what the caller
/// is to do.
pub fn step(state: CaptureState, event: CaptureEvent<'_>) -> (next: (CaptureState, CaptureAction))
    ensures
        next.0 == capture_step(state, event).0,
        next.1@ == capture_step(state, event).1,
{
    match state {
        CaptureState::Stopped => (CaptureState::Stopped, CaptureAction::Nothing),
        CaptureState::Stopping => match event {
            CaptureEvent::RestorationDone => (CaptureState::Stopped, CaptureAction::Exit),
            _ => (CaptureState::Stopping, CaptureAction::Nothing),
        },
        CaptureState::Idle(acquisition) => match (acquisition, event) {
            (_, CaptureEvent::ShutdownRequested) => (
                CaptureState::Stopping,
                CaptureAction::Nothing,
            ),
            (Acquisition::NotStarted, CaptureEvent::Start) => (
                CaptureState::Idle(Acquisition::Opening),
                CaptureAction::OpenAdapter,
            ),
            (Acquisition::Opening, CaptureEvent::AdapterOpened) => (
                CaptureState::Idle(Acquisition::Starting),
                CaptureAction::StartSession { capacity: SESSION_CAPACITY },
            ),
            (Acquisition::Opening, CaptureEvent::AdapterNotFound) => (
                CaptureState::Idle(Acquisition::Creating),
                CaptureAction::CreateAdapter,
            ),
            (Acquisition::Creating, CaptureEvent::AdapterCreated) => (
                CaptureState::Idle(Acquisition::Starting),
                CaptureAction::StartSession { capacity: SESSION_CAPACITY },
            ),
            (Acquisition::Creating, CaptureEvent::AdapterUnavailable) => (
                CaptureState::Stopping,
                CaptureAction::Fault,
            ),
            (Acquisition::Starting, CaptureEvent::SessionStarted) => (
                CaptureState::Capturing,
                CaptureAction::Receive,
            ),
            (Acquisition::Starting, CaptureEvent::SessionUnavailable) => (
                CaptureState::Stopping,
                CaptureAction::Fault,
            ),
            _ => (state, CaptureAction::Nothing),
        },
        CaptureState::Capturing => match event {
            CaptureEvent::ShutdownRequested => (CaptureState::Stopping, CaptureAction::Nothing),
            CaptureEvent::Frame(frame) => (
                CaptureState::Capturing,
                CaptureAction::Report(inspect_frame(frame)),
            ),
            CaptureEvent::ReceiveFailed => (
                CaptureState::Capturing,
                CaptureAction::Retry { delay_millis: RETRY_DELAY_MILLIS },
            ),
            _ => (state, CaptureAction::Nothing),
        },
    }
}

/// While frames are being received, nothing but the signal of the shutdown
/// coordinator ends the capture: a frame and a failed receive both lead back
/// to receiving.
pub proof fn lemma_capture_ends_on_signal_only(event: CaptureEvent<'_>)
    ensures
        capture_step(CaptureState::Capturing, event).0 == (if event is ShutdownRequested {
            CaptureState::Stopping
        } else {
            CaptureState::Capturing
        }),
        event is ReceiveFailed ==> capture_step(CaptureState::Capturing, event).1 == (
        CaptureActionView::Retry { delay_millis: RETRY_DELAY_MILLIS }),
{
}

/// The loop never goes back: from `Stopped` nothing follows, from `Stopping`
/// only `Stopped`, and nothing leads back to `Idle` once frames are received.
pub proof fn lemma_capture_never_goes_back(state: CaptureState, event: CaptureEvent<'_>)
    ensures
        state is Stopped ==> capture_step(state, event).0 is Stopped,
        state is Stopping ==> capture_step(state, event).0 is Stopping || capture_step(
            state,
            event,
        ).0 is Stopped,
        state is Capturing ==> !(capture_step(state, event).0 is Idle),
        capture_step(state, event).0 is Stopped ==> state is Stopped || (state is Stopping
            && event is RestorationDone),
{
}

/// An adapter that does not exist yet is created, and a session is started
/// on it as on one that was found.
pub proof fn lemma_missing_adapter_is_created()
    ensures
        capture_step(CaptureState::Idle(Acquisition::Opening), CaptureEvent::AdapterNotFound) == (
            CaptureState::Idle(Acquisition::Creating),
            CaptureActionView::CreateAdapter,
        ),
        capture_step(CaptureState::Idle(Acquisition::Creating), CaptureEvent::AdapterCreated)
            == capture_step(CaptureState::Idle(Acquisition::Opening), CaptureEvent::AdapterOpened),
{
}

/// No more of a payload is kept than the limit of its protocol, and no more
/// is shown than the preview limit.
pub proof fn lemma_copies_are_bounded(transport: TransportSummary, payload: Seq<u8>)
    ensures
        payload_summary_of(transport, payload) matches Some(s) ==> s.copy.len() <= copy_limit(
            transport,
        ) && s.copy.len() <= TCP_COPY_LIMIT && s.preview.len() <= PREVIEW_LIMIT && s.copy
            == payload.take(s.copy.len() as int) && s.preview == payload.take(
            s.preview.len() as int,
        ),
{
    if payload_summary_of(transport, payload) is Some {
        let copy = prefix(payload, copy_limit(transport));
        let preview = prefix(copy, PREVIEW_LIMIT as nat);
        assert(copy =~= payload.take(copy.len() as int));
        assert(preview =~= payload.take(preview.len() as int));
    }
}

} // verus!
