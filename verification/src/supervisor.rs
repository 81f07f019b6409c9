//! The supervisor of the media engine: connected or not, and what each
//! command, connection result and transport failure leads to.
//!
//! The supervisor decides; the caller acts. Every input is answered with
//! the events to report and a directive, and where the directive asks for
//! a connection attempt or a start of video, the caller feeds its result
//! back as the next input.

use crate::event::events_view;
use crate::event::EventView;
use crate::event::MediaEvent;
use crate::reconnect::backoff_secs;
use crate::reconnect::next_reconnect_step;
use crate::reconnect::reconnect_step;
use crate::reconnect::ReconnectStep;
use crate::session::fresh_session;
use crate::session::video_switch_step;
use crate::session::with_user_volume;
use crate::session::Session;
use crate::session::SessionView;
use crate::session::SpeakingEvent;
use crate::session::VideoConfig;
use crate::session::VideoSwitch;
use crate::text::prefixed;
use crate::video::CameraConfig;
use vstd::prelude::*;

verus! {

/// What a connection is made with; kept for reconnecting.
#[derive(Debug, Clone, PartialEq, Eq)]
pub struct ConnectParams {
    pub url: String,
    pub token: String,
    pub room_id: u32,
    pub user_id: u32,
    pub cert_der: Option<Vec<u8>>,
    pub idle_timeout_secs: u64,
    pub datagram_buffer_size: usize,
}

/// Idle timeout of the transport where the host names none, in seconds.
pub const DEFAULT_IDLE_TIMEOUT_SECS: u64 = 30;

/// Datagram receive buffer where the host names none, in bytes.
pub const DEFAULT_DATAGRAM_BUFFER_SIZE: usize = 65535;

/// A command of the host. Gains are in thousandths, the noise gate in
/// ten-thousandths of full scale.
#[derive(Debug, Clone, PartialEq, Eq)]
pub enum MediaCommand {
    Connect(ConnectParams),
    Disconnect,
    SetMute(bool),
    SetDeaf(bool),
    SetVideo(bool),
    SetVideoConfig(VideoConfig),
    SetInputVolume(u32),
    SetOutputVolume(u32),
    SetNoiseGate(u16),
    SetUserVolume { user_id: u32, volume: u32 },
}

/// What the supervisor is told.
#[derive(Debug, Clone, PartialEq, Eq)]
pub enum Input {
    /// The host sent a command.
    Command(MediaCommand),
    /// The connection attempt that was asked for succeeded.
    Established,
    /// The connection attempt that was asked for failed.
    EstablishFailed(String),
    /// Reading from the transport failed.
    ReadFailed(String),
    /// Camera and encoder run, as was asked for.
    VideoStarted,
    /// The camera did not start.
    CameraFailed(String),
    /// The camera started, the encoder did not.
    EncoderFailed(String),
}

/// What the supervisor waits for.
#[derive(Debug, Clone, PartialEq, Eq)]
pub enum Pending {
    Nothing,
    /// The result of the connection attempt that a command asked for.
    Connecting(ConnectParams),
    /// The result of a reconnection attempt, after `failed` failed ones.
    Reconnecting { failed: u32 },
}

/// What the caller is to do.
#[derive(Debug, Clone, Copy, PartialEq, Eq, Structural)]
pub enum Directive {
    /// Nothing.
    Idle,
    /// Drop the transport, the streams, the camera and the codecs.
    Close,
    /// Drop what is live, wait `delay_secs`, try to connect with the
    /// parameters that `Supervisor::establish_params` gives, and tell how
    /// it went.
    Establish { delay_secs: u64 },
    /// Start the camera, then the encoder, and tell how it went.
    StartVideo { camera: CameraConfig, encoder: VideoConfig },
    /// Stop the camera and drop the encoder.
    StopVideo,
}

/// The answer to an input.
pub struct Outcome {
    pub events: Vec<MediaEvent>,
    pub directive: Directive,
}

/// Everything the supervisor knows.
pub struct SupervisorView<A, V> {
    pub session: Option<SessionView<A, V>>,
    pub last_connect_params: Option<ConnectParams>,
    pub pending: Pending,
}

/// The directive for a switch of video.
pub open spec fn directive_of(switch: VideoSwitch) -> Directive {
    match switch {
        VideoSwitch::Unchanged => Directive::Idle,
        VideoSwitch::Start { camera, encoder } => Directive::StartVideo { camera, encoder },
        VideoSwitch::Stop => Directive::StopVideo,
    }
}

/// A connected session after a command that only concerns the session, and
/// the directive that follows.
pub open spec fn session_command<A, V>(s: SessionView<A, V>, command: MediaCommand) -> (
    SessionView<A, V>,
    Directive,
) {
    match command {
        MediaCommand::SetMute(muted) => (SessionView { muted, ..s }, Directive::Idle),
        MediaCommand::SetDeaf(deafened) => (SessionView { deafened, ..s }, Directive::Idle),
        MediaCommand::SetVideo(enabled) => (
            video_switch_step(s, enabled).0,
            directive_of(video_switch_step(s, enabled).1),
        ),
        MediaCommand::SetVideoConfig(config) => (
            SessionView { video_config: config, ..s },
            Directive::Idle,
        ),
        MediaCommand::SetInputVolume(volume) => (
            SessionView { input_volume: volume, ..s },
            Directive::Idle,
        ),
        MediaCommand::SetOutputVolume(volume) => (
            SessionView { output_volume: volume, ..s },
            Directive::Idle,
        ),
        MediaCommand::SetNoiseGate(level) => (SessionView { noise_gate: level, ..s }, Directive::Idle),
        MediaCommand::SetUserVolume { user_id, volume } => (
            with_user_volume(s, user_id, volume),
            Directive::Idle,
        ),
        MediaCommand::Connect(_) => (s, Directive::Idle),
        MediaCommand::Disconnect => (s, Directive::Idle),
    }
}

/// The announcement and directive for the reconnection attempt that
/// follows `failed` failed ones, or the giving up.
pub open spec fn reconnect_outcome<A, V>(s: SupervisorView<A, V>, failed: u32) -> (
    SupervisorView<A, V>,
    Seq<EventView>,
    Directive,
) {
    match reconnect_step(failed) {
        ReconnectStep::Attempt { attempt, delay_secs } => (
            SupervisorView { session: None, pending: Pending::Reconnecting { failed }, ..s },
            seq![EventView::Reconnecting { attempt, delay_secs }],
            Directive::Establish { delay_secs },
        ),
        ReconnectStep::GiveUp => (
            SupervisorView { session: None, last_connect_params: None, pending: Pending::Nothing },
            seq![EventView::Disconnected("Reconnection failed after 5 attempts"@)],
            Directive::Close,
        ),
    }
}

/// The supervisor after an input, the events to report and the directive.
///
/// While a connection result is awaited, only that result counts. Without
/// a session, only a command to connect counts. A command to connect drops
/// the session before the attempt; a failed attempt leaves the parameters
/// of the last successful one in place. A failed read drops the session
/// and starts reconnecting where parameters are kept, else it ends the
/// session for good.
pub open spec fn supervise<A, V>(s: SupervisorView<A, V>, input: Input) -> (
    SupervisorView<A, V>,
    Seq<EventView>,
    Directive,
) {
    match s.pending {
        Pending::Connecting(params) => match input {
            Input::Established => (
                SupervisorView {
                    session: Some(fresh_session(params.room_id, params.user_id)),
                    last_connect_params: Some(params),
                    pending: Pending::Nothing,
                },
                seq![EventView::Connected],
                Directive::Idle,
            ),
            Input::EstablishFailed(reason) => (
                SupervisorView { pending: Pending::Nothing, ..s },
                seq![EventView::ConnectFailed(reason@)],
                Directive::Idle,
            ),
            _ => (s, Seq::empty(), Directive::Idle),
        },
        Pending::Reconnecting { failed } => match input {
            Input::Established => match s.last_connect_params {
                Some(params) => (
                    SupervisorView {
                        session: Some(fresh_session(params.room_id, params.user_id)),
                        pending: Pending::Nothing,
                        ..s
                    },
                    seq![EventView::Connected],
                    Directive::Idle,
                ),
                None => (
                    SupervisorView { pending: Pending::Nothing, ..s },
                    Seq::empty(),
                    Directive::Idle,
                ),
            },
            Input::EstablishFailed(_) => if failed < u32::MAX {
                reconnect_outcome(s, (failed + 1) as u32)
            } else {
                reconnect_outcome(s, failed)
            },
            _ => (s, Seq::empty(), Directive::Idle),
        },
        Pending::Nothing => match s.session {
            None => match input {
                Input::Command(MediaCommand::Connect(params)) => (
                    SupervisorView { pending: Pending::Connecting(params), ..s },
                    Seq::empty(),
                    Directive::Establish { delay_secs: 0 },
                ),
                _ => (s, Seq::empty(), Directive::Idle),
            },
            Some(session) => match input {
                Input::Command(MediaCommand::Connect(params)) => (
                    SupervisorView { session: None, pending: Pending::Connecting(params), ..s },
                    Seq::empty(),
                    Directive::Establish { delay_secs: 0 },
                ),
                Input::Command(MediaCommand::Disconnect) => (
                    SupervisorView {
                        session: None,
                        last_connect_params: None,
                        pending: Pending::Nothing,
                    },
                    seq![EventView::Disconnected("user requested"@)],
                    Directive::Close,
                ),
                Input::Command(command) => (
                    SupervisorView { session: Some(session_command(session, command).0), ..s },
                    Seq::empty(),
                    session_command(session, command).1,
                ),
                Input::VideoStarted => (
                    SupervisorView {
                        session: Some(
                            SessionView {
                                video: true,
                                video_sequence: 0,
                                video_timestamp: 0,
                                ..session
                            },
                        ),
                        ..s
                    },
                    Seq::empty(),
                    Directive::Idle,
                ),
                Input::CameraFailed(message) => (
                    s,
                    seq![EventView::VideoError("Camera start failed: "@ + message@)],
                    Directive::Idle,
                ),
                Input::EncoderFailed(message) => (
                    s,
                    seq![EventView::VideoError("AV1 encoder init failed: "@ + message@)],
                    Directive::StopVideo,
                ),
                Input::ReadFailed(message) => match s.last_connect_params {
                    Some(_) => reconnect_outcome(s, 0),
                    None => (
                        SupervisorView { session: None, ..s },
                        seq![EventView::Disconnected(message@)],
                        Directive::Close,
                    ),
                },
                Input::Established => (s, Seq::empty(), Directive::Idle),
                Input::EstablishFailed(_) => (s, Seq::empty(), Directive::Idle),
            },
        },
    }
}

/// The event for a change of a speaking state.
pub fn speaking_report(event: SpeakingEvent) -> (e: MediaEvent)
    ensures
        e@ == (match event {
            SpeakingEvent::Start(user_id) => EventView::SpeakingStart(user_id),
            SpeakingEvent::Stop(user_id) => EventView::SpeakingStop(user_id),
        }),
{
    match event {
        SpeakingEvent::Start(user_id) => MediaEvent::SpeakingStart(user_id),
        SpeakingEvent::Stop(user_id) => MediaEvent::SpeakingStop(user_id),
    }
}

/// The event for a video packet that the encoder refused.
pub fn encode_failure(message: &str) -> (e: MediaEvent)
    ensures
        e@ == EventView::VideoError("AV1 encode: "@ + message@),
{
    MediaEvent::VideoError(prefixed("AV1 encode: ", message))
}

/// The supervisor: the session, if connected, the parameters of the last
/// successful connection, and what is awaited.
pub struct Supervisor<A, V> {
    pub session: Option<Session<A, V>>,
    pub last_connect_params: Option<ConnectParams>,
    pub pending: Pending,
}

impl<A, V> View for Supervisor<A, V> {
    type V = SupervisorView<A, V>;

    open spec fn view(&self) -> SupervisorView<A, V> {
        SupervisorView {
            session: match self.session {
                Some(s) => Some(s@),
                None => None,
            },
            last_connect_params: self.last_connect_params,
            pending: self.pending,
        }
    }
}

fn quiet(directive: Directive) -> (out: Outcome)
    ensures
        events_view(out.events@) == Seq::<EventView>::empty(),
        out.directive == directive,
{
    let out = Outcome { events: Vec::new(), directive };
    assert(events_view(out.events@) =~= Seq::<EventView>::empty());
    out
}

fn saying(event: MediaEvent, directive: Directive) -> (out: Outcome)
    ensures
        events_view(out.events@) == seq![event@],
        out.directive == directive,
{
    let mut events: Vec<MediaEvent> = Vec::new();
    events.push(event);
    let out = Outcome { events, directive };
    assert(events_view(out.events@) =~= seq![event@]);
    out
}

impl<A, V> Supervisor<A, V> {
    /// A supervisor without a session.
    pub fn new() -> (s: Supervisor<A, V>)
        ensures
            s@ == (SupervisorView::<A, V> {
                session: None,
                last_connect_params: None,
                pending: Pending::Nothing,
            }),
    {
        Supervisor { session: None, last_connect_params: None, pending: Pending::Nothing }
    }

    /// Whether a session is live.
    pub fn is_connected(&self) -> (connected: bool)
        ensures
            connected == self@.session.is_some(),
    {
        self.session.is_some()
    }

    /// The parameters for the connection attempt that was asked for.
    pub fn establish_params(&self) -> (params: Option<&ConnectParams>)
        ensures
            params == (match self@.pending {
                Pending::Connecting(p) => Some(&p),
                Pending::Reconnecting { .. } => match self@.last_connect_params {
                    Some(p) => Some(&p),
                    None => None,
                },
                Pending::Nothing => None,
            }),
    {
        match &self.pending {
            Pending::Connecting(p) => Some(p),
            Pending::Reconnecting { .. } => self.last_connect_params.as_ref(),
            Pending::Nothing => None,
        }
    }

    fn reconnect(&mut self, failed: u32) -> (out: Outcome)
        ensures
            final(self)@ == reconnect_outcome(old(self)@, failed).0,
            events_view(out.events@) == reconnect_outcome(old(self)@, failed).1,
            out.directive == reconnect_outcome(old(self)@, failed).2,
    {
        self.session = None;
        match next_reconnect_step(failed) {
            ReconnectStep::Attempt { attempt, delay_secs } => {
                self.pending = Pending::Reconnecting { failed };
                saying(
                    MediaEvent::Reconnecting { attempt, delay_secs },
                    Directive::Establish { delay_secs },
                )
            },
            ReconnectStep::GiveUp => {
                self.last_connect_params = None;
                self.pending = Pending::Nothing;
                saying(
                    MediaEvent::Disconnected("Reconnection failed after 5 attempts".to_owned()),
                    Directive::Close,
                )
            },
        }
    }

    fn on_session_command(&mut self, command: MediaCommand) -> (out: Outcome)
        requires
            old(self).session.is_some(),
            old(self).pending == Pending::Nothing,
            !(command is Connect),
            !(command is Disconnect),
        ensures
            final(self)@ == supervise(old(self)@, Input::Command(command)).0,
            events_view(out.events@) == supervise(old(self)@, Input::Command(command)).1,
            out.directive == supervise(old(self)@, Input::Command(command)).2,
    {
        let mut session = self.session.take().unwrap();
        let directive = match command {
            MediaCommand::SetMute(muted) => {
                session.set_mute(muted);
                Directive::Idle
            },
            MediaCommand::SetDeaf(deafened) => {
                session.set_deaf(deafened);
                Directive::Idle
            },
            MediaCommand::SetVideo(enabled) => match session.set_video(enabled) {
                VideoSwitch::Unchanged => Directive::Idle,
                VideoSwitch::Start { camera, encoder } => Directive::StartVideo { camera, encoder },
                VideoSwitch::Stop => Directive::StopVideo,
            },
            MediaCommand::SetVideoConfig(config) => {
                session.set_video_config(config);
                Directive::Idle
            },
            MediaCommand::SetInputVolume(volume) => {
                session.set_input_volume(volume);
                Directive::Idle
            },
            MediaCommand::SetOutputVolume(volume) => {
                session.set_output_volume(volume);
                Directive::Idle
            },
            MediaCommand::SetNoiseGate(level) => {
                session.set_noise_gate(level);
                Directive::Idle
            },
            MediaCommand::SetUserVolume { user_id, volume } => {
                session.set_user_volume(user_id, volume);
                Directive::Idle
            },
            MediaCommand::Connect(_) => Directive::Idle,
            MediaCommand::Disconnect => Directive::Idle,
        };
        self.session = Some(session);
        quiet(directive)
    }

    fn on_command(&mut self, command: MediaCommand) -> (out: Outcome)
        requires
            old(self).pending == Pending::Nothing,
        ensures
            final(self)@ == supervise(old(self)@, Input::Command(command)).0,
            events_view(out.events@) == supervise(old(self)@, Input::Command(command)).1,
            out.directive == supervise(old(self)@, Input::Command(command)).2,
    {
        match command {
            MediaCommand::Connect(params) => {
                self.session = None;
                self.pending = Pending::Connecting(params);
                quiet(Directive::Establish { delay_secs: 0 })
            },
            MediaCommand::Disconnect => {
                if self.session.is_some() {
                    self.session = None;
                    self.last_connect_params = None;
                    saying(MediaEvent::Disconnected("user requested".to_owned()), Directive::Close)
                } else {
                    quiet(Directive::Idle)
                }
            },
            other => {
                if self.session.is_some() {
                    self.on_session_command(other)
                } else {
                    quiet(Directive::Idle)
                }
            },
        }
    }

    fn on_established(&mut self) -> (out: Outcome)
        ensures
            final(self)@ == supervise(old(self)@, Input::Established).0,
            events_view(out.events@) == supervise(old(self)@, Input::Established).1,
            out.directive == supervise(old(self)@, Input::Established).2,
    {
        let mut pending = Pending::Nothing;
        core::mem::swap(&mut pending, &mut self.pending);
        match pending {
            Pending::Connecting(params) => {
                self.session = Some(Session::new(params.room_id, params.user_id));
                self.last_connect_params = Some(params);
                saying(MediaEvent::Connected, Directive::Idle)
            },
            Pending::Reconnecting { failed } => {
                let ids: Option<(u32, u32)> = match &self.last_connect_params {
                    Some(p) => Some((p.room_id, p.user_id)),
                    None => None,
                };
                match ids {
                    Some((room_id, user_id)) => {
                        self.session = Some(Session::new(room_id, user_id));
                        saying(MediaEvent::Connected, Directive::Idle)
                    },
                    None => quiet(Directive::Idle),
                }
            },
            Pending::Nothing => quiet(Directive::Idle),
        }
    }

    fn on_establish_failed(&mut self, reason: String) -> (out: Outcome)
        ensures
            final(self)@ == supervise(old(self)@, Input::EstablishFailed(reason)).0,
            events_view(out.events@) == supervise(old(self)@, Input::EstablishFailed(reason)).1,
            out.directive == supervise(old(self)@, Input::EstablishFailed(reason)).2,
    {
        let mut pending = Pending::Nothing;
        core::mem::swap(&mut pending, &mut self.pending);
        match pending {
            Pending::Connecting(_) => saying(MediaEvent::ConnectFailed(reason), Directive::Idle),
            Pending::Reconnecting { failed } => {
                self.pending = Pending::Reconnecting { failed };
                if failed < u32::MAX {
                    self.reconnect(failed + 1)
                } else {
                    self.reconnect(failed)
                }
            },
            Pending::Nothing => quiet(Directive::Idle),
        }
    }

    fn on_read_failed(&mut self, message: String) -> (out: Outcome)
        requires
            old(self).pending == Pending::Nothing,
        ensures
            final(self)@ == supervise(old(self)@, Input::ReadFailed(message)).0,
            events_view(out.events@) == supervise(old(self)@, Input::ReadFailed(message)).1,
            out.directive == supervise(old(self)@, Input::ReadFailed(message)).2,
    {
        if self.session.is_none() {
            quiet(Directive::Idle)
        } else if self.last_connect_params.is_some() {
            self.reconnect(0)
        } else {
            self.session = None;
            saying(MediaEvent::Disconnected(message), Directive::Close)
        }
    }

    /// Take one input and answer with the events to report and the
    /// directive to follow.
    pub fn handle(&mut self, input: Input) -> (out: Outcome)
        ensures
            final(self)@ == supervise(old(self)@, input).0,
            events_view(out.events@) == supervise(old(self)@, input).1,
            out.directive == supervise(old(self)@, input).2,
    {
        match input {
            Input::Established => self.on_established(),
            Input::EstablishFailed(reason) => self.on_establish_failed(reason),
            other => {
                let waiting: bool = match &self.pending {
                    Pending::Nothing => false,
                    _ => true,
                };
                if waiting {
                    quiet(Directive::Idle)
                } else {
                    match other {
                        Input::Command(command) => self.on_command(command),
                        Input::ReadFailed(message) => self.on_read_failed(message),
                        Input::VideoStarted => {
                            if self.session.is_some() {
                                let mut session = self.session.take().unwrap();
                                session.video_started();
                                self.session = Some(session);
                            }
                            quiet(Directive::Idle)
                        },
                        Input::CameraFailed(message) => {
                            if self.session.is_some() {
                                saying(
                                    MediaEvent::VideoError(
                                        prefixed("Camera start failed: ", message.as_str()),
                                    ),
                                    Directive::Idle,
                                )
                            } else {
                                quiet(Directive::Idle)
                            }
                        },
                        Input::EncoderFailed(message) => {
                            if self.session.is_some() {
                                saying(
                                    MediaEvent::VideoError(
                                        prefixed("AV1 encoder init failed: ", message.as_str()),
                                    ),
                                    Directive::StopVideo,
                                )
                            } else {
                                quiet(Directive::Idle)
                            }
                        },
                        Input::Established => quiet(Directive::Idle),
                        Input::EstablishFailed(_) => quiet(Directive::Idle),
                    }
                }
            },
        }
    }
}

} // verus!
