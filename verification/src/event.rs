//! Events that the engine reports to its host, as `(type, detail)` pairs.

use crate::text::decimal;
use crate::text::push_decimal;
use vstd::prelude::*;

verus! {

/// What the engine tells its host.
#[derive(Debug, Clone, PartialEq, Eq)]
pub enum MediaEvent {
    Connected,
    Disconnected(String),
    ConnectFailed(String),
    Reconnecting { attempt: u32, delay_secs: u64 },
    AudioError(String),
    VideoError(String),
    SpeakingStart(u32),
    SpeakingStop(u32),
}

/// An event with its texts as sequences of characters.
pub enum EventView {
    Connected,
    Disconnected(Seq<char>),
    ConnectFailed(Seq<char>),
    Reconnecting { attempt: u32, delay_secs: u64 },
    AudioError(Seq<char>),
    VideoError(Seq<char>),
    SpeakingStart(u32),
    SpeakingStop(u32),
}

impl View for MediaEvent {
    type V = EventView;

    open spec fn view(&self) -> EventView {
        match self {
            MediaEvent::Connected => EventView::Connected,
            MediaEvent::Disconnected(reason) => EventView::Disconnected(reason@),
            MediaEvent::ConnectFailed(reason) => EventView::ConnectFailed(reason@),
            MediaEvent::Reconnecting { attempt, delay_secs } => EventView::Reconnecting {
                attempt: *attempt,
                delay_secs: *delay_secs,
            },
            MediaEvent::AudioError(message) => EventView::AudioError(message@),
            MediaEvent::VideoError(message) => EventView::VideoError(message@),
            MediaEvent::SpeakingStart(user_id) => EventView::SpeakingStart(*user_id),
            MediaEvent::SpeakingStop(user_id) => EventView::SpeakingStop(*user_id),
        }
    }
}

/// The views of a run of events.
pub open spec fn events_view(events: Seq<MediaEvent>) -> Seq<EventView> {
    events.map_values(|e: MediaEvent| e@)
}

/// The type word of an event.
pub open spec fn event_type(event: MediaEvent) -> Seq<char> {
    match event {
        MediaEvent::Connected => "connected"@,
        MediaEvent::Disconnected(_) => "disconnected"@,
        MediaEvent::ConnectFailed(_) => "connect_failed"@,
        MediaEvent::Reconnecting { .. } => "reconnecting"@,
        MediaEvent::AudioError(_) => "audio_error"@,
        MediaEvent::VideoError(_) => "video_error"@,
        MediaEvent::SpeakingStart(_) => "speaking_start"@,
        MediaEvent::SpeakingStop(_) => "speaking_stop"@,
    }
}

/// The detail of an event: the reason or message it carries, the attempt
/// and delay of a reconnection, the user of a speaking change.
pub open spec fn event_detail(event: MediaEvent) -> Seq<char> {
    match event {
        MediaEvent::Connected => Seq::empty(),
        MediaEvent::Disconnected(reason) => reason@,
        MediaEvent::ConnectFailed(reason) => reason@,
        MediaEvent::Reconnecting { attempt, delay_secs } => "attempt="@ + decimal(attempt as nat)
            + ",delay="@ + decimal(delay_secs as nat),
        MediaEvent::AudioError(message) => message@,
        MediaEvent::VideoError(message) => message@,
        MediaEvent::SpeakingStart(user_id) => decimal(user_id as nat),
        MediaEvent::SpeakingStop(user_id) => decimal(user_id as nat),
    }
}

fn number(n: u64) -> (s: String)
    ensures
        s@ == decimal(n as nat),
{
    let mut s = String::new();
    push_decimal(&mut s, n);
    assert(s@ =~= decimal(n as nat));
    s
}

impl MediaEvent {
    /// The event as the pair that the host polls.
    pub fn to_tuple(&self) -> (pair: (String, String))
        ensures
            pair.0@ == event_type(*self),
            pair.1@ == event_detail(*self),
    {
        match self {
            MediaEvent::Connected => ("connected".to_owned(), String::new()),
            MediaEvent::Disconnected(reason) => ("disconnected".to_owned(), reason.clone()),
            MediaEvent::ConnectFailed(reason) => ("connect_failed".to_owned(), reason.clone()),
            MediaEvent::Reconnecting { attempt, delay_secs } => {
                let mut detail = String::new();
                detail.push_str("attempt=");
                push_decimal(&mut detail, *attempt as u64);
                detail.push_str(",delay=");
                push_decimal(&mut detail, *delay_secs);
                assert(detail@ =~= event_detail(*self));
                ("reconnecting".to_owned(), detail)
            },
            MediaEvent::AudioError(message) => ("audio_error".to_owned(), message.clone()),
            MediaEvent::VideoError(message) => ("video_error".to_owned(), message.clone()),
            MediaEvent::SpeakingStart(user_id) => (
                "speaking_start".to_owned(),
                number(*user_id as u64),
            ),
            MediaEvent::SpeakingStop(user_id) => ("speaking_stop".to_owned(), number(*user_id as u64)),
        }
    }
}

} // verus!
