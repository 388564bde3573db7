use vstd::prelude::*;

use crate::error::{error_of, MpvError};
use crate::node::{decode_spec, opt_view, property_decoded, Node, Property};
use crate::raw::{
    mpv_event, mpv_event_client_message, EventData, MPV_END_FILE_REASON_EOF, MPV_END_FILE_REASON_ERROR,
    MPV_END_FILE_REASON_QUIT, MPV_END_FILE_REASON_REDIRECT, MPV_END_FILE_REASON_STOP,
    MPV_EVENT_AUDIO_RECONFIG, MPV_EVENT_CLIENT_MESSAGE, MPV_EVENT_COMMAND_REPLY,
    MPV_EVENT_END_FILE, MPV_EVENT_FILE_LOADED, MPV_EVENT_GET_PROPERTY_REPLY, MPV_EVENT_HOOK,
    MPV_EVENT_IDLE, MPV_EVENT_LOG_MESSAGE, MPV_EVENT_PLAYBACK_RESTART, MPV_EVENT_PROPERTY_CHANGE,
    MPV_EVENT_QUEUE_OVERFLOW, MPV_EVENT_SEEK, MPV_EVENT_SET_PROPERTY_REPLY, MPV_EVENT_SHUTDOWN,
    MPV_EVENT_START_FILE, MPV_EVENT_TICK, MPV_EVENT_VIDEO_RECONFIG, MPV_LOG_LEVEL_DEBUG,
    MPV_LOG_LEVEL_ERROR, MPV_LOG_LEVEL_FATAL, MPV_LOG_LEVEL_INFO, MPV_LOG_LEVEL_NONE,
    MPV_LOG_LEVEL_TRACE, MPV_LOG_LEVEL_V, MPV_LOG_LEVEL_WARN,
};
use crate::text::{text_from_bytes, utf8_text};

verus! {

/// Why playback of a file ended.
#[derive(Debug, Clone, Copy, PartialEq, Eq, Structural)]
pub enum EndFileReason {
    EOF,
    Stop,
    Quit,
    Error(MpvError),
    Redirect,
}

/// The reason that a tag names, given the error that came with it; nothing
/// for an unknown tag, or for the error reason without an error.
pub open spec fn end_file_reason_of(reason: u32, error: Option<MpvError>) -> Option<EndFileReason> {
    if reason == MPV_END_FILE_REASON_EOF {
        Some(EndFileReason::EOF)
    } else if reason == MPV_END_FILE_REASON_STOP {
        Some(EndFileReason::Stop)
    } else if reason == MPV_END_FILE_REASON_QUIT {
        Some(EndFileReason::Quit)
    } else if reason == MPV_END_FILE_REASON_ERROR {
        match error {
            Some(e) => Some(EndFileReason::Error(e)),
            None => None,
        }
    } else if reason == MPV_END_FILE_REASON_REDIRECT {
        Some(EndFileReason::Redirect)
    } else {
        None
    }
}

impl EndFileReason {
    /// Decode an end-of-file reason; an error reason carries the error that
    /// came with it.
    pub fn from_mpv_end_file_reason(level: u32, error: Option<MpvError>) -> (r: Option<EndFileReason>)
        ensures
            r == end_file_reason_of(level, error),
    {
        match level {
            MPV_END_FILE_REASON_EOF => Some(EndFileReason::EOF),
            MPV_END_FILE_REASON_STOP => Some(EndFileReason::Stop),
            MPV_END_FILE_REASON_QUIT => Some(EndFileReason::Quit),
            MPV_END_FILE_REASON_ERROR => match error {
                Some(e) => Some(EndFileReason::Error(e)),
                None => None,
            },
            MPV_END_FILE_REASON_REDIRECT => Some(EndFileReason::Redirect),
            _ => None,
        }
    }
}

/// Log levels; the lower, the more important.
#[derive(Debug, Clone, Copy, PartialEq, Eq, Structural)]
pub enum LogLevel {
    /// No messages at all.
    Off,
    Fatal,
    Error,
    Warn,
    Info,
    Noise,
    Debug,
    Trace,
}

/// The level that a tag names; nothing for an unknown tag.
pub open spec fn log_level_of(level: u32) -> Option<LogLevel> {
    if level == MPV_LOG_LEVEL_NONE {
        Some(LogLevel::Off)
    } else if level == MPV_LOG_LEVEL_FATAL {
        Some(LogLevel::Fatal)
    } else if level == MPV_LOG_LEVEL_ERROR {
        Some(LogLevel::Error)
    } else if level == MPV_LOG_LEVEL_WARN {
        Some(LogLevel::Warn)
    } else if level == MPV_LOG_LEVEL_INFO {
        Some(LogLevel::Info)
    } else if level == MPV_LOG_LEVEL_V {
        Some(LogLevel::Noise)
    } else if level == MPV_LOG_LEVEL_DEBUG {
        Some(LogLevel::Debug)
    } else if level == MPV_LOG_LEVEL_TRACE {
        Some(LogLevel::Trace)
    } else {
        None
    }
}

impl LogLevel {
    /// Decode a log level tag.
    pub fn from_mpv_log_level(level: u32) -> (r: Option<LogLevel>)
        ensures
            r == log_level_of(level),
    {
        match level {
            MPV_LOG_LEVEL_NONE => Some(LogLevel::Off),
            MPV_LOG_LEVEL_FATAL => Some(LogLevel::Fatal),
            MPV_LOG_LEVEL_ERROR => Some(LogLevel::Error),
            MPV_LOG_LEVEL_WARN => Some(LogLevel::Warn),
            MPV_LOG_LEVEL_INFO => Some(LogLevel::Info),
            MPV_LOG_LEVEL_V => Some(LogLevel::Noise),
            MPV_LOG_LEVEL_DEBUG => Some(LogLevel::Debug),
            MPV_LOG_LEVEL_TRACE => Some(LogLevel::Trace),
            _ => None,
        }
    }
}

/// One notification of the engine, fully owned.
#[derive(Debug)]
pub enum Event {
    /// The player quits; the client should destroy its handle soon.
    Shutdown,
    /// A log message that the client asked for.
    LogMessage { prefix: String, level: String, text: String, log_level: LogLevel },
    /// Reply to an asynchronous property read.
    GetPropertyReply { result: Result<Option<Property>, MpvError>, reply_userdata: u64 },
    /// Reply to an asynchronous property write.
    SetPropertyReply { result: Result<Option<Property>, MpvError>, reply_userdata: u64 },
    /// Reply to an asynchronous command.
    CommandReply { result: Result<Option<Node>, MpvError>, reply_userdata: u64 },
    /// A file is about to be loaded.
    StartFile { playlist_entry_id: i64 },
    /// A file was unloaded.
    EndFile {
        reason: EndFileReason,
        playlist_entry_id: i64,
        playlist_insert_id: i64,
        playlist_insert_num_entries: i64,
    },
    /// A file was loaded and decoding starts.
    FileLoaded,
    /// Idle mode was entered.
    Idle,
    /// Deprecated periodic notification.
    Tick,
    /// A message that another client sent to this one.
    ClientMessage { args: Vec<String> },
    /// The video output was reconfigured.
    VideoReconfig,
    /// The audio output was reconfigured.
    AudioReconfig,
    /// A seek was initiated.
    Seek,
    /// Playback was reinitialized, after a seek for instance.
    PlaybackRestart,
    /// An observed property changed.
    PropertyChange { result: Result<Option<Property>, MpvError>, reply_userdata: u64 },
    /// The event queue overflowed and events were dropped.
    QueueOverflow,
    /// A registered hook was invoked and waits for an acknowledgement.
    Hook { name: String, id: u64, reply_userdata: u64 },
}

/// The text of a byte string, when it is valid UTF-8.
pub open spec fn is_text(b: Seq<u8>) -> bool {
    utf8_text(b) is Some
}

/// Whether an event kind carries a property record.
pub open spec fn is_property_kind(id: u32) -> bool {
    id == MPV_EVENT_GET_PROPERTY_REPLY || id == MPV_EVENT_SET_PROPERTY_REPLY || id
        == MPV_EVENT_PROPERTY_CHANGE
}

/// What the engine guarantees of an event record: every kind that comes
/// with a payload has it, in the shape of its kind (reply kinds only when
/// they succeed), and a file that ended in error comes with its error code.
pub open spec fn event_wf(e: mpv_event) -> bool {
    if e.event_id == MPV_EVENT_LOG_MESSAGE {
        e.data matches Some(EventData::LogMessage(_))
    } else if is_property_kind(e.event_id) {
        error_of(e.error as int) is None ==> e.data matches Some(EventData::Property(_))
    } else if e.event_id == MPV_EVENT_COMMAND_REPLY {
        error_of(e.error as int) is None ==> e.data matches Some(EventData::Command(_))
    } else if e.event_id == MPV_EVENT_START_FILE {
        e.data matches Some(EventData::StartFile(_))
    } else if e.event_id == MPV_EVENT_END_FILE {
        e.data matches Some(EventData::EndFile(f)) && (f.reason == MPV_END_FILE_REASON_ERROR ==> f.error < 0)
    } else if e.event_id == MPV_EVENT_CLIENT_MESSAGE {
        e.data matches Some(EventData::ClientMessage(_))
    } else if e.event_id == MPV_EVENT_HOOK {
        e.data matches Some(EventData::Hook(_))
    } else {
        true
    }
}

/// Whether a client message's count matches its arguments and each of them
/// is UTF-8.
pub open spec fn args_readable(m: mpv_event_client_message) -> bool {
    &&& 0 <= m.num_args <= m.args.len()
    &&& forall|i: int| 0 <= i < m.num_args ==> is_text(#[trigger] m.args@[i]@)
}

/// A string field read from a C string.
pub open spec fn text_of(s: String, b: Seq<u8>) -> bool {
    utf8_text(b) == Some(s@)
}

/// How a property reply folds status and payload: the error for a failed
/// status, else the property read from the record.
pub open spec fn property_result(
    error: i32,
    data: Option<EventData>,
    result: Result<Option<Property>, MpvError>,
) -> bool {
    match error_of(error as int) {
        Some(err) => result == Err::<Option<Property>, MpvError>(err),
        None => match data {
            Some(EventData::Property(p)) => result matches Ok(q) && property_decoded(p, q),
            _ => false,
        },
    }
}

/// What decoding an event record gives, kind by kind; nothing for a kind
/// that is not known.
pub open spec fn event_decoded(e: mpv_event, r: Option<Event>) -> bool {
    if e.event_id == MPV_EVENT_SHUTDOWN {
        r == Some(Event::Shutdown)
    } else if e.event_id == MPV_EVENT_LOG_MESSAGE {
        match e.data {
            Some(EventData::LogMessage(m)) => if is_text(m.prefix@) && is_text(m.level@) && is_text(
                m.text@,
            ) && log_level_of(m.log_level) is Some {
                r matches Some(Event::LogMessage { prefix, level, text, log_level }) && text_of(
                    prefix,
                    m.prefix@,
                ) && text_of(level, m.level@) && text_of(text, m.text@) && log_level_of(m.log_level)
                    == Some(log_level)
            } else {
                r is None
            },
            _ => false,
        }
    } else if e.event_id == MPV_EVENT_GET_PROPERTY_REPLY {
        r matches Some(Event::GetPropertyReply { result, reply_userdata })
            && reply_userdata == e.reply_userdata && property_result(e.error, e.data, result)
    } else if e.event_id == MPV_EVENT_SET_PROPERTY_REPLY {
        r matches Some(Event::SetPropertyReply { result, reply_userdata })
            && reply_userdata == e.reply_userdata && property_result(e.error, e.data, result)
    } else if e.event_id == MPV_EVENT_PROPERTY_CHANGE {
        r matches Some(Event::PropertyChange { result, reply_userdata })
            && reply_userdata == e.reply_userdata && property_result(e.error, e.data, result)
    } else if e.event_id == MPV_EVENT_COMMAND_REPLY {
        r matches Some(Event::CommandReply { result, reply_userdata })
            && reply_userdata == e.reply_userdata && match error_of(e.error as int) {
            Some(err) => result == Err::<Option<Node>, MpvError>(err),
            None => match e.data {
                Some(EventData::Command(c)) => result matches Ok(n) && opt_view(n) == decode_spec(
                    c.result,
                ),
                _ => false,
            },
        }
    } else if e.event_id == MPV_EVENT_START_FILE {
        match e.data {
            Some(EventData::StartFile(f)) => r == Some(
                Event::StartFile { playlist_entry_id: f.playlist_entry_id },
            ),
            _ => false,
        }
    } else if e.event_id == MPV_EVENT_END_FILE {
        match e.data {
            Some(EventData::EndFile(f)) => match end_file_reason_of(f.reason, error_of(f.error as int)) {
                Some(reason) => r == Some(
                    Event::EndFile {
                        reason,
                        playlist_entry_id: f.playlist_entry_id,
                        playlist_insert_id: f.playlist_insert_id,
                        playlist_insert_num_entries: f.playlist_insert_num_entries as i64,
                    },
                ),
                None => r is None,
            },
            _ => false,
        }
    } else if e.event_id == MPV_EVENT_FILE_LOADED {
        r == Some(Event::FileLoaded)
    } else if e.event_id == MPV_EVENT_IDLE {
        r == Some(Event::Idle)
    } else if e.event_id == MPV_EVENT_TICK {
        r == Some(Event::Tick)
    } else if e.event_id == MPV_EVENT_CLIENT_MESSAGE {
        match e.data {
            Some(EventData::ClientMessage(m)) => if args_readable(m) {
                r matches Some(Event::ClientMessage { args }) && args.len() == m.num_args && forall|
                    i: int,
                |
                    0 <= i < args.len() ==> text_of(#[trigger] args@[i], m.args@[i]@)
            } else {
                r is None
            },
            _ => false,
        }
    } else if e.event_id == MPV_EVENT_VIDEO_RECONFIG {
        r == Some(Event::VideoReconfig)
    } else if e.event_id == MPV_EVENT_AUDIO_RECONFIG {
        r == Some(Event::AudioReconfig)
    } else if e.event_id == MPV_EVENT_SEEK {
        r == Some(Event::Seek)
    } else if e.event_id == MPV_EVENT_PLAYBACK_RESTART {
        r == Some(Event::PlaybackRestart)
    } else if e.event_id == MPV_EVENT_QUEUE_OVERFLOW {
        r == Some(Event::QueueOverflow)
    } else if e.event_id == MPV_EVENT_HOOK {
        match e.data {
            Some(EventData::Hook(h)) => if is_text(h.name@) {
                r matches Some(Event::Hook { name, id, reply_userdata }) && text_of(name, h.name@)
                    && id == h.id && reply_userdata == e.reply_userdata
            } else {
                r is None
            },
            _ => false,
        }
    } else {
        r is None
    }
}

/// Read a C string as text; `None` when it is not UTF-8.
fn read_text(b: &Vec<u8>) -> (r: Option<String>)
    ensures
        r is Some <==> is_text(b@),
        r matches Some(t) ==> text_of(t, b@),
{
    text_from_bytes(b.clone())
}

/// Fold a property reply's status and payload.
fn property_reply(error: i32, data: Option<EventData>) -> (r: Result<Option<Property>, MpvError>)
    requires
        error_of(error as int) is None ==> data matches Some(EventData::Property(_)),
    ensures
        property_result(error, data, r),
{
    match MpvError::from_mpv_error(error) {
        Some(err) => Err(err),
        None => match data {
            Some(EventData::Property(p)) => Ok(Property::from_mpv_property(p)),
            _ => {
                proof {
                    assert(false);
                }
                Err(MpvError::Unspecified)
            },
        },
    }
}

impl Event {
    /// Whether a record keeps the engine's guarantees, so that
    /// `from_mpv_event` can read it.
    pub fn is_decodable(event: &mpv_event) -> (r: bool)
        ensures
            r == event_wf(*event),
    {
        let id = event.event_id;
        if id == MPV_EVENT_LOG_MESSAGE {
            match &event.data {
                Some(EventData::LogMessage(_)) => true,
                _ => false,
            }
        } else if id == MPV_EVENT_GET_PROPERTY_REPLY || id == MPV_EVENT_SET_PROPERTY_REPLY || id
            == MPV_EVENT_PROPERTY_CHANGE {
            MpvError::from_mpv_error(event.error).is_some() || match &event.data {
                Some(EventData::Property(_)) => true,
                _ => false,
            }
        } else if id == MPV_EVENT_COMMAND_REPLY {
            MpvError::from_mpv_error(event.error).is_some() || match &event.data {
                Some(EventData::Command(_)) => true,
                _ => false,
            }
        } else if id == MPV_EVENT_START_FILE {
            match &event.data {
                Some(EventData::StartFile(_)) => true,
                _ => false,
            }
        } else if id == MPV_EVENT_END_FILE {
            match &event.data {
                Some(EventData::EndFile(f)) => f.reason != MPV_END_FILE_REASON_ERROR || f.error < 0,
                _ => false,
            }
        } else if id == MPV_EVENT_CLIENT_MESSAGE {
            match &event.data {
                Some(EventData::ClientMessage(_)) => true,
                _ => false,
            }
        } else if id == MPV_EVENT_HOOK {
            match &event.data {
                Some(EventData::Hook(_)) => true,
                _ => false,
            }
        } else {
            true
        }
    }

    /// Decode an event record into an owned event. The caller releases the
    /// record's payload afterwards, whatever this returns.
    pub fn from_mpv_event(event: mpv_event) -> (r: Option<Event>)
        requires
            event_wf(event),
        ensures
            event_decoded(event, r),
    {
        let id = event.event_id;
        if id == MPV_EVENT_SHUTDOWN {
            Some(Event::Shutdown)
        } else if id == MPV_EVENT_LOG_MESSAGE {
            match &event.data {
                Some(EventData::LogMessage(m)) => {
                    match (
                        read_text(&m.prefix),
                        read_text(&m.level),
                        read_text(&m.text),
                        LogLevel::from_mpv_log_level(m.log_level),
                    ) {
                        (Some(prefix), Some(level), Some(text), Some(log_level)) => Some(
                            Event::LogMessage { prefix, level, text, log_level },
                        ),
                        _ => None,
                    }
                },
                _ => None,
            }
        } else if id == MPV_EVENT_GET_PROPERTY_REPLY {
            Some(
                Event::GetPropertyReply {
                    result: property_reply(event.error, event.data),
                    reply_userdata: event.reply_userdata,
                },
            )
        } else if id == MPV_EVENT_SET_PROPERTY_REPLY {
            Some(
                Event::SetPropertyReply {
                    result: property_reply(event.error, event.data),
                    reply_userdata: event.reply_userdata,
                },
            )
        } else if id == MPV_EVENT_PROPERTY_CHANGE {
            Some(
                Event::PropertyChange {
                    result: property_reply(event.error, event.data),
                    reply_userdata: event.reply_userdata,
                },
            )
        } else if id == MPV_EVENT_COMMAND_REPLY {
            let reply_userdata = event.reply_userdata;
            let result = match MpvError::from_mpv_error(event.error) {
                Some(err) => Err(err),
                None => match event.data {
                    Some(EventData::Command(c)) => Ok(Node::from_mpv_node(c.result)),
                    _ => Err(MpvError::Unspecified),
                },
            };
            Some(Event::CommandReply { result, reply_userdata })
        } else if id == MPV_EVENT_START_FILE {
            match &event.data {
                Some(EventData::StartFile(f)) => Some(
                    Event::StartFile { playlist_entry_id: f.playlist_entry_id },
                ),
                _ => None,
            }
        } else if id == MPV_EVENT_END_FILE {
            match &event.data {
                Some(EventData::EndFile(f)) => {
                    match EndFileReason::from_mpv_end_file_reason(
                        f.reason,
                        MpvError::from_mpv_error(f.error),
                    ) {
                        Some(reason) => Some(
                            Event::EndFile {
                                reason,
                                playlist_entry_id: f.playlist_entry_id,
                                playlist_insert_id: f.playlist_insert_id,
                                playlist_insert_num_entries: f.playlist_insert_num_entries as i64,
                            },
                        ),
                        None => None,
                    }
                },
                _ => None,
            }
        } else if id == MPV_EVENT_FILE_LOADED {
            Some(Event::FileLoaded)
        } else if id == MPV_EVENT_IDLE {
            Some(Event::Idle)
        } else if id == MPV_EVENT_TICK {
            Some(Event::Tick)
        } else if id == MPV_EVENT_CLIENT_MESSAGE {
            match &event.data {
                Some(EventData::ClientMessage(m)) => {
                    if m.num_args < 0 || m.num_args as usize > m.args.len() {
                        assert(!args_readable(*m));
                        return None;
                    }
                    let n = m.num_args as usize;
                    let mut args: Vec<String> = Vec::new();
                    let mut i: usize = 0;
                    while i < n
                        invariant
                            event.event_id == MPV_EVENT_CLIENT_MESSAGE,
                            event.data == Some(EventData::ClientMessage(*m)),
                            n == m.num_args,
                            n <= m.args.len(),
                            i <= n,
                            args.len() == i,
                            forall|j: int| 0 <= j < i ==> is_text(#[trigger] m.args@[j]@),
                            forall|j: int| 0 <= j < i ==> text_of(#[trigger] args@[j], m.args@[j]@),
                        decreases n - i,
                    {
                        match read_text(&m.args[i]) {
                            Some(t) => args.push(t),
                            None => {
                                assert(!is_text(m.args@[i as int]@));
                                assert(!args_readable(*m));
                                return None;
                            },
                        }
                        i += 1;
                    }
                    Some(Event::ClientMessage { args })
                },
                _ => None,
            }
        } else if id == MPV_EVENT_VIDEO_RECONFIG {
            Some(Event::VideoReconfig)
        } else if id == MPV_EVENT_AUDIO_RECONFIG {
            Some(Event::AudioReconfig)
        } else if id == MPV_EVENT_SEEK {
            Some(Event::Seek)
        } else if id == MPV_EVENT_PLAYBACK_RESTART {
            Some(Event::PlaybackRestart)
        } else if id == MPV_EVENT_QUEUE_OVERFLOW {
            Some(Event::QueueOverflow)
        } else if id == MPV_EVENT_HOOK {
            match &event.data {
                Some(EventData::Hook(h)) => match read_text(&h.name) {
                    Some(name) => Some(
                        Event::Hook { name, id: h.id, reply_userdata: event.reply_userdata },
                    ),
                    None => None,
                },
                _ => None,
            }
        } else {
            None
        }
    }
}

/// The kind tag of each event.
pub open spec fn event_id_of(e: Event) -> u32 {
    match e {
        Event::Shutdown => MPV_EVENT_SHUTDOWN,
        Event::LogMessage { .. } => MPV_EVENT_LOG_MESSAGE,
        Event::GetPropertyReply { .. } => MPV_EVENT_GET_PROPERTY_REPLY,
        Event::SetPropertyReply { .. } => MPV_EVENT_SET_PROPERTY_REPLY,
        Event::CommandReply { .. } => MPV_EVENT_COMMAND_REPLY,
        Event::StartFile { .. } => MPV_EVENT_START_FILE,
        Event::EndFile { .. } => MPV_EVENT_END_FILE,
        Event::FileLoaded => MPV_EVENT_FILE_LOADED,
        Event::Idle => MPV_EVENT_IDLE,
        Event::Tick => MPV_EVENT_TICK,
        Event::ClientMessage { .. } => MPV_EVENT_CLIENT_MESSAGE,
        Event::VideoReconfig => MPV_EVENT_VIDEO_RECONFIG,
        Event::AudioReconfig => MPV_EVENT_AUDIO_RECONFIG,
        Event::Seek => MPV_EVENT_SEEK,
        Event::PlaybackRestart => MPV_EVENT_PLAYBACK_RESTART,
        Event::PropertyChange { .. } => MPV_EVENT_PROPERTY_CHANGE,
        Event::QueueOverflow => MPV_EVENT_QUEUE_OVERFLOW,
        Event::Hook { .. } => MPV_EVENT_HOOK,
    }
}

impl Event {
    /// The kind tag of this event, as the engine's name lookup expects it.
    pub fn mpv_event_id(&self) -> (r: u32)
        ensures
            r == event_id_of(*self),
    {
        match self {
            Event::Shutdown => MPV_EVENT_SHUTDOWN,
            Event::LogMessage { .. } => MPV_EVENT_LOG_MESSAGE,
            Event::GetPropertyReply { .. } => MPV_EVENT_GET_PROPERTY_REPLY,
            Event::SetPropertyReply { .. } => MPV_EVENT_SET_PROPERTY_REPLY,
            Event::CommandReply { .. } => MPV_EVENT_COMMAND_REPLY,
            Event::StartFile { .. } => MPV_EVENT_START_FILE,
            Event::EndFile { .. } => MPV_EVENT_END_FILE,
            Event::FileLoaded => MPV_EVENT_FILE_LOADED,
            Event::Idle => MPV_EVENT_IDLE,
            Event::Tick => MPV_EVENT_TICK,
            Event::ClientMessage { .. } => MPV_EVENT_CLIENT_MESSAGE,
            Event::VideoReconfig => MPV_EVENT_VIDEO_RECONFIG,
            Event::AudioReconfig => MPV_EVENT_AUDIO_RECONFIG,
            Event::Seek => MPV_EVENT_SEEK,
            Event::PlaybackRestart => MPV_EVENT_PLAYBACK_RESTART,
            Event::PropertyChange { .. } => MPV_EVENT_PROPERTY_CHANGE,
            Event::QueueOverflow => MPV_EVENT_QUEUE_OVERFLOW,
            Event::Hook { .. } => MPV_EVENT_HOOK,
        }
    }
}

/// Decoding keeps the kind: an event decoded from a record has the record's
/// kind tag, and a record of an unknown kind decodes to no event.
pub proof fn lemma_decoded_kind(e: mpv_event, r: Option<Event>)
    requires
        event_decoded(e, r),
    ensures
        r matches Some(ev) ==> event_id_of(ev) == e.event_id,
        !is_known_kind(e.event_id) ==> r is None,
{
}

/// The event kinds that decoding knows.
pub open spec fn is_known_kind(id: u32) -> bool {
    ||| id == MPV_EVENT_SHUTDOWN
    ||| id == MPV_EVENT_LOG_MESSAGE
    ||| id == MPV_EVENT_GET_PROPERTY_REPLY
    ||| id == MPV_EVENT_SET_PROPERTY_REPLY
    ||| id == MPV_EVENT_COMMAND_REPLY
    ||| id == MPV_EVENT_START_FILE
    ||| id == MPV_EVENT_END_FILE
    ||| id == MPV_EVENT_FILE_LOADED
    ||| id == MPV_EVENT_IDLE
    ||| id == MPV_EVENT_TICK
    ||| id == MPV_EVENT_CLIENT_MESSAGE
    ||| id == MPV_EVENT_VIDEO_RECONFIG
    ||| id == MPV_EVENT_AUDIO_RECONFIG
    ||| id == MPV_EVENT_SEEK
    ||| id == MPV_EVENT_PLAYBACK_RESTART
    ||| id == MPV_EVENT_PROPERTY_CHANGE
    ||| id == MPV_EVENT_QUEUE_OVERFLOW
    ||| id == MPV_EVENT_HOOK
}

} // verus!
