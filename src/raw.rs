//! Plain-value models of the records that the engine exchanges through its
//! C interface. A pointer that may be null is an `Option`; a C string is the
//! bytes before its terminating NUL.
#![allow(non_camel_case_types)]
use vstd::prelude::*;

verus! {

/// Format tags of a foreign node.
pub const MPV_FORMAT_NONE: u32 = 0;
pub const MPV_FORMAT_STRING: u32 = 1;
pub const MPV_FORMAT_OSD_STRING: u32 = 2;
pub const MPV_FORMAT_FLAG: u32 = 3;
pub const MPV_FORMAT_INT64: u32 = 4;
pub const MPV_FORMAT_DOUBLE: u32 = 5;
pub const MPV_FORMAT_NODE: u32 = 6;
pub const MPV_FORMAT_NODE_ARRAY: u32 = 7;
pub const MPV_FORMAT_NODE_MAP: u32 = 8;
pub const MPV_FORMAT_BYTE_ARRAY: u32 = 9;

/// What the payload union of a foreign node holds, read through the member
/// that the node's format selects.
#[derive(Debug)]
pub enum NodeData {
    /// A C string.
    Text(Vec<u8>),
    /// A C `int` used as a truth value.
    Flag(i32),
    Int64(i64),
    /// A double, as its IEEE-754 bit pattern.
    Double(u64),
    /// A pointer to a list header; `None` when it is null.
    List(Option<mpv_node_list>),
    /// A pointer to a byte array header; `None` when it is null.
    ByteArray(Option<mpv_byte_array>),
}

/// A foreign node: a format tag and the payload it selects.
#[derive(Debug)]
pub struct mpv_node {
    pub u: NodeData,
    pub format: u32,
}

/// A foreign list or map: the entries that its count announces and that its
/// values pointer holds (none when that pointer is null), and for a map the
/// parallel keys.
#[derive(Debug)]
pub struct mpv_node_list {
    pub values: Vec<mpv_node>,
    pub keys: Vec<Vec<u8>>,
}

/// A foreign byte buffer.
#[derive(Debug)]
pub struct mpv_byte_array {
    pub data: Vec<u8>,
}

/// A property as an event reports it. The data pointer, when not null,
/// holds a payload of the record's format.
#[derive(Debug)]
pub struct mpv_event_property {
    pub name: Vec<u8>,
    pub format: u32,
    pub data: Option<NodeData>,
}

/// Event kinds.
pub const MPV_EVENT_NONE: u32 = 0;
pub const MPV_EVENT_SHUTDOWN: u32 = 1;
pub const MPV_EVENT_LOG_MESSAGE: u32 = 2;
pub const MPV_EVENT_GET_PROPERTY_REPLY: u32 = 3;
pub const MPV_EVENT_SET_PROPERTY_REPLY: u32 = 4;
pub const MPV_EVENT_COMMAND_REPLY: u32 = 5;
pub const MPV_EVENT_START_FILE: u32 = 6;
pub const MPV_EVENT_END_FILE: u32 = 7;
pub const MPV_EVENT_FILE_LOADED: u32 = 8;
pub const MPV_EVENT_IDLE: u32 = 11;
pub const MPV_EVENT_TICK: u32 = 14;
pub const MPV_EVENT_CLIENT_MESSAGE: u32 = 16;
pub const MPV_EVENT_VIDEO_RECONFIG: u32 = 17;
pub const MPV_EVENT_AUDIO_RECONFIG: u32 = 18;
pub const MPV_EVENT_SEEK: u32 = 20;
pub const MPV_EVENT_PLAYBACK_RESTART: u32 = 21;
pub const MPV_EVENT_PROPERTY_CHANGE: u32 = 22;
pub const MPV_EVENT_QUEUE_OVERFLOW: u32 = 24;
pub const MPV_EVENT_HOOK: u32 = 25;

/// Log levels; the lower, the more important.
pub const MPV_LOG_LEVEL_NONE: u32 = 0;
pub const MPV_LOG_LEVEL_FATAL: u32 = 10;
pub const MPV_LOG_LEVEL_ERROR: u32 = 20;
pub const MPV_LOG_LEVEL_WARN: u32 = 30;
pub const MPV_LOG_LEVEL_INFO: u32 = 40;
pub const MPV_LOG_LEVEL_V: u32 = 50;
pub const MPV_LOG_LEVEL_DEBUG: u32 = 60;
pub const MPV_LOG_LEVEL_TRACE: u32 = 70;

/// Reasons why playback of a file ended.
pub const MPV_END_FILE_REASON_EOF: u32 = 0;
pub const MPV_END_FILE_REASON_STOP: u32 = 2;
pub const MPV_END_FILE_REASON_QUIT: u32 = 3;
pub const MPV_END_FILE_REASON_ERROR: u32 = 4;
pub const MPV_END_FILE_REASON_REDIRECT: u32 = 5;

/// A log message.
#[derive(Debug)]
pub struct mpv_event_log_message {
    pub prefix: Vec<u8>,
    pub level: Vec<u8>,
    pub text: Vec<u8>,
    pub log_level: u32,
}

/// The start of a file's playback.
#[derive(Debug, Clone, Copy)]
pub struct mpv_event_start_file {
    pub playlist_entry_id: i64,
}

/// The end of a file's playback.
#[derive(Debug, Clone, Copy)]
pub struct mpv_event_end_file {
    pub reason: u32,
    pub error: i32,
    pub playlist_entry_id: i64,
    pub playlist_insert_id: i64,
    pub playlist_insert_num_entries: i32,
}

/// A message from another client: its count and its argument strings.
#[derive(Debug)]
pub struct mpv_event_client_message {
    pub num_args: i32,
    pub args: Vec<Vec<u8>>,
}

/// A hook that waits for an acknowledgement.
#[derive(Debug)]
pub struct mpv_event_hook {
    pub name: Vec<u8>,
    pub id: u64,
}

/// The result of an asynchronous command.
#[derive(Debug)]
pub struct mpv_event_command {
    pub result: mpv_node,
}

/// What an event's data pointer holds, read as the record that the event's
/// kind selects.
#[derive(Debug)]
pub enum EventData {
    Property(mpv_event_property),
    LogMessage(mpv_event_log_message),
    StartFile(mpv_event_start_file),
    EndFile(mpv_event_end_file),
    ClientMessage(mpv_event_client_message),
    Hook(mpv_event_hook),
    Command(mpv_event_command),
}

/// An event record: its kind, status code, the caller's correlation id and
/// its payload (`None` for a null data pointer).
#[derive(Debug)]
pub struct mpv_event {
    pub event_id: u32,
    pub error: i32,
    pub reply_userdata: u64,
    pub data: Option<EventData>,
}

} // verus!
