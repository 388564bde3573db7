use libmpv_rs::client::next_event;
use libmpv_rs::error::MpvError;
use libmpv_rs::event::{EndFileReason, Event, LogLevel};
use libmpv_rs::node::Node;
use libmpv_rs::raw::{
    mpv_event, mpv_event_client_message, mpv_event_command, mpv_event_end_file, mpv_event_hook,
    mpv_event_log_message, mpv_event_property, mpv_event_start_file, mpv_node, EventData, NodeData,
    MPV_END_FILE_REASON_EOF, MPV_END_FILE_REASON_ERROR, MPV_END_FILE_REASON_REDIRECT,
    MPV_EVENT_CLIENT_MESSAGE, MPV_EVENT_COMMAND_REPLY, MPV_EVENT_END_FILE,
    MPV_EVENT_GET_PROPERTY_REPLY, MPV_EVENT_HOOK, MPV_EVENT_IDLE, MPV_EVENT_LOG_MESSAGE,
    MPV_EVENT_NONE, MPV_EVENT_PROPERTY_CHANGE, MPV_EVENT_SEEK, MPV_EVENT_SET_PROPERTY_REPLY,
    MPV_EVENT_SHUTDOWN, MPV_EVENT_START_FILE, MPV_FORMAT_FLAG, MPV_FORMAT_INT64,
    MPV_LOG_LEVEL_V, MPV_LOG_LEVEL_WARN,
};

fn record(event_id: u32, error: i32, data: Option<EventData>) -> mpv_event {
    mpv_event { event_id, error, reply_userdata: 77, data }
}

fn decode(e: mpv_event) -> Option<Event> {
    assert!(Event::is_decodable(&e));
    Event::from_mpv_event(e)
}

fn end_file(reason: u32, error: i32) -> mpv_event {
    record(
        MPV_EVENT_END_FILE,
        0,
        Some(EventData::EndFile(mpv_event_end_file {
            reason,
            error,
            playlist_entry_id: 4,
            playlist_insert_id: 9,
            playlist_insert_num_entries: 3,
        })),
    )
}

#[test]
fn end_file_with_error_reason() {
    match decode(end_file(MPV_END_FILE_REASON_ERROR, -13)) {
        Some(Event::EndFile { reason, playlist_entry_id, playlist_insert_id, playlist_insert_num_entries }) => {
            assert_eq!(reason, EndFileReason::Error(MpvError::LoadingFailed));
            assert_eq!(playlist_entry_id, 4);
            assert_eq!(playlist_insert_id, 9);
            assert_eq!(playlist_insert_num_entries, 3);
        }
        other => panic!("unexpected {:?}", other),
    }
}

#[test]
fn end_file_other_reasons() {
    assert!(matches!(decode(end_file(MPV_END_FILE_REASON_EOF, 0)), Some(Event::EndFile { reason: EndFileReason::EOF, .. })));
    assert!(matches!(decode(end_file(MPV_END_FILE_REASON_REDIRECT, 0)), Some(Event::EndFile { reason: EndFileReason::Redirect, .. })));
}

#[test]
fn end_file_error_without_code_is_refused() {
    assert!(!Event::is_decodable(&end_file(MPV_END_FILE_REASON_ERROR, 0)));
}

#[test]
fn end_file_unknown_reason_gives_no_event() {
    assert!(decode(end_file(1, 0)).is_none());
    assert!(decode(end_file(77, -3)).is_none());
}

#[test]
fn end_file_reason_decoding() {
    assert_eq!(EndFileReason::from_mpv_end_file_reason(2, None), Some(EndFileReason::Stop));
    assert_eq!(EndFileReason::from_mpv_end_file_reason(3, None), Some(EndFileReason::Quit));
    assert_eq!(
        EndFileReason::from_mpv_end_file_reason(4, Some(MpvError::NothingToPlay)),
        Some(EndFileReason::Error(MpvError::NothingToPlay))
    );
    assert_eq!(EndFileReason::from_mpv_end_file_reason(6, None), None);
    assert_eq!(EndFileReason::from_mpv_end_file_reason(4, None), None);
}

#[test]
fn empty_poll_gives_no_event() {
    assert!(next_event(None).is_none());
    assert!(next_event(Some(record(MPV_EVENT_NONE, 0, None))).is_none());
}

#[test]
fn unknown_kind_is_dropped() {
    assert!(decode(record(99, 0, None)).is_none());
    assert!(decode(record(9, 0, Some(EventData::StartFile(mpv_event_start_file { playlist_entry_id: 1 })))).is_none());
}

#[test]
fn payload_free_kinds() {
    assert!(matches!(decode(record(MPV_EVENT_SHUTDOWN, 0, None)), Some(Event::Shutdown)));
    assert!(matches!(decode(record(MPV_EVENT_IDLE, 0, None)), Some(Event::Idle)));
    assert!(matches!(decode(record(MPV_EVENT_SEEK, 0, None)), Some(Event::Seek)));
}

#[test]
fn start_file_event() {
    let e = record(MPV_EVENT_START_FILE, 0, Some(EventData::StartFile(mpv_event_start_file { playlist_entry_id: 12 })));
    assert!(matches!(decode(e), Some(Event::StartFile { playlist_entry_id: 12 })));
}

#[test]
fn missing_mandatory_payload_is_refused() {
    for id in [MPV_EVENT_LOG_MESSAGE, MPV_EVENT_START_FILE, MPV_EVENT_END_FILE, MPV_EVENT_CLIENT_MESSAGE, MPV_EVENT_HOOK, MPV_EVENT_GET_PROPERTY_REPLY, MPV_EVENT_COMMAND_REPLY] {
        assert!(!Event::is_decodable(&record(id, 0, None)));
    }
}

#[test]
fn log_message_event() {
    let m = mpv_event_log_message {
        prefix: b"cplayer".to_vec(),
        level: b"v".to_vec(),
        text: b"hello\n".to_vec(),
        log_level: MPV_LOG_LEVEL_V,
    };
    match decode(record(MPV_EVENT_LOG_MESSAGE, 0, Some(EventData::LogMessage(m)))) {
        Some(Event::LogMessage { prefix, level, text, log_level }) => {
            assert_eq!(prefix, "cplayer");
            assert_eq!(level, "v");
            assert_eq!(text, "hello\n");
            assert_eq!(log_level, LogLevel::Noise);
        }
        other => panic!("unexpected {:?}", other),
    }
}

#[test]
fn log_message_with_bad_text_gives_no_event() {
    let m = mpv_event_log_message { prefix: vec![0xff], level: b"v".to_vec(), text: vec![], log_level: MPV_LOG_LEVEL_WARN };
    assert!(decode(record(MPV_EVENT_LOG_MESSAGE, 0, Some(EventData::LogMessage(m)))).is_none());
    let m = mpv_event_log_message { prefix: vec![], level: vec![], text: vec![0xc0, 0x80], log_level: MPV_LOG_LEVEL_WARN };
    assert!(decode(record(MPV_EVENT_LOG_MESSAGE, 0, Some(EventData::LogMessage(m)))).is_none());
}

#[test]
fn log_message_with_unknown_level_gives_no_event() {
    let m = mpv_event_log_message { prefix: vec![], level: vec![], text: vec![], log_level: 15 };
    assert!(decode(record(MPV_EVENT_LOG_MESSAGE, 0, Some(EventData::LogMessage(m)))).is_none());
}

#[test]
fn log_levels() {
    assert_eq!(LogLevel::from_mpv_log_level(0), Some(LogLevel::Off));
    assert_eq!(LogLevel::from_mpv_log_level(10), Some(LogLevel::Fatal));
    assert_eq!(LogLevel::from_mpv_log_level(70), Some(LogLevel::Trace));
    assert_eq!(LogLevel::from_mpv_log_level(45), None);
}

#[test]
fn property_reply_success_and_failure() {
    let p = mpv_event_property { name: b"pause".to_vec(), format: MPV_FORMAT_FLAG, data: Some(NodeData::Flag(1)) };
    match decode(record(MPV_EVENT_GET_PROPERTY_REPLY, 0, Some(EventData::Property(p)))) {
        Some(Event::GetPropertyReply { result: Ok(Some(prop)), reply_userdata: 77 }) => {
            assert_eq!(prop.name, "pause");
            assert!(matches!(prop.data, Some(Node::Flag(true))));
        }
        other => panic!("unexpected {:?}", other),
    }
    let failed = record(MPV_EVENT_SET_PROPERTY_REPLY, -10, None);
    assert!(matches!(decode(failed), Some(Event::SetPropertyReply { result: Err(MpvError::PropertyUnavailable), .. })));
}

#[test]
fn property_change_unavailable_value() {
    let p = mpv_event_property { name: b"time-pos".to_vec(), format: 0, data: None };
    match decode(record(MPV_EVENT_PROPERTY_CHANGE, 0, Some(EventData::Property(p)))) {
        Some(Event::PropertyChange { result: Ok(Some(prop)), .. }) => {
            assert_eq!(prop.name, "time-pos");
            assert!(prop.data.is_none());
        }
        other => panic!("unexpected {:?}", other),
    }
}

#[test]
fn command_reply_event() {
    let c = mpv_event_command { result: mpv_node { u: NodeData::Int64(5), format: MPV_FORMAT_INT64 } };
    assert!(matches!(
        decode(record(MPV_EVENT_COMMAND_REPLY, 0, Some(EventData::Command(c)))),
        Some(Event::CommandReply { result: Ok(Some(Node::Int64(5))), reply_userdata: 77 })
    ));
    assert!(matches!(
        decode(record(MPV_EVENT_COMMAND_REPLY, -12, None)),
        Some(Event::CommandReply { result: Err(MpvError::CommandError), .. })
    ));
}

#[test]
fn client_message_event() {
    let m = mpv_event_client_message { num_args: 2, args: vec![b"seek".to_vec(), b"10".to_vec()] };
    match decode(record(MPV_EVENT_CLIENT_MESSAGE, 0, Some(EventData::ClientMessage(m)))) {
        Some(Event::ClientMessage { args }) => assert_eq!(args, vec!["seek".to_string(), "10".to_string()]),
        other => panic!("unexpected {:?}", other),
    }
    let short = mpv_event_client_message { num_args: 3, args: vec![b"a".to_vec()] };
    assert!(decode(record(MPV_EVENT_CLIENT_MESSAGE, 0, Some(EventData::ClientMessage(short)))).is_none());
    let bad = mpv_event_client_message { num_args: 2, args: vec![b"a".to_vec(), vec![0xff]] };
    assert!(decode(record(MPV_EVENT_CLIENT_MESSAGE, 0, Some(EventData::ClientMessage(bad)))).is_none());
    let empty = mpv_event_client_message { num_args: 0, args: vec![] };
    assert!(matches!(decode(record(MPV_EVENT_CLIENT_MESSAGE, 0, Some(EventData::ClientMessage(empty)))), Some(Event::ClientMessage { ref args }) if args.is_empty()));
}

#[test]
fn hook_with_bad_name_gives_no_event() {
    let h = mpv_event_hook { name: vec![0xe2, 0x82], id: 1 };
    assert!(decode(record(MPV_EVENT_HOOK, 0, Some(EventData::Hook(h)))).is_none());
}

#[test]
fn hook_event() {
    let h = mpv_event_hook { name: b"on_load".to_vec(), id: 31 };
    match decode(record(MPV_EVENT_HOOK, 0, Some(EventData::Hook(h)))) {
        Some(Event::Hook { name, id, reply_userdata }) => {
            assert_eq!(name, "on_load");
            assert_eq!(id, 31);
            assert_eq!(reply_userdata, 77);
        }
        other => panic!("unexpected {:?}", other),
    }
}

#[test]
fn event_kind_tags() {
    assert_eq!(Event::Shutdown.mpv_event_id(), MPV_EVENT_SHUTDOWN);
    assert_eq!(Event::ClientMessage { args: vec![] }.mpv_event_id(), MPV_EVENT_CLIENT_MESSAGE);
    let e = decode(end_file(MPV_END_FILE_REASON_EOF, 0)).unwrap();
    assert_eq!(e.mpv_event_id(), MPV_EVENT_END_FILE);
}
