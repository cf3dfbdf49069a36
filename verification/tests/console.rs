use std::time::Duration;

use saili::backend::{BackendEvent, OutputMode};
use saili::console::{
    BackendState, BackendStatus, configured_mapping, handle_mapping_event, toggle_live, truncate_ascii, ConfigError, EditorKey,
    LiveToggle, MappingEditor, MappingEditorAction,
};
use saili::{MappingError, RcMapping};

const MILLISECOND: u64 = 1_000_000;

#[test]
fn transmit_rate_and_mapping_are_checked() {
    assert_eq!(
        configured_mapping(0, [1, 2, 3, 4], [false; 4]),
        Err(ConfigError::TransmitRate {
            value: 0,
            maximum: 50
        })
    );
    assert_eq!(
        configured_mapping(51, [1, 2, 3, 4], [false; 4]),
        Err(ConfigError::TransmitRate {
            value: 51,
            maximum: 50
        })
    );
    assert_eq!(
        configured_mapping(20, [1, 2, 2, 4], [false; 4]),
        Err(ConfigError::Mapping(MappingError::DuplicateChannel { channel: 2 }))
    );
    let mapping = configured_mapping(50, [4, 2, 1, 3], [false, true, false, false]).unwrap();
    assert_eq!(mapping.primary_channels(), [4, 2, 1, 3]);
    assert_eq!(
        ConfigError::TransmitRate {
            value: 0,
            maximum: 50
        }
        .message(),
        "transmit rate 0 Hz is invalid; use 1-50 Hz"
    );
    assert_eq!(
        ConfigError::Mapping(MappingError::ChannelOutOfRange { channel: 9 }).message(),
        "channel 9 is outside the valid 1-8 range"
    );
}

#[test]
fn going_live_needs_fresh_input_and_low_throttle() {
    assert_eq!(
        toggle_live(OutputMode::Live, Some(0), 2000),
        (OutputMode::SafeHold, LiveToggle::SafeHoldEnabled)
    );
    assert_eq!(
        toggle_live(OutputMode::SafeHold, None, 988),
        (OutputMode::SafeHold, LiveToggle::NoReport)
    );
    assert_eq!(
        toggle_live(OutputMode::SafeHold, Some(151 * MILLISECOND), 988),
        (OutputMode::SafeHold, LiveToggle::StaleInput)
    );
    assert_eq!(
        toggle_live(OutputMode::SafeHold, Some(150 * MILLISECOND), 1051),
        (OutputMode::SafeHold, LiveToggle::ThrottleHigh { throttle: 1051 })
    );
    assert_eq!(
        toggle_live(OutputMode::SafeHold, Some(150 * MILLISECOND), 1050),
        (OutputMode::Live, LiveToggle::LiveEnabled)
    );
    assert_eq!(
        LiveToggle::ThrottleHigh { throttle: 1200 }.notice(),
        "Cannot go live: throttle is 1200 us (must be <= 1050)"
    );
    assert_eq!(LiveToggle::SafeHoldEnabled.notice(), "Safe hold enabled");
}

#[test]
fn mapping_editor_keys_stay_in_range() {
    let mut editor = MappingEditor::from_mapping(&RcMapping::default());
    assert_eq!(editor.channels, [1, 2, 3, 4, 5, 6, 7, 8]);
    assert_eq!(handle_mapping_event(EditorKey::Up, &mut editor), MappingEditorAction::Continue);
    assert_eq!(editor.selected, 0);
    handle_mapping_event(EditorKey::Left, &mut editor);
    assert_eq!(editor.channels[0], 1);
    handle_mapping_event(EditorKey::Right, &mut editor);
    assert_eq!(editor.channels[0], 2);
    for _ in 0..10 {
        handle_mapping_event(EditorKey::Down, &mut editor);
    }
    assert_eq!(editor.selected, 7);
    handle_mapping_event(EditorKey::Right, &mut editor);
    assert_eq!(editor.channels[7], 8);
    handle_mapping_event(EditorKey::Invert, &mut editor);
    assert!(editor.inverted[7]);
    assert_eq!(handle_mapping_event(EditorKey::Escape, &mut editor), MappingEditorAction::Cancel);
    assert_eq!(handle_mapping_event(EditorKey::Enter, &mut editor), MappingEditorAction::Save);
    assert_eq!(handle_mapping_event(EditorKey::Other, &mut editor), MappingEditorAction::Continue);
}

#[test]
fn saving_a_duplicate_assignment_keeps_the_editor_open() {
    let mut editor = MappingEditor::from_mapping(&RcMapping::default());
    handle_mapping_event(EditorKey::Right, &mut editor);
    let editor = match editor.save() {
        Err(editor) => editor,
        Ok(_) => panic!("inputs 2 and 2 should be refused"),
    };
    assert_eq!(
        editor.error.as_deref(),
        Some("channel 2 is assigned to more than one primary control")
    );
    let mut editor = editor;
    handle_mapping_event(EditorKey::Left, &mut editor);
    assert!(editor.error.is_none());
    let mapping = editor.save().expect("the default assignment is valid");
    assert_eq!(mapping.all_channels(), [1, 2, 3, 4, 5, 6, 7, 8]);
}

#[test]
fn long_text_is_truncated_with_an_ellipsis() {
    assert_eq!(truncate_ascii("AB CD EF", 20), "AB CD EF");
    assert_eq!(truncate_ascii("AB CD EF", 8), "AB CD EF");
    assert_eq!(truncate_ascii("AB CD EF", 7), "AB C...");
    assert_eq!(truncate_ascii("AB CD EF", 3), "...");
    assert_eq!(truncate_ascii("AB CD EF", 2), "..");
    assert_eq!(truncate_ascii("AB CD EF", 0), "");
    assert_eq!(truncate_ascii("h\u{e9}llo w\u{f6}rld", 6), "h\u{e9}...");
    assert_eq!(truncate_ascii("h\u{e9}llo", 6), "h\u{e9}llo");
}

#[test]
fn backend_status_follows_worker_events() {
    let mut status = BackendStatus::new();
    assert!(matches!(status.state, BackendState::Starting));
    assert!(status.safe_override);
    status.update(BackendEvent::Connecting {
        address: "bridge.local:6053".to_owned(),
    });
    assert!(matches!(&status.state, BackendState::Connecting { address } if address == "bridge.local:6053"));
    status.update(BackendEvent::CommandAcknowledged {
        sent: 3,
        acknowledged: 2,
        round_trip: Duration::from_millis(9),
        safe_override: false,
    });
    assert_eq!((status.commands_sent, status.commands_acknowledged), (3, 2));
    assert_eq!(status.last_round_trip, Some(Duration::from_millis(9)));
    assert!(!status.safe_override);
    assert!(matches!(&status.state, BackendState::Connecting { .. }));
    status.update(BackendEvent::Failed {
        message: "ESPHome disconnected".to_owned(),
    });
    assert!(matches!(&status.state, BackendState::Failed { message } if message == "ESPHome disconnected"));
    assert!(status.safe_override);
    assert_eq!(status.commands_sent, 3);
}

#[test]
fn keys_that_touch_no_channel_work_with_any_selection() {
    let mut editor = MappingEditor::from_mapping(&RcMapping::default());
    editor.selected = 20;
    assert_eq!(handle_mapping_event(EditorKey::Up, &mut editor), MappingEditorAction::Continue);
    assert_eq!(editor.selected, 19);
    assert_eq!(handle_mapping_event(EditorKey::Escape, &mut editor), MappingEditorAction::Cancel);
    assert_eq!(handle_mapping_event(EditorKey::Enter, &mut editor), MappingEditorAction::Save);
    assert_eq!(handle_mapping_event(EditorKey::Down, &mut editor), MappingEditorAction::Continue);
    assert_eq!(editor.selected, 7);
    assert_eq!(editor.channels, [1, 2, 3, 4, 5, 6, 7, 8]);
}
