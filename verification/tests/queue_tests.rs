use ferrous::queue::{apply_queue_command_state, BridgeQueueCommand, PlaybackState, QueuePlaybackOp};

fn p(path: &str) -> String {
    path.to_string()
}

#[test]
fn queue_append_into_empty_loads_full_queue() {
    let mut queue = Vec::new();
    let mut selected = None;
    let outcome = apply_queue_command_state(
        BridgeQueueCommand::Append(vec![p("/a.flac"), p("/b.flac")]),
        &mut queue,
        &mut selected,
        PlaybackState::Stopped,
    );
    assert!(outcome.changed);
    assert_eq!(queue, vec![p("/a.flac"), p("/b.flac")]);
    assert_eq!(
        outcome.playback_ops,
        vec![QueuePlaybackOp::LoadQueue(vec![p("/a.flac"), p("/b.flac")])]
    );
}

#[test]
fn queue_append_empty_is_noop() {
    let mut queue = vec![p("/a.flac")];
    let mut selected = Some(0);
    let outcome = apply_queue_command_state(
        BridgeQueueCommand::Append(Vec::new()),
        &mut queue,
        &mut selected,
        PlaybackState::Stopped,
    );
    assert!(!outcome.changed);
    assert_eq!(queue, vec![p("/a.flac")]);
    assert_eq!(selected, Some(0));
    assert!(outcome.playback_ops.is_empty());
    assert!(outcome.error.is_none());
}

#[test]
fn queue_play_at_out_of_bounds_emits_error() {
    let mut queue = vec![p("/a.flac")];
    let mut selected = None;
    let outcome = apply_queue_command_state(
        BridgeQueueCommand::PlayAt(3),
        &mut queue,
        &mut selected,
        PlaybackState::Stopped,
    );
    assert!(!outcome.changed);
    assert_eq!(
        outcome.error.as_deref(),
        Some("queue index 3 out of bounds")
    );
    assert!(outcome.playback_ops.is_empty());
}

#[test]
fn queue_move_updates_selection_and_uses_move_op() {
    let mut queue = vec![p("/a.flac"), p("/b.flac"), p("/c.flac")];
    let mut selected = Some(0);
    let outcome = apply_queue_command_state(
        BridgeQueueCommand::Move { from: 0, to: 2 },
        &mut queue,
        &mut selected,
        PlaybackState::Stopped,
    );
    assert!(outcome.changed);
    assert_eq!(queue, vec![p("/b.flac"), p("/c.flac"), p("/a.flac")]);
    assert_eq!(selected, Some(2));
    assert_eq!(
        outcome.playback_ops,
        vec![QueuePlaybackOp::Move { from: 0, to: 2 }]
    );
}

#[test]
fn queue_move_invalid_indices_is_noop() {
    let mut queue = vec![p("/a.flac"), p("/b.flac")];
    let mut selected = Some(1);
    let outcome = apply_queue_command_state(
        BridgeQueueCommand::Move { from: 2, to: 0 },
        &mut queue,
        &mut selected,
        PlaybackState::Stopped,
    );
    assert!(!outcome.changed);
    assert_eq!(queue, vec![p("/a.flac"), p("/b.flac")]);
    assert_eq!(selected, Some(1));
    assert!(outcome.playback_ops.is_empty());
    assert!(outcome.error.is_none());
}

#[test]
fn queue_replace_autoplay_loads_and_starts_playback() {
    let mut queue = Vec::new();
    let mut selected = None;
    let outcome = apply_queue_command_state(
        BridgeQueueCommand::Replace {
            tracks: vec![p("/a.flac"), p("/b.flac")],
            autoplay: true,
        },
        &mut queue,
        &mut selected,
        PlaybackState::Stopped,
    );
    assert!(outcome.changed);
    assert_eq!(selected, Some(0));
    assert_eq!(
        outcome.playback_ops,
        vec![
            QueuePlaybackOp::LoadQueue(vec![p("/a.flac"), p("/b.flac")]),
            QueuePlaybackOp::PlayAt(0),
            QueuePlaybackOp::Play,
        ]
    );
}

#[test]
fn queue_append_non_empty_uses_add_to_queue_op() {
    let mut queue = vec![p("/a.flac")];
    let mut selected = Some(0);
    let outcome = apply_queue_command_state(
        BridgeQueueCommand::Append(vec![p("/b.flac"), p("/c.flac")]),
        &mut queue,
        &mut selected,
        PlaybackState::Stopped,
    );
    assert!(outcome.changed);
    assert_eq!(queue, vec![p("/a.flac"), p("/b.flac"), p("/c.flac")]);
    assert_eq!(selected, Some(0));
    assert_eq!(
        outcome.playback_ops,
        vec![QueuePlaybackOp::AddToQueue(vec![
            p("/b.flac"),
            p("/c.flac")
        ])]
    );
}

#[test]
fn queue_remove_last_track_clears_selection_and_playback_queue() {
    let mut queue = vec![p("/only.flac")];
    let mut selected = Some(0);
    let outcome = apply_queue_command_state(
        BridgeQueueCommand::Remove(0),
        &mut queue,
        &mut selected,
        PlaybackState::Stopped,
    );
    assert!(outcome.changed);
    assert!(queue.is_empty());
    assert!(selected.is_none());
    assert_eq!(outcome.playback_ops, vec![QueuePlaybackOp::ClearQueue]);
}

#[test]
fn queue_remove_middle_track_uses_remove_op_and_keeps_reasonable_selection() {
    let mut queue = vec![p("/a.flac"), p("/b.flac"), p("/c.flac")];
    let mut selected = Some(2);
    let outcome = apply_queue_command_state(
        BridgeQueueCommand::Remove(1),
        &mut queue,
        &mut selected,
        PlaybackState::Stopped,
    );
    assert!(outcome.changed);
    assert_eq!(queue, vec![p("/a.flac"), p("/c.flac")]);
    assert_eq!(selected, Some(1));
    assert_eq!(outcome.playback_ops, vec![QueuePlaybackOp::RemoveAt(1)]);
}

#[test]
fn queue_remove_out_of_bounds_is_noop() {
    let mut queue = vec![p("/a.flac"), p("/b.flac")];
    let mut selected = Some(0);
    let outcome = apply_queue_command_state(
        BridgeQueueCommand::Remove(3),
        &mut queue,
        &mut selected,
        PlaybackState::Stopped,
    );
    assert!(!outcome.changed);
    assert_eq!(queue, vec![p("/a.flac"), p("/b.flac")]);
    assert_eq!(selected, Some(0));
    assert!(outcome.playback_ops.is_empty());
    assert!(outcome.error.is_none());
}

#[test]
fn queue_select_updates_state_without_playback_ops() {
    let mut queue = vec![p("/a.flac"), p("/b.flac")];
    let mut selected = Some(0);
    let outcome = apply_queue_command_state(
        BridgeQueueCommand::Select(Some(1)),
        &mut queue,
        &mut selected,
        PlaybackState::Stopped,
    );
    assert!(outcome.changed);
    assert_eq!(selected, Some(1));
    assert!(outcome.playback_ops.is_empty());
    assert!(outcome.error.is_none());
}

#[test]
fn queue_select_same_index_is_noop() {
    let mut queue = vec![p("/a.flac"), p("/b.flac")];
    let mut selected = Some(1);
    let outcome = apply_queue_command_state(
        BridgeQueueCommand::Select(Some(1)),
        &mut queue,
        &mut selected,
        PlaybackState::Stopped,
    );
    assert!(!outcome.changed);
    assert_eq!(selected, Some(1));
    assert!(outcome.playback_ops.is_empty());
    assert!(outcome.error.is_none());
}

#[test]
fn queue_select_out_of_bounds_clears_selection() {
    let mut queue = vec![p("/a.flac"), p("/b.flac")];
    let mut selected = Some(0);
    let outcome = apply_queue_command_state(
        BridgeQueueCommand::Select(Some(9)),
        &mut queue,
        &mut selected,
        PlaybackState::Stopped,
    );
    assert!(outcome.changed);
    assert!(selected.is_none());
    assert!(outcome.playback_ops.is_empty());
    assert!(outcome.error.is_none());
}

#[test]
fn queue_clear_empties_state_and_emits_clear_queue_op() {
    let mut queue = vec![p("/a.flac"), p("/b.flac")];
    let mut selected = Some(1);
    let outcome = apply_queue_command_state(
        BridgeQueueCommand::Clear,
        &mut queue,
        &mut selected,
        PlaybackState::Stopped,
    );
    assert!(outcome.changed);
    assert!(queue.is_empty());
    assert!(selected.is_none());
    assert_eq!(outcome.playback_ops, vec![QueuePlaybackOp::ClearQueue]);
    assert!(outcome.error.is_none());
}

#[test]
fn queue_play_at_while_playing_skips_redundant_play_op() {
    let mut queue = vec![p("/a.flac"), p("/b.flac")];
    let mut selected = Some(0);
    let outcome = apply_queue_command_state(
        BridgeQueueCommand::PlayAt(1),
        &mut queue,
        &mut selected,
        PlaybackState::Playing,
    );
    assert!(outcome.changed);
    assert_eq!(selected, Some(1));
    assert_eq!(outcome.playback_ops, vec![QueuePlaybackOp::PlayAt(1)]);
    assert!(outcome.error.is_none());
}

#[test]
fn queue_replace_autoplay_while_playing_skips_redundant_play_op() {
    let mut queue = vec![p("/old.flac")];
    let mut selected = Some(0);
    let outcome = apply_queue_command_state(
        BridgeQueueCommand::Replace {
            tracks: vec![p("/a.flac"), p("/b.flac")],
            autoplay: true,
        },
        &mut queue,
        &mut selected,
        PlaybackState::Playing,
    );
    assert!(outcome.changed);
    assert_eq!(selected, Some(0));
    assert_eq!(
        outcome.playback_ops,
        vec![
            QueuePlaybackOp::LoadQueue(vec![p("/a.flac"), p("/b.flac")]),
            QueuePlaybackOp::PlayAt(0),
        ]
    );
}
