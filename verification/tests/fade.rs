//! End-to-end scenarios for the fade-transition core, driven with plain
//! values: a state is a `u32`, a surface is a `u64` id, a speed unit is
//! 1/1_000_000 alpha per second, opacity is in speed-unit-microseconds
//! (1_000_000_000_000 of them making full alpha), tick durations are in
//! microseconds.

use fade_transitions::alpha::OPACITY_FULL;
use fade_transitions::overlay::OverlayManager;
use fade_transitions::transition::{
    is_transition_pending, Transition, TransitionMessage, TransitionReader,
};

/// Magnitude 2.0/sec, dt = 0.1 s repeatedly, request at t = 0: opacity
/// reaches 1.0 at t = 0.5 s, the notification carries the target, the speed
/// becomes -2.0, and opacity is back at 0.0 at t = 1.0 s.
#[test]
fn full_cycle_timing() {
    let mut t = Transition::<u32>::new();
    let mut m = OverlayManager::new();
    let mut reader = TransitionReader::new();
    let id = m.on_surface_appeared(1);
    t.to(65);
    assert_eq!(t.speed(), 2_000_000);

    for k in 1..=4i64 {
        m.apply_fade(&mut t, 100_000);
        assert_eq!(m.overlay(id).opacity, 200_000_000_000 * k);
        assert!(!is_transition_pending(&mut reader, &t));
    }
    // fifth tick: t = 0.5 s, opacity saturates, the commit fires
    m.apply_fade(&mut t, 100_000);
    assert_eq!(m.overlay(id).opacity, OPACITY_FULL);
    assert!(is_transition_pending(&mut reader, &t));
    assert_eq!(t.handle_transition_events(), Some(65));
    assert_eq!(t.speed(), -2_000_000);

    for k in 1..=5i64 {
        m.apply_fade(&mut t, 100_000);
        assert_eq!(m.overlay(id).opacity, OPACITY_FULL - 200_000_000_000 * k);
    }
    // t = 1.0 s: fully clear again, and no further notification appeared
    assert_eq!(m.overlay(id).opacity, 0);
    assert!(!is_transition_pending(&mut reader, &t));
}

/// Two requests before any tick: only the latest target is ever committed;
/// the earlier one is discarded, never notified.
#[test]
fn overwrite_keeps_latest_request() {
    let mut t = Transition::<u32>::new();
    let mut m = OverlayManager::new();
    m.on_surface_appeared(7);
    t.to(1);
    t.to(2);
    m.apply_fade(&mut t, 1_000_000);
    assert_eq!(t.handle_transition_events(), Some(2));
    // nothing else is ever committed
    m.apply_fade(&mut t, 1_000_000);
    assert_eq!(t.handle_transition_events(), None);
}

/// Three requests across a fade: the pending slot always holds the most
/// recent target, so the single commit carries the last one.
#[test]
fn latest_of_three_requests_wins() {
    let mut t = Transition::<u32>::new();
    let mut m = OverlayManager::new();
    m.on_surface_appeared(7);
    t.to(10);
    m.apply_fade(&mut t, 100_000);
    t.to(11);
    m.apply_fade(&mut t, 100_000);
    t.to(12);
    m.apply_fade(&mut t, 1_000_000);
    assert_eq!(t.handle_transition_events(), Some(12));
}

/// Opacity stays clamped to [0, 1] even for an enormous dt, in both
/// directions.
#[test]
fn opacity_clamped_for_huge_dt() {
    let mut t = Transition::<u32>::new();
    let mut m = OverlayManager::new();
    let id = m.on_surface_appeared(3);
    t.set_speed(2_000_000);
    m.apply_fade(&mut t, u64::MAX);
    assert_eq!(m.overlay(id).opacity, OPACITY_FULL);
    t.set_speed(-2_000_000);
    m.apply_fade(&mut t, u64::MAX);
    assert_eq!(m.overlay(id).opacity, 0);
}

/// A partial tick banks its exact progress: 2.0/s for 333_333 us moves the
/// opacity by exactly 2_000_000 * 333_333 units — nothing is rounded away.
#[test]
fn partial_tick_exact_delta() {
    let mut t = Transition::<u32>::new();
    let mut m = OverlayManager::new();
    let id = m.on_surface_appeared(3);
    t.set_speed(2_000_000);
    m.apply_fade(&mut t, 333_333);
    assert_eq!(m.overlay(id).opacity, 2_000_000 * 333_333);
    t.set_speed(-2_000_000);
    m.apply_fade(&mut t, 166_000);
    assert_eq!(m.overlay(id).opacity, 2_000_000 * (333_333 - 166_000));
}

/// A slow fade driven by the smallest possible ticks still completes once the
/// cumulative elapsed time reaches 1/magnitude seconds: at 0.5 alpha/s with
/// 1 us ticks, the commit fires on the 2_000_000th tick (t = 2 s) and never
/// before or again.
#[test]
fn slow_speed_tiny_ticks_complete() {
    let mut t = Transition::<u32>::new();
    let mut m = OverlayManager::new();
    let id = m.on_surface_appeared(8);
    t.set_speed(500_000);
    t.to(42);
    for _ in 0..1_999_999u32 {
        m.apply_fade(&mut t, 1);
    }
    assert_eq!(m.overlay(id).opacity, OPACITY_FULL - 500_000);
    assert_eq!(t.notifications_produced(), 0);
    m.apply_fade(&mut t, 1);
    assert_eq!(m.overlay(id).opacity, OPACITY_FULL);
    assert_eq!(t.notifications_produced(), 1);
    assert_eq!(t.handle_transition_events(), Some(42));
    assert_eq!(t.speed(), -500_000);
}

/// A darkening phase commits exactly once: after the single notification is
/// drained, further ticks of the same phase produce none.
#[test]
fn commit_fires_exactly_once_per_phase() {
    let mut t = Transition::<u32>::new();
    let mut m = OverlayManager::new();
    let mut reader = TransitionReader::new();
    m.on_surface_appeared(4);
    t.to(9);
    m.apply_fade(&mut t, 600_000);
    assert_eq!(t.notifications_produced(), 1);
    assert!(is_transition_pending(&mut reader, &t));
    // the same reader is told about the same commit only once
    assert!(!is_transition_pending(&mut reader, &t));
    assert_eq!(t.handle_transition_events(), Some(9));
    for _ in 0..10 {
        m.apply_fade(&mut t, 600_000);
        assert!(!is_transition_pending(&mut reader, &t));
    }
    assert_eq!(t.notifications_produced(), 1);
    assert_eq!(t.handle_transition_events(), None);
}

/// Each polling subsystem owns its reader, and each is told about a commit
/// exactly once, independently of the others and of the commit handler
/// draining the notification values.
#[test]
fn each_reader_sees_a_commit_once() {
    let mut t = Transition::<u32>::new();
    let mut m = OverlayManager::new();
    let mut first = TransitionReader::new();
    let mut second = TransitionReader::new();
    m.on_surface_appeared(4);
    t.to(9);
    m.apply_fade(&mut t, 600_000);
    assert!(is_transition_pending(&mut first, &t));
    assert_eq!(t.handle_transition_events(), Some(9));
    // draining the values does not hide the commit from the other reader
    assert!(is_transition_pending(&mut second, &t));
    assert!(!is_transition_pending(&mut first, &t));
    assert!(!is_transition_pending(&mut second, &t));
}

/// After a commit the speed's sign flips from positive to negative with its
/// magnitude unchanged, also for a non-default magnitude.
#[test]
fn commit_flips_speed_sign_keeps_magnitude() {
    let mut t = Transition::<u32>::new();
    let mut m = OverlayManager::new();
    m.on_surface_appeared(5);
    t.set_speed(5_000_000);
    t.to(9);
    assert_eq!(t.speed(), 5_000_000);
    m.apply_fade(&mut t, 200_000);
    assert_eq!(t.handle_transition_events(), Some(9));
    assert_eq!(t.speed(), -5_000_000);
}

/// A request made mid-clear forces the direction back to darkening while the
/// current opacity is kept.
#[test]
fn request_mid_clear_forces_darkening() {
    let mut t = Transition::<u32>::new();
    let mut m = OverlayManager::new();
    let id = m.on_surface_appeared(5);
    t.set_speed(-2_000_000);
    t.to(6);
    assert_eq!(t.speed(), 2_000_000);
    m.apply_fade(&mut t, 100_000);
    assert_eq!(m.overlay(id).opacity, 200_000_000_000);
}

/// Removing a surface destroys all overlays it owns and no others.
#[test]
fn removal_destroys_only_owned_overlays() {
    let mut m = OverlayManager::new();
    let a = m.on_surface_appeared(1);
    let b = m.on_surface_appeared(1);
    let c = m.on_surface_appeared(2);
    assert_eq!(m.overlay_count(), 3);
    m.on_surface_removed(1);
    assert!(!m.overlay(a).alive);
    assert!(!m.overlay(b).alive);
    assert!(m.overlay(c).alive);
    assert_eq!(m.overlay(c).surface, 2);
    assert_eq!(m.overlay(c).opacity, 0);
}

/// Removing a surface that owns no overlay is a silent no-op.
#[test]
fn removal_of_unknown_surface_is_noop() {
    let mut m = OverlayManager::new();
    let a = m.on_surface_appeared(1);
    m.on_surface_removed(99);
    assert!(m.overlay(a).alive);
    assert_eq!(m.overlay_count(), 1);
}

/// Surface appears (one overlay at opacity 0), is removed before any commit;
/// a later request has no live overlay to animate and nothing crashes or
/// commits.
#[test]
fn surface_removed_before_commit() {
    let mut t = Transition::<u32>::new();
    let mut m = OverlayManager::new();
    let mut reader = TransitionReader::new();
    let id = m.on_surface_appeared(9);
    assert_eq!(m.overlay(id).opacity, 0);
    assert!(m.overlay(id).alive);
    m.on_surface_removed(9);
    assert!(!m.overlay(id).alive);
    t.to(4);
    for _ in 0..3 {
        m.apply_fade(&mut t, 1_000_000);
        assert!(!is_transition_pending(&mut reader, &t));
    }
    assert_eq!(t.handle_transition_events(), None);
    // the dead overlay was not animated either
    assert_eq!(m.overlay(id).opacity, 0);
}

/// Opacity already saturated with no pending request: the overlay stays dark,
/// and a later request commits on the very next tick without re-fading.
#[test]
fn request_while_already_dark_commits_next_tick() {
    let mut t = Transition::<u32>::new();
    let mut m = OverlayManager::new();
    let mut reader = TransitionReader::new();
    let id = m.on_surface_appeared(2);
    t.set_speed(2_000_000);
    m.apply_fade(&mut t, 1_000_000);
    assert_eq!(m.overlay(id).opacity, OPACITY_FULL);
    assert!(!is_transition_pending(&mut reader, &t));
    // stays dark indefinitely while nothing is pending
    m.apply_fade(&mut t, 1_000_000);
    assert_eq!(m.overlay(id).opacity, OPACITY_FULL);
    assert!(!is_transition_pending(&mut reader, &t));
    t.to(67);
    m.apply_fade(&mut t, 1);
    assert!(is_transition_pending(&mut reader, &t));
    assert_eq!(t.handle_transition_events(), Some(67));
    assert_eq!(t.speed(), -2_000_000);
}

/// Two overlays in one tick: the first to saturate commits and flips the
/// speed; the second sees the flipped speed within the same tick, and only
/// one notification is produced.
#[test]
fn single_commit_with_two_overlays() {
    let mut t = Transition::<u32>::new();
    let mut m = OverlayManager::new();
    let a = m.on_surface_appeared(1);
    let b = m.on_surface_appeared(2);
    t.to(5);
    m.apply_fade(&mut t, 500_000);
    assert_eq!(m.overlay(a).opacity, OPACITY_FULL);
    // the second overlay already fades with the flipped (negative) speed
    assert_eq!(m.overlay(b).opacity, 0);
    assert_eq!(t.notifications_produced(), 1);
    assert_eq!(t.handle_transition_events(), Some(5));
    assert_eq!(t.handle_transition_events(), None);
}

/// Notifications drain in arrival order with the last one winning, and a
/// hand-written notification behaves like a committed one.
#[test]
fn handle_events_last_write_wins() {
    let mut t = Transition::<u32>::new();
    let mut reader = TransitionReader::new();
    t.write(TransitionMessage::new(1));
    t.write(TransitionMessage::new(2));
    assert_eq!(t.notifications_produced(), 2);
    assert!(is_transition_pending(&mut reader, &t));
    assert_eq!(t.handle_transition_events(), Some(2));
    assert!(!is_transition_pending(&mut reader, &t));
    assert_eq!(t.handle_transition_events(), None);
}

/// A fresh transition has the default rate of 2.0 alpha per second, nothing
/// pending and nothing to commit.
#[test]
fn fresh_transition_defaults() {
    let mut t = Transition::<u32>::new();
    let mut reader = TransitionReader::new();
    assert_eq!(t.speed(), 2_000_000);
    assert_eq!(t.notifications_produced(), 0);
    assert!(!is_transition_pending(&mut reader, &t));
    assert_eq!(t.handle_transition_events(), None);
}
