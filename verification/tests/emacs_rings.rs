//! The kill ring and the mark rings.

use herdr::emacs::rings::{KillRing, MarkRing};

#[test]
fn kill_ring_pushes_dedupes_and_truncates() {
    let mut ring = KillRing::new(3);
    assert!(ring.is_empty());
    assert_eq!(ring.head(), None);
    ring.push("one".into());
    ring.push("one".into()); // consecutive duplicate ignored
    ring.push(String::new()); // empty ignored
    assert_eq!(ring.len(), 1);
    ring.push("two".into());
    ring.push("three".into());
    ring.push("four".into()); // truncates to max 3
    assert_eq!(ring.len(), 3);
    assert_eq!(ring.head(), Some("four"));
}

#[test]
fn yank_and_yank_pop_rotate_the_ring() {
    let mut ring = KillRing::new(60);
    ring.push("a".into());
    ring.push("b".into());
    ring.push("c".into());
    assert_eq!(ring.yank().as_deref(), Some("c"));
    assert_eq!(ring.yank_pop().as_deref(), Some("b"));
    assert_eq!(ring.yank_pop().as_deref(), Some("a"));
    assert_eq!(ring.yank_pop().as_deref(), Some("c"), "wraps");
    // a fresh kill resets rotation
    ring.push("d".into());
    assert_eq!(ring.yank().as_deref(), Some("d"));
}

#[test]
fn sync_from_system_adopts_fresh_clipboard_text() {
    let mut ring = KillRing::new(60);
    ring.push("kill".into());
    ring.sync_from_system(None);
    ring.sync_from_system(Some(String::new()));
    assert_eq!(ring.head(), Some("kill"));
    ring.sync_from_system(Some("kill".into())); // same as head: no-op
    assert_eq!(ring.len(), 1);
    ring.sync_from_system(Some("clip".into()));
    assert_eq!(ring.head(), Some("clip"));
    assert_eq!(ring.len(), 2);
}

#[test]
fn a_stale_clipboard_keeps_the_yank_rotation() {
    let mut ring = KillRing::new(60);
    ring.push("one".into());
    ring.push("two".into());
    ring.yank();
    assert_eq!(ring.yank_pop().as_deref(), Some("one"));
    ring.sync_from_system(Some("two".into()));
    ring.sync_from_system(Some(String::new()));
    ring.sync_from_system(None);
    assert_eq!(ring.yank_index, 1);
    assert_eq!(ring.yank_pop().as_deref(), Some("two"));
}

#[test]
fn set_max_shrinks_the_ring() {
    let mut ring = KillRing::new(10);
    for i in 0..5 {
        ring.push(format!("k{i}"));
    }
    ring.set_max(2);
    assert_eq!(ring.len(), 2);
    assert_eq!(ring.head(), Some("k4"));
}

#[test]
fn mark_ring_pushes_truncates_and_rotates() {
    let mut ring = MarkRing::new(2);
    ring.push((1, 0));
    ring.push((2, 3));
    ring.push((5, 1)); // truncates oldest
    assert_eq!(ring.len(), 2);
    assert_eq!(ring.pop_rotate(), Some((5, 1)));
    assert_eq!(ring.pop_rotate(), Some((2, 3)));
    assert_eq!(ring.pop_rotate(), Some((5, 1)), "rotates, Emacs-style");
    assert!(MarkRing::new(4).pop_rotate().is_none());
}
