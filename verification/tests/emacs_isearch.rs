//! Incremental search over a list of matches.

use herdr::emacs::isearch::{initial_selection, repeated_selection, SearchDirection, SearchRing};
use herdr::emacs::isearch::{SearchSelection, SearchSpan};
use herdr::emacs::text_mode::Pos;

fn pos(row: u32, col: u16) -> Pos {
    Pos { row, col }
}

fn spans() -> Vec<SearchSpan> {
    vec![
        SearchSpan {
            start: pos(0, 1),
            end: pos(0, 3),
        },
        SearchSpan {
            start: pos(2, 4),
            end: pos(2, 6),
        },
        SearchSpan {
            start: pos(4, 0),
            end: pos(4, 2),
        },
    ]
}

#[test]
fn initial_search_stops_at_the_buffer_boundary() {
    let matches = spans();
    assert_eq!(
        initial_selection(&matches, SearchDirection::Forward, pos(2, 0)),
        Some(SearchSelection {
            index: 1,
            wrapped: false
        })
    );
    assert_eq!(
        initial_selection(&matches, SearchDirection::Backward, pos(3, 0)),
        Some(SearchSelection {
            index: 1,
            wrapped: false
        })
    );
    assert_eq!(
        initial_selection(&matches, SearchDirection::Forward, pos(9, 0)),
        None
    );
    assert_eq!(
        initial_selection(&matches, SearchDirection::Backward, pos(0, 0)),
        None
    );
}

#[test]
fn repeat_advances_in_either_direction_and_wraps() {
    let matches = spans();
    assert_eq!(
        repeated_selection(&matches, SearchDirection::Forward, Some(1)),
        Some(SearchSelection {
            index: 2,
            wrapped: false
        })
    );
    assert_eq!(
        repeated_selection(&matches, SearchDirection::Forward, Some(2)),
        Some(SearchSelection {
            index: 0,
            wrapped: true
        })
    );
    assert_eq!(
        repeated_selection(&matches, SearchDirection::Backward, Some(0)),
        Some(SearchSelection {
            index: 2,
            wrapped: true
        })
    );
    assert_eq!(
        repeated_selection(&matches, SearchDirection::Forward, None),
        Some(SearchSelection {
            index: 0,
            wrapped: true
        })
    );
}

#[test]
fn search_ring_is_newest_first_deduplicated_and_bounded() {
    let mut ring = SearchRing::new(2);
    ring.push("alpha".to_string());
    ring.push("bravo".to_string());
    ring.push("alpha".to_string());
    assert_eq!(ring.len(), 2);
    assert_eq!(ring.get(0), Some("alpha"));
    assert_eq!(ring.get(1), Some("bravo"));

    ring.push("charlie".to_string());
    assert_eq!(ring.get(0), Some("charlie"));
    assert_eq!(ring.get(1), Some("alpha"));
}
