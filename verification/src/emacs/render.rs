//! What text mode draws over a pane: the active region and the point.

use crate::emacs::dispatch::{top_row, PaneArea, ScrollMetrics};
use crate::emacs::text_mode::{Pos, TextModeState};
use vstd::prelude::*;

verus! {

/// The cells that text mode restyles, relative to the pane's area.
#[derive(Debug, PartialEq, Eq)]
pub struct TextOverlay {
    /// For each row of the area, the columns of the region: from the first up to the second.
    pub region: Vec<Option<(u16, u16)>>,
    /// The column and row of the point, when it is in view.
    pub point: Option<(u16, u16)>,
}

/// The columns of a region from `start` to before `end` in a row of a view `width` columns wide.
pub open spec fn region_columns(start: Pos, end: Pos, width: u16, row: int) -> Option<(u16, u16)> {
    let from = if row == start.row {
        start.col
    } else {
        0
    };
    let to = if row == end.row && end.col < width {
        end.col
    } else {
        width
    };
    if start.row <= row <= end.row && from < to {
        Some((from, to))
    } else {
        None
    }
}

/// The region between two positions, the earlier first.
pub open spec fn ordered(a: Pos, b: Pos) -> (Pos, Pos) {
    if a.at_or_before(b) {
        (a, b)
    } else {
        (b, a)
    }
}

/// Where the point shows: its row in the view, its column no further than the last.
pub open spec fn point_cell(point: Pos, area: PaneArea, top: int) -> Option<(u16, u16)> {
    if top <= point.row < top + area.height {
        Some(
            (
                if point.col < area.width {
                    point.col
                } else {
                    (area.width - 1) as u16
                },
                (point.row - top) as u16,
            ),
        )
    } else {
        None
    }
}

/// The overlay shows a point and, where it is active, the region up to a mark.
pub open spec fn shows_session(
    overlay: TextOverlay,
    point: Pos,
    mark: Option<Pos>,
    mark_active: bool,
    area: PaneArea,
    metrics: ScrollMetrics,
) -> bool {
    &&& overlay.point == point_cell(point, area, top_row(metrics))
    &&& overlay.region@.len() == area.height
    &&& forall|y: int|
        #![trigger overlay.region@[y]]
        0 <= y < area.height ==> overlay.region@[y] == (if mark_active && mark is Some {
            let (start, end) = ordered(mark->0, point);
            region_columns(start, end, area.width, top_row(metrics) + y)
        } else {
            None
        })
}

/// The overlay over one pane: that of the text-mode session, where there is one and it is this pane's,
/// whether or not the pane has the focus. A pane without a scrollback has none.
pub fn pane_overlay(
    session: &Option<TextModeState>,
    pane_id: u64,
    area: PaneArea,
    metrics: Option<ScrollMetrics>,
) -> (r: Option<TextOverlay>)
    requires
        metrics matches Some(m) ==> m.wf(),
    ensures
        r is Some <==> (session matches Some(text) && text.pane_id == pane_id) && metrics is Some
            && area.width > 0 && area.height > 0,
        r matches Some(overlay) ==> shows_session(
            overlay,
            session->0.point,
            session->0.mark,
            session->0.mark_active,
            area,
            metrics->0,
        ),
{
    match (session, metrics) {
        (Some(text), Some(metrics)) => if text.pane_id == pane_id {
            text_mode_overlay(text.point, text.mark, text.mark_active, area, metrics)
        } else {
            None
        },
        _ => None,
    }
}

/// The overlay of a text-mode session; none over an empty area.
pub fn text_mode_overlay(
    point: Pos,
    mark: Option<Pos>,
    mark_active: bool,
    area: PaneArea,
    metrics: ScrollMetrics,
) -> (r: Option<TextOverlay>)
    requires
        metrics.wf(),
    ensures
        r is None <==> area.width == 0 || area.height == 0,
        r matches Some(overlay) ==> shows_session(overlay, point, mark, mark_active, area, metrics),
{
    if area.width == 0 || area.height == 0 {
        return None;
    }
    let top: u32 = (metrics.max_offset_from_bottom - metrics.offset_from_bottom) as u32;
    let bounds = match mark {
        Some(mark) => if mark_active {
            if point.is_before(&mark) {
                Some((point, mark))
            } else {
                Some((mark, point))
            }
        } else {
            None
        },
        None => None,
    };
    let mut region: Vec<Option<(u16, u16)>> = Vec::new();
    let mut y: u16 = 0;
    while y < area.height
        invariant
            y <= area.height,
            metrics.wf(),
            top == top_row(metrics),
            bounds == (if mark_active && mark is Some {
                Some(ordered(mark->0, point))
            } else {
                None
            }),
            region@.len() == y,
            forall|k: int|
                #![trigger region@[k]]
                0 <= k < y ==> region@[k] == (if mark_active && mark is Some {
                    let (start, end) = ordered(mark->0, point);
                    region_columns(start, end, area.width, top_row(metrics) + k)
                } else {
                    None
                }),
        decreases area.height - y,
    {
        let row: u32 = top + y as u32;
        let span = match bounds {
            Some((start, end)) => {
                let from: u16 = if row == start.row {
                    start.col
                } else {
                    0
                };
                let to: u16 = if row == end.row && end.col < area.width {
                    end.col
                } else {
                    area.width
                };
                if start.row <= row && row <= end.row && from < to {
                    Some((from, to))
                } else {
                    None
                }
            },
            None => None,
        };
        region.push(span);
        y += 1;
    }
    let cell = if point.row >= top && point.row - top < area.height as u32 {
        Some(
            (
                if point.col < area.width {
                    point.col
                } else {
                    area.width - 1
                },
                (point.row - top) as u16,
            ),
        )
    } else {
        None
    };
    Some(TextOverlay { region, point: cell })
}

/// A cell of the view is marked exactly when what it shows lies between the mark and the point, in
/// the order of reading, whichever of the two comes first: the earlier end is part of the region,
/// the later is not.
pub proof fn the_region_is_what_lies_between(
    overlay: TextOverlay,
    point: Pos,
    mark: Pos,
    area: PaneArea,
    metrics: ScrollMetrics,
    x: u16,
    y: u16,
)
    requires
        metrics.wf(),
        shows_session(overlay, point, Some(mark), true, area, metrics),
        x < area.width,
        y < area.height,
    ensures
        ({
            let row = metrics.max_offset_from_bottom - metrics.offset_from_bottom + y;
            let from = |p: Pos| p.row < row || (p.row == row && p.col <= x);
            let marked = match overlay.region@[y as int] {
                Some((left, right)) => left <= x < right,
                None => false,
            };
            marked <==> (from(mark) && !from(point)) || (from(point) && !from(mark))
        }),
        overlay.region@.len() == area.height,
        overlay.region@[y as int] matches Some((left, right)) ==> left < right <= area.width,
{
    let span = overlay.region@[y as int];
    let row = metrics.max_offset_from_bottom - metrics.offset_from_bottom + y;
    let (start, end) = if mark.row < point.row || (mark.row == point.row && mark.col <= point.col) {
        (mark, point)
    } else {
        (point, mark)
    };
    assert(span == region_columns(start, end, area.width, row));
}

/// Without an active mark nothing is marked.
pub proof fn inactive_marks_show_no_region(
    overlay: TextOverlay,
    point: Pos,
    mark: Option<Pos>,
    mark_active: bool,
    area: PaneArea,
    metrics: ScrollMetrics,
    y: int,
)
    requires
        shows_session(overlay, point, mark, mark_active, area, metrics),
        0 <= y < area.height,
        mark is None || !mark_active,
    ensures
        overlay.region@[y] is None,
{
}

/// The point shows exactly when its row is in view, in that row; behind the last column it shows in
/// the last.
pub proof fn the_point_shows_where_it_is(
    overlay: TextOverlay,
    point: Pos,
    mark: Option<Pos>,
    mark_active: bool,
    area: PaneArea,
    metrics: ScrollMetrics,
)
    requires
        metrics.wf(),
        area.width > 0,
        shows_session(overlay, point, mark, mark_active, area, metrics),
    ensures
        ({
            let top = metrics.max_offset_from_bottom - metrics.offset_from_bottom;
            &&& overlay.point is Some <==> top <= point.row && point.row < top + area.height
            &&& overlay.point matches Some((x, y)) ==> top + y == point.row && x < area.width && x
                <= point.col && (x == point.col || x + 1 == area.width)
        }),
{
}

} // verus!
