//! The state of the Emacs layer.
//!
//! The layer is off unless the configuration enables it; then it takes no keys at all.

use crate::emacs::commands::{build_keymaps, built_from, KeymapSet, MapContext, Maps};
use crate::emacs::isearch::{IsearchState, SearchRing};
use crate::emacs::keymap::Chord;
use crate::emacs::minibuffer::MinibufferState;
use crate::emacs::rings::{at_least_one, at_most, KillRing, Mark, MarkRing};
use crate::emacs::text_mode::{Pos, TextModeState};
use crate::order::{models, TextPair};
use crate::text::{opt_text, views};
use vstd::prelude::*;

verus! {

/// The number of search queries that are remembered.
pub const SEARCH_RING_MAX: usize = 32;

/// The configuration of the layer.
#[derive(Debug, PartialEq, Eq)]
pub struct EmacsConfig {
    pub enabled: bool,
    pub claude_ax_screen_reader: bool,
    pub clipboard_sync: bool,
    pub kill_ring_max: usize,
    pub mark_ring_max: usize,
    /// Overrides: key sequences and command names.
    pub keys: Vec<TextPair>,
}

/// What the last live yank typed, and where.
#[derive(Debug, Clone, Copy, PartialEq, Eq, Structural)]
pub struct LastYank {
    pub pane_id: u64,
    pub chars: usize,
}

/// The mark ring of a pane.
#[derive(Debug, PartialEq, Eq)]
pub struct PaneMarks {
    pub pane_id: u64,
    pub ring: MarkRing,
}

/// The state of the layer.
#[derive(Debug, PartialEq, Eq)]
pub struct EmacsState {
    pub enabled: bool,
    pub claude_ax_screen_reader: bool,
    pub clipboard_sync: bool,
    pub kill_ring_max: usize,
    pub mark_ring_max: usize,
    pub keymaps: KeymapSet,
    /// The chords read so far toward a longer binding.
    pub pending: Vec<Chord>,
    /// The next key goes to the pane as it is.
    pub quoted_insert: bool,
    pub minibuffer: Option<MinibufferState>,
    /// The message in the echo area.
    pub echo: Option<String>,
    pub text_mode: Option<TextModeState>,
    pub kill_ring: KillRing,
    /// The mark rings, one for each pane that has one.
    pub mark_rings: Vec<PaneMarks>,
    pub search_ring: SearchRing,
    /// Set by a live yank and cleared by any other key.
    pub last_yank: Option<LastYank>,
    /// Where the next recenter goes: middle, top, bottom.
    pub recenter_cycle: u8,
}

/// A text-mode session, with its texts as characters.
#[verifier::ext_equal]
pub struct Session {
    pub pane_id: u64,
    pub point: Pos,
    pub mark: Option<Pos>,
    pub mark_active: bool,
    pub entry_offset_from_bottom: usize,
    pub goto_line: Option<Seq<char>>,
    pub isearch: Option<IsearchState>,
}

/// Everything the layer holds, with texts as characters and rings as sequences.
#[verifier::ext_equal]
pub struct Layer {
    pub enabled: bool,
    pub claude_ax_screen_reader: bool,
    pub clipboard_sync: bool,
    pub kill_ring_max: usize,
    pub mark_ring_max: usize,
    pub maps: Maps,
    pub pending: Seq<Chord>,
    pub quoted_insert: bool,
    pub minibuffer: Option<MinibufferState>,
    pub echo: Option<Seq<char>>,
    pub text: Option<Session>,
    pub kills: Seq<Seq<char>>,
    pub yank_index: usize,
    pub marks: Seq<(u64, Seq<Mark>, usize)>,
    pub queries: Seq<Seq<char>>,
    pub last_yank: Option<LastYank>,
    pub recenter_cycle: u8,
}

impl TextModeState {
    pub open spec fn session(&self) -> Session {
        Session {
            pane_id: self.pane_id,
            point: self.point,
            mark: self.mark,
            mark_active: self.mark_active,
            entry_offset_from_bottom: self.entry_offset_from_bottom,
            goto_line: opt_text(self.goto_line),
            isearch: self.isearch,
        }
    }
}

pub open spec fn marks_view(rings: Seq<PaneMarks>) -> Seq<(u64, Seq<Mark>, usize)> {
    Seq::new(
        rings.len(),
        |i: int| (rings[i].pane_id, rings[i].ring.entries@, rings[i].ring.max),
    )
}

/// The ring of a pane is trimmed to `max` marks.
pub open spec fn trimmed(marks: Seq<(u64, Seq<Mark>, usize)>, max: usize) -> Seq<
    (u64, Seq<Mark>, usize),
> {
    Seq::new(marks.len(), |i: int| (marks[i].0, at_most(marks[i].1, max as nat), max))
}

impl EmacsState {
    pub open spec fn layer(&self) -> Layer {
        Layer {
            enabled: self.enabled,
            claude_ax_screen_reader: self.claude_ax_screen_reader,
            clipboard_sync: self.clipboard_sync,
            kill_ring_max: self.kill_ring_max,
            mark_ring_max: self.mark_ring_max,
            maps: self.keymaps.maps(),
            pending: self.pending@,
            quoted_insert: self.quoted_insert,
            minibuffer: self.minibuffer,
            echo: opt_text(self.echo),
            text: match self.text_mode {
                Some(text) => Some(text.session()),
                None => None,
            },
            kills: self.kill_ring.texts(),
            yank_index: self.kill_ring.yank_index,
            marks: marks_view(self.mark_rings@),
            queries: self.search_ring.queries(),
            last_yank: self.last_yank,
            recenter_cycle: self.recenter_cycle,
        }
    }

    /// The rings are in order, no pane has two mark rings, and point and mark have a row below
    /// them.
    pub open spec fn wf(&self) -> bool {
        &&& self.kill_ring.wf()
        &&& self.kill_ring.max == self.kill_ring_max
        &&& 1 <= self.mark_ring_max
        &&& self.search_ring.wf()
        &&& self.search_ring.max == SEARCH_RING_MAX
        &&& forall|i: int|
            0 <= i < self.mark_rings@.len() ==> (#[trigger] self.mark_rings@[i]).ring.wf()
        &&& forall|i: int, j: int|
            #![trigger self.mark_rings@[i], self.mark_rings@[j]]
            0 <= i < j < self.mark_rings@.len() ==> self.mark_rings@[i].pane_id
                != self.mark_rings@[j].pane_id
        &&& self.text_mode matches Some(text) ==> text.point.row < u32::MAX && (
        text.mark matches Some(mark) ==> mark.row < u32::MAX)
    }

    /// The state that a configuration starts with.
    pub fn from_config(config: &EmacsConfig) -> (r: Self)
        ensures
            r.wf(),
            exists|warnings: Seq<Seq<char>>|
                #[trigger] built_from(r.keymaps.maps(), warnings, models(config.keys@)),
            r.layer() == (Layer {
                enabled: config.enabled,
                claude_ax_screen_reader: config.enabled && config.claude_ax_screen_reader,
                clipboard_sync: config.clipboard_sync,
                kill_ring_max: at_least_one(config.kill_ring_max) as usize,
                mark_ring_max: at_least_one(config.mark_ring_max) as usize,
                maps: r.keymaps.maps(),
                pending: Seq::empty(),
                quoted_insert: false,
                minibuffer: None,
                echo: None,
                text: None,
                kills: Seq::empty(),
                yank_index: 0,
                marks: Seq::empty(),
                queries: Seq::empty(),
                last_yank: None,
                recenter_cycle: 0,
            }),
    {
        let (keymaps, _warnings) = build_keymaps(config.keys.as_slice());
        let kill_ring_max: usize = one_or_more(config.kill_ring_max);
        let r = EmacsState {
            enabled: config.enabled,
            claude_ax_screen_reader: config.enabled && config.claude_ax_screen_reader,
            clipboard_sync: config.clipboard_sync,
            kill_ring_max,
            mark_ring_max: one_or_more(config.mark_ring_max),
            keymaps,
            pending: Vec::new(),
            quoted_insert: false,
            minibuffer: None,
            echo: None,
            text_mode: None,
            kill_ring: KillRing::new(kill_ring_max),
            mark_rings: Vec::new(),
            search_ring: SearchRing::new(SEARCH_RING_MAX),
            last_yank: None,
            recenter_cycle: 0,
        };
        assert(marks_view(r.mark_rings@) =~= Seq::empty());
        r
    }

    /// The layer after a new configuration: what comes from the configuration is new, the rings
    /// keep what still fits, and turning the layer off drops whatever was in progress.
    pub open spec fn reconfigured(&self, config: &EmacsConfig, maps: Maps) -> Layer {
        let kept = Layer {
            enabled: config.enabled,
            claude_ax_screen_reader: config.enabled && config.claude_ax_screen_reader,
            clipboard_sync: config.clipboard_sync,
            kill_ring_max: at_least_one(config.kill_ring_max) as usize,
            mark_ring_max: at_least_one(config.mark_ring_max) as usize,
            maps,
            kills: at_most(self.kill_ring.texts(), at_least_one(config.kill_ring_max)),
            yank_index: 0,
            marks: trimmed(
                marks_view(self.mark_rings@),
                at_least_one(config.mark_ring_max) as usize,
            ),
            ..self.layer()
        };
        if config.enabled {
            kept
        } else {
            Layer {
                pending: Seq::empty(),
                quoted_insert: false,
                minibuffer: None,
                echo: None,
                text: None,
                last_yank: None,
                recenter_cycle: 0,
                ..kept
            }
        }
    }

    /// Takes a new configuration and returns the warnings about its bindings.
    pub fn apply_config(&mut self, config: &EmacsConfig) -> (r: Vec<String>)
        requires
            old(self).wf(),
        ensures
            final(self).wf(),
            built_from(final(self).keymaps.maps(), views(r@), models(config.keys@)),
            final(self).layer() == old(self).reconfigured(config, final(self).keymaps.maps()),
    {
        let (keymaps, warnings) = build_keymaps(config.keys.as_slice());
        self.enabled = config.enabled;
        self.claude_ax_screen_reader = config.enabled && config.claude_ax_screen_reader;
        self.clipboard_sync = config.clipboard_sync;
        self.kill_ring_max = one_or_more(config.kill_ring_max);
        self.mark_ring_max = one_or_more(config.mark_ring_max);
        self.kill_ring.set_max(self.kill_ring_max);
        trim_marks(&mut self.mark_rings, self.mark_ring_max);
        self.keymaps = keymaps;
        if !self.enabled {
            self.pending = Vec::new();
            self.quoted_insert = false;
            self.minibuffer = None;
            self.echo = None;
            self.text_mode = None;
            self.last_yank = None;
            self.recenter_cycle = 0;
        }
        warnings
    }

    /// Which maps are active: a prompt's, else a search's, else the text map, else the live one.
    pub fn map_context(&self) -> (r: MapContext)
        ensures
            r == self.layer().context(),
    {
        if self.minibuffer.is_some() {
            return MapContext::Minibuffer;
        }
        match &self.text_mode {
            Some(text) => if text.isearch.is_some() {
                MapContext::Isearch
            } else {
                MapContext::Text
            },
            None => MapContext::Live,
        }
    }

    /// Whether text mode shows the cursor of a pane.
    pub fn owns_pane_cursor(&self, pane_id: u64) -> (r: bool)
        ensures
            r == (self.layer().text matches Some(text) && text.pane_id == pane_id),
    {
        match &self.text_mode {
            Some(text) => text.pane_id == pane_id,
            None => false,
        }
    }

    /// Whether the layer draws something over the terminal.
    pub fn has_render_overlay(&self) -> (r: bool)
        ensures
            r == (self.layer().text is Some || self.minibuffer is Some || self.layer().echo is Some
                || self.pending@.len() > 0),
    {
        self.text_mode.is_some() || self.minibuffer.is_some() || self.echo.is_some()
            || self.pending.len() > 0
    }
}

impl Layer {
    pub open spec fn context(self) -> MapContext {
        if self.minibuffer is Some {
            MapContext::Minibuffer
        } else {
            match self.text {
                Some(text) => if text.isearch is Some {
                    MapContext::Isearch
                } else {
                    MapContext::Text
                },
                None => MapContext::Live,
            }
        }
    }
}

fn one_or_more(n: usize) -> (r: usize)
    ensures
        r == at_least_one(n),
{
    if n == 0 {
        1
    } else {
        n
    }
}

fn trim_marks(rings: &mut Vec<PaneMarks>, max: usize)
    requires
        1 <= max,
        forall|i: int| 0 <= i < old(rings)@.len() ==> (#[trigger] old(rings)@[i]).ring.wf(),
    ensures
        marks_view(final(rings)@) == trimmed(marks_view(old(rings)@), max),
        final(rings)@.len() == old(rings)@.len(),
        forall|i: int|
            0 <= i < old(rings)@.len() ==> (#[trigger] final(rings)@[i]).pane_id == old(
                rings,
            )@[i].pane_id,
        forall|i: int| 0 <= i < final(rings)@.len() ==> (#[trigger] final(rings)@[i]).ring.wf(),
{
    let ghost before = rings@;
    let mut i: usize = 0;
    while i < rings.len()
        invariant
            1 <= max,
            i <= rings@.len() == before.len(),
            before == old(rings)@,
            forall|k: int| 0 <= k < before.len() ==> (#[trigger] before[k]).ring.wf(),
            forall|k: int| i <= k < rings@.len() ==> #[trigger] rings@[k] == before[k],
            forall|k: int|
                0 <= k < i ==> (#[trigger] rings@[k]).ring.wf() && rings@[k].ring.max == max
                    && rings@[k].pane_id == before[k].pane_id && rings@[k].ring.entries@ == at_most(
                    before[k].ring.entries@,
                    max as nat,
                ),
        decreases rings@.len() - i,
    {
        assert(before[i as int].ring.wf());
        rings[i].ring.set_max(max);
        i += 1;
    }
    assert(marks_view(rings@) =~= trimmed(marks_view(before), max));
}

/// A layer that is off takes nothing: without an enabled layer no text mode, prompt, message or
/// pending chord is left to show.
pub proof fn disabling_leaves_no_overlay(state: EmacsState, config: EmacsConfig, maps: Maps)
    requires
        !config.enabled,
    ensures
        ({
            let after = state.reconfigured(&config, maps);
            &&& after.context() is Live
            &&& after.text is None && after.minibuffer is None && after.echo is None
            &&& after.pending.len() == 0
            &&& !after.claude_ax_screen_reader
        }),
{
}

/// A new configuration keeps the kills as long as they fit, and every search query.
pub proof fn reconfiguring_keeps_rings_that_fit(state: EmacsState, config: EmacsConfig, maps: Maps)
    requires
        state.wf(),
        at_least_one(config.kill_ring_max) >= state.kill_ring.texts().len(),
    ensures
        state.reconfigured(&config, maps).kills == state.kill_ring.texts(),
        state.reconfigured(&config, maps).queries == state.search_ring.queries(),
{
}

} // verus!
