//! The kill ring and the mark rings.

use crate::text::{same_text, views};
use std::collections::VecDeque;
use vstd::prelude::*;

verus! {

/// The first `n` elements, or all there are.
pub open spec fn at_most<T>(s: Seq<T>, n: nat) -> Seq<T> {
    if s.len() <= n {
        s
    } else {
        s.take(n as int)
    }
}

pub open spec fn at_least_one(n: usize) -> nat {
    if n == 0 {
        1
    } else {
        n as nat
    }
}

/// The kill ring: the newest kill comes first.
#[derive(Debug, PartialEq, Eq)]
pub struct KillRing {
    pub entries: VecDeque<String>,
    pub max: usize,
    /// The entry that the last yank or yank-pop returned.
    pub yank_index: usize,
}

impl KillRing {
    /// The texts of the ring, newest first.
    pub open spec fn texts(&self) -> Seq<Seq<char>> {
        views(self.entries@)
    }

    pub open spec fn wf(&self) -> bool {
        &&& 1 <= self.max
        &&& self.entries@.len() <= self.max
        &&& self.yank_index == 0 || self.yank_index < self.entries@.len()
    }

    /// A ring that keeps `max` kills, at least one.
    pub fn new(max: usize) -> (r: Self)
        ensures
            r.wf(),
            r.texts() == Seq::<Seq<char>>::empty(),
            r.max == at_least_one(max),
            r.yank_index == 0,
    {
        let r = KillRing {
            entries: VecDeque::new(),
            max: if max == 0 {
                1
            } else {
                max
            },
            yank_index: 0,
        };
        assert(r.texts() =~= Seq::<Seq<char>>::empty());
        r
    }

    /// Changes how many kills are kept, dropping the oldest.
    pub fn set_max(&mut self, max: usize)
        requires
            old(self).wf(),
        ensures
            final(self).wf(),
            final(self).max == at_least_one(max),
            final(self).texts() == at_most(old(self).texts(), at_least_one(max)),
            final(self).yank_index == 0,
    {
        self.max = if max == 0 {
            1
        } else {
            max
        };
        self.entries.truncate(self.max);
        self.yank_index = 0;
        assert(self.texts() =~= at_most(old(self).texts(), at_least_one(max)));
    }

    pub fn len(&self) -> (r: usize)
        ensures
            r == self.texts().len(),
    {
        self.entries.len()
    }

    pub fn is_empty(&self) -> (r: bool)
        ensures
            r == (self.texts().len() == 0),
    {
        self.entries.len() == 0
    }

    /// The newest kill.
    pub fn head(&self) -> (r: Option<&str>)
        ensures
            match r {
                Some(text) => self.texts().len() > 0 && text@ == self.texts()[0],
                None => self.texts().len() == 0,
            },
    {
        if self.entries.len() == 0 {
            None
        } else {
            Some(self.entries[0].as_str())
        }
    }

    /// The ring's texts after `text` was killed: an empty text and the newest one again change
    /// nothing.
    pub open spec fn with_kill(&self, text: Seq<char>) -> Seq<Seq<char>> {
        if self.brings_new(text) {
            at_most(seq![text] + self.texts(), self.max as nat)
        } else {
            self.texts()
        }
    }

    /// The text is not empty and not the newest kill.
    pub open spec fn brings_new(&self, text: Seq<char>) -> bool {
        text.len() > 0 && !(self.texts().len() > 0 && self.texts()[0] == text)
    }

    fn is_head(&self, text: &str) -> (r: bool)
        ensures
            r == (self.texts().len() > 0 && self.texts()[0] == text@),
    {
        match self.head() {
            Some(head) => same_text(head, text),
            None => false,
        }
    }

    /// Adds the newest kill.
    pub fn push(&mut self, text: String)
        requires
            old(self).wf(),
        ensures
            final(self).wf(),
            final(self).texts() == old(self).with_kill(text@),
            final(self).max == old(self).max,
            final(self).yank_index == 0,
    {
        self.yank_index = 0;
        if text.as_str().is_empty() || self.is_head(text.as_str()) {
            return;
        }
        self.entries.push_front(text);
        self.entries.truncate(self.max);
        assert(self.texts() =~= old(self).with_kill(text@));
    }

    /// The newest kill; a yank-pop continues from it.
    pub fn yank(&mut self) -> (r: Option<String>)
        requires
            old(self).wf(),
        ensures
            final(self).wf(),
            *final(self) == (KillRing { yank_index: 0, ..*old(self) }),
            match r {
                Some(text) => old(self).texts().len() > 0 && text@ == old(self).texts()[0],
                None => old(self).texts().len() == 0,
            },
    {
        self.yank_index = 0;
        if self.entries.len() == 0 {
            None
        } else {
            Some(self.entries[0].clone())
        }
    }

    /// The next older kill after the one last returned, from the newest again behind the oldest.
    pub fn yank_pop(&mut self) -> (r: Option<String>)
        requires
            old(self).wf(),
        ensures
            final(self).wf(),
            old(self).texts().len() == 0 ==> r is None && *final(self) == *old(self),
            old(self).texts().len() > 0 ==> {
                let next = (old(self).yank_index + 1) % (old(self).texts().len() as int);
                &&& *final(self) == (KillRing { yank_index: next as usize, ..*old(self) })
                &&& final(self).yank_index == next
                &&& r matches Some(text) && text@ == old(self).texts()[next]
            },
    {
        let len: usize = self.entries.len();
        if len == 0 {
            return None;
        }
        self.yank_index = if self.yank_index + 1 < len {
            self.yank_index + 1
        } else {
            0
        };
        proof {
            let i = old(self).yank_index + 1;
            if i < len {
                vstd::arithmetic::div_mod::lemma_small_mod(i as nat, len as nat);
            } else {
                assert(i == len);
                vstd::arithmetic::div_mod::lemma_mod_self_0(len as int);
            }
        }
        Some(self.entries[self.yank_index].clone())
    }

    /// Adopts the system clipboard as the newest kill when it holds something new. Otherwise the
    /// ring stays as it is, its yank rotation included.
    pub fn sync_from_system(&mut self, clipboard: Option<String>)
        requires
            old(self).wf(),
        ensures
            final(self).wf(),
            match clipboard {
                Some(clip) if old(self).brings_new(clip@) => {
                    &&& final(self).texts() == old(self).with_kill(clip@)
                    &&& final(self).max == old(self).max
                    &&& final(self).yank_index == 0
                },
                _ => *final(self) == *old(self),
            },
    {
        if let Some(clip) = clipboard {
            if !clip.as_str().is_empty() && !self.is_head(clip.as_str()) {
                self.push(clip);
            }
        }
    }
}

/// A mark: row and column.
pub type Mark = (u32, u16);

/// The marks of a pane, newest first.
#[derive(Debug, PartialEq, Eq)]
pub struct MarkRing {
    pub entries: VecDeque<Mark>,
    pub max: usize,
}

impl MarkRing {
    pub open spec fn wf(&self) -> bool {
        1 <= self.max && self.entries@.len() <= self.max
    }

    /// A ring that keeps `max` marks, at least one.
    pub fn new(max: usize) -> (r: Self)
        ensures
            r.wf(),
            r.entries@ == Seq::<Mark>::empty(),
            r.max == at_least_one(max),
    {
        MarkRing {
            entries: VecDeque::new(),
            max: if max == 0 {
                1
            } else {
                max
            },
        }
    }

    /// Changes how many marks are kept, dropping the oldest.
    pub fn set_max(&mut self, max: usize)
        requires
            old(self).wf(),
        ensures
            final(self).wf(),
            final(self).max == at_least_one(max),
            final(self).entries@ == at_most(old(self).entries@, at_least_one(max)),
    {
        self.max = if max == 0 {
            1
        } else {
            max
        };
        self.entries.truncate(self.max);
    }

    pub fn len(&self) -> (r: usize)
        ensures
            r == self.entries@.len(),
    {
        self.entries.len()
    }

    pub fn is_empty(&self) -> (r: bool)
        ensures
            r == (self.entries@.len() == 0),
    {
        self.entries.len() == 0
    }

    /// Adds the newest mark.
    pub fn push(&mut self, mark: Mark)
        requires
            old(self).wf(),
        ensures
            final(self).wf(),
            final(self).entries@ == at_most(seq![mark] + old(self).entries@, old(self).max as nat),
            final(self).max == old(self).max,
    {
        self.entries.push_front(mark);
        self.entries.truncate(self.max);
    }

    /// Returns the newest mark and moves it behind the oldest.
    pub fn pop_rotate(&mut self) -> (r: Option<Mark>)
        requires
            old(self).wf(),
        ensures
            final(self).wf(),
            final(self).max == old(self).max,
            old(self).entries@.len() == 0 ==> r is None && final(self).entries@
                == old(self).entries@,
            old(self).entries@.len() > 0 ==> r == Some(old(self).entries@[0])
                && final(self).entries@ == rotated(old(self).entries@, 1),
    {
        match self.entries.pop_front() {
            Some(front) => {
                self.entries.push_back(front);
                assert(self.entries@ =~= rotated(old(self).entries@, 1));
                Some(front)
            },
            None => None,
        }
    }
}

/// `s` with its first `n` elements moved behind the rest.
pub open spec fn rotated<T>(s: Seq<T>, n: int) -> Seq<T> {
    s.skip(n) + s.take(n)
}

/// After a yank, the `n`th yank-pop shows the `n`th older kill, around the ring.
pub open spec fn popped_index(len: int, n: nat) -> int
    decreases n,
{
    if n == 0 {
        0
    } else {
        (popped_index(len, (n - 1) as nat) + 1) % len
    }
}

/// Yank-pop walks the whole ring and comes back: `n` pops after a yank stand at entry `n` modulo
/// the length of the ring.
pub proof fn yank_pop_walks_the_ring(len: int, n: nat)
    requires
        len > 0,
    ensures
        popped_index(len, n) == n as int % len,
    decreases n,
{
    if n > 0 {
        yank_pop_walks_the_ring(len, (n - 1) as nat);
        vstd::arithmetic::div_mod::lemma_add_mod_noop_right(1, (n - 1) as int, len);
    } else {
        vstd::arithmetic::div_mod::lemma_small_mod(0, len as nat);
    }
}

/// Rotating once per entry brings every mark back to its place.
pub proof fn full_rotation_restores_the_marks(s: Seq<Mark>, n: int)
    requires
        0 <= n < s.len(),
    ensures
        rotated(rotated(s, n), 1) == rotated(s, n + 1),
        rotated(s, s.len() as int) == s,
{
    assert(rotated(rotated(s, n), 1) =~= rotated(s, n + 1));
    assert(rotated(s, s.len() as int) =~= s);
}

/// A kill is what the next yank returns.
pub proof fn yank_returns_the_last_kill(ring: KillRing, text: Seq<char>)
    requires
        ring.wf(),
        text.len() > 0,
    ensures
        ring.with_kill(text).len() > 0,
        ring.with_kill(text)[0] == text,
{
}

/// A kill goes on top of the older ones, of which the oldest falls out of a full ring; nothing, and
/// the newest kill again, change the ring not at all.
pub proof fn kills_go_on_top(ring: KillRing, text: Seq<char>)
    requires
        ring.wf(),
    ensures
        ({
            let texts = ring.texts();
            let now = ring.with_kill(text);
            let again = text.len() == 0 || (texts.len() > 0 && texts[0] == text);
            &&& ring.brings_new(text) <==> !again
            &&& again ==> now == texts
            &&& !again && texts.len() < ring.max ==> now == seq![text] + texts
            &&& !again && texts.len() == ring.max ==> now == seq![text] + texts.drop_last()
        }),
{
    let all = seq![text] + ring.texts();
    if ring.texts().len() == ring.max {
        assert(all.take(ring.max as int) =~= seq![text] + ring.texts().drop_last());
    }
}

/// A shorter ring keeps its newest entries, and at least one.
pub proof fn shorter_rings_keep_the_newest<T>(s: Seq<T>, max: usize, i: int)
    ensures
        at_most(s, at_least_one(max)).len() == (if max == 0 && s.len() > 0 {
            1
        } else if s.len() <= max || s.len() == 0 {
            s.len() as int
        } else {
            max as int
        }),
        0 <= i < at_most(s, at_least_one(max)).len() ==> at_most(s, at_least_one(max))[i] == s[i],
{
}

} // verus!
