//! State and match navigation for incremental search in text mode.

use crate::emacs::rings::{at_least_one, at_most};
use crate::emacs::text_mode::Pos;
use crate::text::{same_text, views};
use std::collections::VecDeque;
use vstd::prelude::*;

verus! {

#[derive(Debug, Clone, Copy, PartialEq, Eq, Structural)]
pub enum SearchDirection {
    Forward,
    Backward,
}

/// A match: from its first position to its last.
#[derive(Debug, Clone, Copy, PartialEq, Eq, Structural)]
pub struct SearchSpan {
    pub start: Pos,
    pub end: Pos,
}

/// A match that was chosen, and whether the search went around an end of the buffer to reach it.
#[derive(Debug, Clone, Copy, PartialEq, Eq, Structural)]
pub struct SearchSelection {
    pub index: usize,
    pub wrapped: bool,
}

/// A match in a terminal, with a fingerprint of the text it was found in.
#[derive(Debug, Clone, Copy, PartialEq, Eq, Structural)]
pub struct TerminalTextMatch {
    pub span: SearchSpan,
    pub fingerprint: u64,
}

/// One incremental search.
#[derive(Debug, PartialEq, Eq)]
pub struct IsearchState {
    pub direction: SearchDirection,
    pub query: String,
    pub origin: Pos,
    pub matches: Vec<TerminalTextMatch>,
    pub current: Option<usize>,
    pub failing: bool,
    pub wrapped: bool,
    pub history_cursor: Option<usize>,
    pub history_draft: String,
}

impl IsearchState {
    /// A search that has read no query yet.
    pub fn new(direction: SearchDirection, origin: Pos) -> (r: Self)
        ensures
            r.direction == direction,
            r.query@ == Seq::<char>::empty(),
            r.origin == origin,
            r.matches@ == Seq::<TerminalTextMatch>::empty(),
            r.current is None,
            !r.failing,
            !r.wrapped,
            r.history_cursor is None,
            r.history_draft@ == Seq::<char>::empty(),
    {
        IsearchState {
            direction,
            query: String::new(),
            origin,
            matches: Vec::new(),
            current: None,
            failing: false,
            wrapped: false,
            history_cursor: None,
            history_draft: String::new(),
        }
    }
}

/// The match lies on the side of `origin` that the search goes to.
pub open spec fn ahead(span: SearchSpan, direction: SearchDirection, origin: Pos) -> bool {
    match direction {
        SearchDirection::Forward => origin.at_or_before(span.start),
        SearchDirection::Backward => span.end.before(origin),
    }
}

/// The match at `index` is the one nearest to `origin` of those ahead, in the order of the list.
pub open spec fn nearest_ahead(
    matches: Seq<SearchSpan>,
    direction: SearchDirection,
    origin: Pos,
    index: int,
) -> bool {
    &&& 0 <= index < matches.len()
    &&& ahead(matches[index], direction, origin)
    &&& match direction {
        SearchDirection::Forward => forall|i: int|
            0 <= i < index ==> !ahead(#[trigger] matches[i], direction, origin),
        SearchDirection::Backward => forall|i: int|
            index < i < matches.len() ==> !ahead(#[trigger] matches[i], direction, origin),
    }
}

/// The match that a search from `origin` shows first. It does not go around the buffer's ends.
pub fn initial_selection(matches: &[SearchSpan], direction: SearchDirection, origin: Pos) -> (r:
    Option<SearchSelection>)
    ensures
        match r {
            Some(s) => !s.wrapped && nearest_ahead(matches@, direction, origin, s.index as int),
            None => forall|i: int|
                0 <= i < matches@.len() ==> !ahead(#[trigger] matches@[i], direction, origin),
        },
{
    match direction {
        SearchDirection::Forward => {
            let mut i: usize = 0;
            while i < matches.len()
                invariant
                    i <= matches@.len(),
                    direction is Forward,
                    forall|k: int|
                        0 <= k < i ==> !ahead(#[trigger] matches@[k], direction, origin),
                decreases matches@.len() - i,
            {
                if !matches[i].start.is_before(&origin) {
                    return Some(SearchSelection { index: i, wrapped: false });
                }
                i += 1;
            }
        },
        SearchDirection::Backward => {
            let mut i: usize = matches.len();
            while i > 0
                invariant
                    i <= matches@.len(),
                    direction is Backward,
                    forall|k: int|
                        i <= k < matches@.len() ==> !ahead(#[trigger] matches@[k], direction, origin),
                decreases i,
            {
                i -= 1;
                if matches[i].end.is_before(&origin) {
                    return Some(SearchSelection { index: i, wrapped: false });
                }
            }
        },
    }
    None
}

/// The match that repeating a search moves to among `count`: the next in its direction, around the
/// end; from no match, the first in its direction, as if around the end.
pub open spec fn next_match(
    count: nat,
    direction: SearchDirection,
    current: Option<usize>,
) -> Option<SearchSelection> {
    let first = SearchSelection {
        index: match direction {
            SearchDirection::Forward => 0,
            SearchDirection::Backward => (count - 1) as usize,
        },
        wrapped: true,
    };
    if count == 0 {
        None
    } else {
        match current {
            None => Some(first),
            Some(c) => if c >= count {
                None
            } else if direction is Forward && c + 1 < count {
                Some(SearchSelection { index: (c + 1) as usize, wrapped: false })
            } else if direction is Backward && c > 0 {
                Some(SearchSelection { index: (c - 1) as usize, wrapped: false })
            } else {
                Some(first)
            },
        }
    }
}

/// The match that repeating the search moves to.
pub fn repeated_selection(
    matches: &[SearchSpan],
    direction: SearchDirection,
    current: Option<usize>,
) -> (r: Option<SearchSelection>)
    ensures
        r == next_match(matches@.len(), direction, current),
{
    let count: usize = matches.len();
    if count == 0 {
        return None;
    }
    let around = SearchSelection {
        index: match direction {
            SearchDirection::Forward => 0,
            SearchDirection::Backward => count - 1,
        },
        wrapped: true,
    };
    match current {
        None => Some(around),
        Some(c) => {
            if c >= count {
                return None;
            }
            match direction {
                SearchDirection::Forward => if c + 1 < count {
                    Some(SearchSelection { index: c + 1, wrapped: false })
                } else {
                    Some(around)
                },
                SearchDirection::Backward => if c > 0 {
                    Some(SearchSelection { index: c - 1, wrapped: false })
                } else {
                    Some(around)
                },
            }
        },
    }
}

/// Repeating a search forward and then backward comes back to the same match.
pub proof fn repeating_back_and_forth_returns(count: nat, current: usize)
    requires
        current < count,
        count <= usize::MAX,
    ensures
        ({
            let there = next_match(count, SearchDirection::Forward, Some(current));
            let back = next_match(count, SearchDirection::Backward, Some(there->0.index));
            there is Some && back is Some && back->0.index == current
        }),
{
}

/// Recent search queries, newest first, none twice.
#[derive(Debug, PartialEq, Eq)]
pub struct SearchRing {
    pub entries: VecDeque<String>,
    pub max: usize,
}

impl SearchRing {
    pub open spec fn queries(&self) -> Seq<Seq<char>> {
        views(self.entries@)
    }

    pub open spec fn wf(&self) -> bool {
        &&& 1 <= self.max
        &&& self.queries().len() <= self.max
        &&& self.queries().no_duplicates()
        &&& forall|i: int| 0 <= i < self.queries().len() ==> (#[trigger] self.queries()[i]).len() > 0
    }

    /// A ring that keeps `max` queries, at least one.
    pub fn new(max: usize) -> (r: Self)
        ensures
            r.wf(),
            r.queries() == Seq::<Seq<char>>::empty(),
            r.max == at_least_one(max),
    {
        let r = SearchRing {
            entries: VecDeque::new(),
            max: if max == 0 {
                1
            } else {
                max
            },
        };
        assert(r.queries() =~= Seq::<Seq<char>>::empty());
        r
    }

    /// The queries after `query` was used: it moves to the front; an empty one is not kept.
    pub open spec fn with_query(&self, query: Seq<char>) -> Seq<Seq<char>> {
        if query.len() == 0 {
            self.queries()
        } else {
            at_most(seq![query] + without(self.queries(), query), self.max as nat)
        }
    }

    /// Puts `query` first.
    pub fn push(&mut self, query: String)
        requires
            old(self).wf(),
        ensures
            final(self).wf(),
            final(self).queries() == old(self).with_query(query@),
            final(self).max == old(self).max,
    {
        if query.as_str().is_empty() {
            return;
        }
        let ghost q = query@;
        let ghost before = self.queries();
        let mut i: usize = 0;
        while i < self.entries.len() && !same_text(self.entries[i].as_str(), query.as_str())
            invariant
                i <= self.entries@.len(),
                q == query@,
                *self == *old(self),
                before == old(self).queries(),
                forall|k: int| 0 <= k < i ==> #[trigger] before[k] != q,
            decreases self.entries@.len() - i,
        {
            assert(before[i as int] == self.entries@[i as int]@);
            i += 1;
        }
        proof {
            lemma_without(before, q, i as int);
        }
        if i < self.entries.len() {
            assert(before[i as int] == self.entries@[i as int]@);
            self.entries.remove(i);
            assert(views(self.entries@) =~= before.remove(i as int));
        }
        assert(views(self.entries@) == without(before, q));
        self.entries.push_front(query);
        assert(views(self.entries@) =~= seq![q] + without(before, q));
        self.entries.truncate(self.max);
        assert(self.queries() =~= old(self).with_query(q));
        proof {
            lemma_without_properties(before, q);
            let all = seq![q] + without(before, q);
            assert forall|i: int, j: int|
                0 <= i < all.len() && 0 <= j < all.len() && i != j implies all[i] != all[j] by {
                if i == 0 {
                    assert(without(before, q)[j - 1] != q);
                } else if j == 0 {
                    assert(without(before, q)[i - 1] != q);
                } else {
                    assert(without(before, q)[i - 1] != without(before, q)[j - 1]);
                }
            }
        }
    }

    /// The `index`th newest query.
    pub fn get(&self, index: usize) -> (r: Option<&str>)
        ensures
            match r {
                Some(query) => index < self.queries().len() && query@ == self.queries()[index as int],
                None => index >= self.queries().len(),
            },
    {
        if index < self.entries.len() {
            Some(self.entries[index].as_str())
        } else {
            None
        }
    }

    pub fn len(&self) -> (r: usize)
        ensures
            r == self.queries().len(),
    {
        self.entries.len()
    }
}

/// `s` without `x`.
pub open spec fn without(s: Seq<Seq<char>>, x: Seq<char>) -> Seq<Seq<char>>
    decreases s.len(),
{
    if s.len() == 0 {
        s
    } else if s[0] == x {
        without(s.skip(1), x)
    } else {
        seq![s[0]] + without(s.skip(1), x)
    }
}

proof fn lemma_without_absent(s: Seq<Seq<char>>, x: Seq<char>)
    requires
        forall|k: int| 0 <= k < s.len() ==> #[trigger] s[k] != x,
    ensures
        without(s, x) == s,
    decreases s.len(),
{
    if s.len() > 0 {
        assert forall|k: int| 0 <= k < s.skip(1).len() implies #[trigger] s.skip(1)[k] != x by {
            assert(s.skip(1)[k] == s[k + 1]);
        }
        lemma_without_absent(s.skip(1), x);
        assert(seq![s[0]] + s.skip(1) =~= s);
    }
}

/// Where nothing occurs twice, leaving `x` out is removing its one occurrence.
proof fn lemma_without(s: Seq<Seq<char>>, x: Seq<char>, i: int)
    requires
        s.no_duplicates(),
        0 <= i <= s.len(),
        forall|k: int| 0 <= k < i ==> #[trigger] s[k] != x,
        i < s.len() ==> s[i] == x,
    ensures
        i < s.len() ==> without(s, x) == s.remove(i),
        i == s.len() ==> without(s, x) == s,
    decreases s.len(),
{
    if i == s.len() {
        lemma_without_absent(s, x);
    } else if i == 0 {
        assert forall|k: int| 0 <= k < s.skip(1).len() implies #[trigger] s.skip(1)[k] != x by {
            assert(s.skip(1)[k] == s[k + 1]);
        }
        lemma_without_absent(s.skip(1), x);
        assert(s.remove(0) =~= s.skip(1));
    } else {
        assert forall|k: int| 0 <= k < i - 1 implies #[trigger] s.skip(1)[k] != x by {
            assert(s.skip(1)[k] == s[k + 1]);
        }
        lemma_without(s.skip(1), x, i - 1);
        assert(seq![s[0]] + s.skip(1).remove(i - 1) =~= s.remove(i));
    }
}

proof fn lemma_without_properties(s: Seq<Seq<char>>, x: Seq<char>)
    requires
        s.no_duplicates(),
        forall|i: int| 0 <= i < s.len() ==> (#[trigger] s[i]).len() > 0,
    ensures
        without(s, x).no_duplicates(),
        forall|i: int| 0 <= i < without(s, x).len() ==> #[trigger] without(s, x)[i] != x,
        forall|i: int| 0 <= i < without(s, x).len() ==> (#[trigger] without(s, x)[i]).len() > 0,
        forall|i: int| 0 <= i < without(s, x).len() ==> s.contains(#[trigger] without(s, x)[i]),
    decreases s.len(),
{
    if s.len() > 0 {
        let rest = s.skip(1);
        assert forall|i: int| 0 <= i < rest.len() implies (#[trigger] rest[i]).len() > 0 by {
            assert(rest[i] == s[i + 1]);
        }
        assert forall|i: int, j: int|
            0 <= i < rest.len() && 0 <= j < rest.len() && i != j implies rest[i] != rest[j] by {
            assert(s[i + 1] != s[j + 1]);
        }
        lemma_without_properties(rest, x);
        let w = without(rest, x);
        assert forall|i: int| 0 <= i < w.len() implies s.contains(#[trigger] w[i]) && w[i] != s[0] by {
            let k = choose|k: int| 0 <= k < rest.len() && rest[k] == w[i];
            assert(s[k + 1] == w[i]);
        }
        if s[0] != x {
            let all = seq![s[0]] + w;
            assert forall|i: int| 0 <= i < all.len() implies s.contains(#[trigger] all[i])
                && all[i] != x && all[i].len() > 0 by {
                if i == 0 {
                    assert(s.contains(s[0]));
                } else {
                    assert(all[i] == w[i - 1]);
                }
            }
            assert forall|i: int, j: int|
                0 <= i < all.len() && 0 <= j < all.len() && i != j implies all[i] != all[j] by {
                if i > 0 && j > 0 {
                    assert(w[i - 1] != w[j - 1]);
                } else if i == 0 {
                    assert(w[j - 1] != s[0]);
                } else {
                    assert(w[i - 1] != s[0]);
                }
            }
        }
    }
}

/// A search starts at the match nearest to where it began: forward at the first that begins at or
/// behind that place, backward at the last that ends before it.
pub proof fn searches_start_at_the_nearest_match(
    matches: Seq<SearchSpan>,
    origin: Pos,
    index: int,
)
    ensures
        nearest_ahead(matches, SearchDirection::Forward, origin, index) <==> {
            let reached = |p: Pos| origin.row < p.row || (origin.row == p.row && origin.col <= p.col);
            &&& 0 <= index < matches.len()
            &&& reached(matches[index].start)
            &&& forall|i: int| 0 <= i < index ==> !reached((#[trigger] matches[i]).start)
        },
        nearest_ahead(matches, SearchDirection::Backward, origin, index) <==> {
            let passed = |p: Pos| p.row < origin.row || (p.row == origin.row && p.col < origin.col);
            &&& 0 <= index < matches.len()
            &&& passed(matches[index].end)
            &&& forall|i: int| index < i < matches.len() ==> !passed((#[trigger] matches[i]).end)
        },
        forall|span: SearchSpan| #[trigger]
            ahead(span, SearchDirection::Forward, origin) <==> (origin.row < span.start.row || (
            origin.row == span.start.row && origin.col <= span.start.col)),
        forall|span: SearchSpan| #[trigger]
            ahead(span, SearchDirection::Backward, origin) <==> (span.end.row < origin.row || (
            span.end.row == origin.row && span.end.col < origin.col)),
{
    let forward = SearchDirection::Forward;
    let backward = SearchDirection::Backward;
    let reached = |p: Pos| origin.row < p.row || (origin.row == p.row && origin.col <= p.col);
    let passed = |p: Pos| p.row < origin.row || (p.row == origin.row && p.col < origin.col);
    assert forall|span: SearchSpan| #[trigger] ahead(span, forward, origin) == reached(span.start) by {
    }
    assert forall|span: SearchSpan| #[trigger] ahead(span, backward, origin) == passed(span.end) by {
    }
    if forall|i: int| 0 <= i < index ==> !reached((#[trigger] matches[i]).start) {
        assert forall|i: int| 0 <= i < index implies !ahead(#[trigger] matches[i], forward, origin) by {
            assert(!reached(matches[i].start));
        }
    }
    if forall|i: int| index < i < matches.len() ==> !passed((#[trigger] matches[i]).end) {
        assert forall|i: int| index < i < matches.len() implies !ahead(
            #[trigger] matches[i],
            backward,
            origin,
        ) by {
            assert(!passed(matches[i].end));
        }
    }
}

/// Repeating a search goes to the neighbouring match, around the ends of the list, and says just
/// then that it went around; from no match it goes to the first in its direction. Without matches
/// it goes nowhere.
pub proof fn repeating_goes_to_the_neighbour(count: nat, current: usize)
    requires
        count <= usize::MAX,
    ensures
        next_match(0, SearchDirection::Forward, Some(current)) is None,
        next_match(0, SearchDirection::Backward, Some(current)) is None,
        next_match(0, SearchDirection::Forward, None) is None,
        next_match(0, SearchDirection::Backward, None) is None,
        current < count ==> {
            let on = next_match(count, SearchDirection::Forward, Some(current));
            let back = next_match(count, SearchDirection::Backward, Some(current));
            &&& on is Some && back is Some
            &&& on->0.wrapped <==> current == count - 1
            &&& back->0.wrapped <==> current == 0
            &&& on->0.index == (if current == count - 1 { 0 } else { current + 1 })
            &&& back->0.index == (if current == 0 { count - 1 } else { current - 1 })
        },
        count > 0 ==> {
            let on = next_match(count, SearchDirection::Forward, None);
            let back = next_match(count, SearchDirection::Backward, None);
            &&& on is Some && back is Some
            &&& on->0.index == 0 && on->0.wrapped
            &&& back->0.index == count - 1 && back->0.wrapped
        },
{
}

/// A query that was used comes first, the others keep their order behind it, and the oldest goes
/// when there are too many. An empty query is not kept.
pub proof fn queries_move_to_the_front(ring: SearchRing, query: Seq<char>)
    requires
        ring.wf(),
    ensures
        query.len() == 0 ==> ring.with_query(query) == ring.queries(),
        query.len() > 0 ==> {
            let now = ring.with_query(query);
            &&& now.len() > 0 && now[0] == query
            &&& now.len() <= ring.max
            &&& forall|i: int|
                #![trigger ring.queries()[i]]
                0 <= i < ring.queries().len() && ring.queries()[i] == query ==> now == seq![query]
                    + ring.queries().remove(i)
            &&& !ring.queries().contains(query) && ring.queries().len() < ring.max ==> now
                == seq![query] + ring.queries()
            &&& !ring.queries().contains(query) && ring.queries().len() == ring.max ==> now
                == seq![query] + ring.queries().drop_last()
        },
{
    let before = ring.queries();
    if query.len() > 0 {
        if !before.contains(query) {
            assert forall|k: int| 0 <= k < before.len() implies #[trigger] before[k] != query by {
                assert(before.contains(before[k]));
            }
            lemma_without_absent(before, query);
            let all = seq![query] + before;
            assert(at_most(all, ring.max as nat) =~= if before.len() == ring.max {
                seq![query] + before.drop_last()
            } else {
                all
            });
        }
        assert forall|i: int|
            #![trigger before[i]]
            0 <= i < before.len() && before[i] == query implies ring.with_query(query)
            == seq![query] + before.remove(i) by {
            assert forall|k: int| 0 <= k < i implies #[trigger] before[k] != query by {
                assert(before[k] != before[i]);
            }
            lemma_without(before, query, i);
        }
        if before.contains(query) {
            let i = choose|i: int| 0 <= i < before.len() && before[i] == query;
            assert(before[i] == query);
            assert(ring.with_query(query) == seq![query] + before.remove(i));
        }
    }
}

} // verus!
