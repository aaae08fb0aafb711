//! The endpoints that a member shows: those it watches itself, or those that a client lists for it.

use crate::federation::endpoint::{duplicate_option, Endpoint, EndpointState, FederationEndpointConfig};
use crate::federation::projection::lemma_kept;
use crate::order::{text_at_most, text_le, text_order_is_total};
use crate::search::{first_hit, lemma_first_hit};
use crate::text::same_text;
use vstd::prelude::*;

verus! {

/// What is known of endpoints, by id, in the order of the ids.
#[derive(Debug, PartialEq, Eq)]
pub struct StateMap {
    pub states: Vec<EndpointState>,
}

pub open spec fn id_at(states: Seq<EndpointState>, i: int) -> Seq<char> {
    states[i].endpoint.id@
}

/// The ids rise strictly.
pub open spec fn in_order(states: Seq<EndpointState>) -> bool {
    forall|i: int, j: int|
        #![trigger id_at(states, i), id_at(states, j)]
        0 <= i < j < states.len() ==> text_le(id_at(states, i), id_at(states, j)) && id_at(
            states,
            i,
        ) != id_at(states, j)
}

pub open spec fn has_id(states: Seq<EndpointState>, id: Seq<char>) -> bool {
    exists|i: int| 0 <= i < states.len() && #[trigger] id_at(states, i) == id
}

pub open spec fn place_of(states: Seq<EndpointState>, id: Seq<char>) -> int {
    choose|i: int| 0 <= i < states.len() && #[trigger] id_at(states, i) == id
}

/// The states by their ids.
pub open spec fn by_id(states: Seq<EndpointState>) -> Map<Seq<char>, Endpoint> {
    Map::new(|id: Seq<char>| has_id(states, id), |id: Seq<char>| states[place_of(states, id)]@)
}

proof fn lemma_by_id(states: Seq<EndpointState>, i: int)
    requires
        in_order(states),
        0 <= i < states.len(),
    ensures
        by_id(states).dom().contains(id_at(states, i)),
        by_id(states)[id_at(states, i)] == states[i]@,
{
    let id = id_at(states, i);
    assert(has_id(states, id));
    let p = place_of(states, id);
    assert(id_at(states, p) == id);
    if p < i {
        assert(id_at(states, p) != id_at(states, i));
    }
    if i < p {
        assert(id_at(states, i) != id_at(states, p));
    }
}

impl View for StateMap {
    type V = Map<Seq<char>, Endpoint>;

    open spec fn view(&self) -> Map<Seq<char>, Endpoint> {
        by_id(self.states@)
    }
}

impl StateMap {
    pub open spec fn wf(&self) -> bool {
        in_order(self.states@)
    }

    /// No endpoints.
    pub fn new() -> (r: Self)
        ensures
            r.wf(),
            r@ == Map::<Seq<char>, Endpoint>::empty(),
    {
        let r = StateMap { states: Vec::new() };
        assert(r@ =~= Map::<Seq<char>, Endpoint>::empty());
        r
    }

    /// The place of an id, or the place where it would stand.
    fn seek(&self, id: &str) -> (r: usize)
        requires
            self.wf(),
        ensures
            r <= self.states@.len(),
            forall|k: int|
                0 <= k < r ==> text_le(#[trigger] id_at(self.states@, k), id@) && id_at(
                    self.states@,
                    k,
                ) != id@,
            forall|k: int|
                r <= k < self.states@.len() ==> text_le(id@, #[trigger] id_at(self.states@, k)),
    {
        let mut i: usize = 0;
        while i < self.states.len()
            invariant
                self.wf(),
                i <= self.states@.len(),
                forall|k: int|
                    0 <= k < i ==> text_le(#[trigger] id_at(self.states@, k), id@) && id_at(
                        self.states@,
                        k,
                    ) != id@,
            decreases self.states@.len() - i,
        {
            if text_at_most(id, self.states[i].endpoint.id.as_str()) {
                assert forall|k: int| i <= k < self.states@.len() implies text_le(
                    id@,
                    #[trigger] id_at(self.states@, k),
                ) by {
                    if i < k {
                        assert(text_le(id_at(self.states@, i as int), id_at(self.states@, k)));
                        text_order_is_total(
                            id@,
                            id_at(self.states@, i as int),
                            id_at(self.states@, k),
                        );
                    }
                }
                return i;
            }
            proof {
                text_order_is_total(id_at(self.states@, i as int), id@, id@);
                assert(text_le(id@, id@)) by {
                    text_order_is_total(id@, id@, id@);
                }
            }
            i += 1;
        }
        i
    }

    /// What is known of an endpoint.
    pub fn get(&self, id: &str) -> (r: Option<&EndpointState>)
        requires
            self.wf(),
        ensures
            match r {
                Some(state) => self@.dom().contains(id@) && self@[id@] == state@,
                None => !self@.dom().contains(id@),
            },
    {
        let at = self.seek(id);
        if at < self.states.len() && same_text(self.states[at].endpoint.id.as_str(), id) {
            proof {
                lemma_by_id(self.states@, at as int);
            }
            return Some(&self.states[at]);
        }
        proof {
            if has_id(self.states@, id@) {
                let k = place_of(self.states@, id@);
                assert(id_at(self.states@, k) == id@);
                assert(k >= at);
                if k > at {
                    assert(text_le(id_at(self.states@, at as int), id_at(self.states@, k)));
                    assert(text_le(id@, id_at(self.states@, at as int)));
                    text_order_is_total(id@, id_at(self.states@, at as int), id@);
                }
            }
        }
        None
    }

    /// Notes what is known of an endpoint, in place of what was known.
    pub fn insert(&mut self, state: EndpointState)
        requires
            old(self).wf(),
        ensures
            final(self).wf(),
            final(self)@ == old(self)@.insert(state.endpoint.id@, state@),
    {
        let at = self.seek(state.endpoint.id.as_str());
        let ghost before = self.states@;
        let ghost id = state.endpoint.id@;
        let replaces = at < self.states.len() && same_text(
            self.states[at].endpoint.id.as_str(),
            state.endpoint.id.as_str(),
        );
        if replaces {
            self.states.set(at, state);
        } else {
            self.states.insert(at, state);
        }
        let ghost after = self.states@;
        proof {
            if replaces {
                assert(after == before.update(at as int, state));
                assert forall|i: int, j: int|
                    #![trigger id_at(after, i), id_at(after, j)]
                    0 <= i < j < after.len() implies text_le(id_at(after, i), id_at(after, j))
                    && id_at(after, i) != id_at(after, j) by {
                    assert(id_at(after, i) == id_at(before, i));
                    assert(id_at(after, j) == id_at(before, j));
                }
            } else {
                assert(after == before.insert(at as int, state));
                assert forall|k: int| at <= k < before.len() implies #[trigger] id_at(before, k)
                    != id by {
                    if id_at(before, k) == id && k > at {
                        assert(text_le(id_at(before, at as int), id_at(before, k)));
                        assert(text_le(id, id_at(before, at as int)));
                        text_order_is_total(id, id_at(before, at as int), id);
                    }
                }
                assert forall|i: int, j: int|
                    #![trigger id_at(after, i), id_at(after, j)]
                    0 <= i < j < after.len() implies text_le(id_at(after, i), id_at(after, j))
                    && id_at(after, i) != id_at(after, j) by {
                    let p = if i < at {
                        i
                    } else {
                        i - 1
                    };
                    let q = if j < at {
                        j
                    } else {
                        j - 1
                    };
                    if i != at {
                        assert(id_at(after, i) == id_at(before, p));
                    }
                    if j != at {
                        assert(id_at(after, j) == id_at(before, q));
                    }
                }
            }
            lemma_inserted(before, after, at as int, state, replaces);
        }
    }
}

/// One state more, or one replaced, by id.
proof fn lemma_inserted(
    before: Seq<EndpointState>,
    after: Seq<EndpointState>,
    at: int,
    state: EndpointState,
    replaces: bool,
)
    requires
        in_order(before),
        in_order(after),
        0 <= at <= before.len(),
        replaces ==> at < before.len() && id_at(before, at) == state.endpoint.id@ && after
            == before.update(at, state),
        !replaces ==> after == before.insert(at, state),
    ensures
        by_id(after) == by_id(before).insert(state.endpoint.id@, state@),
{
    let id = state.endpoint.id@;
    lemma_by_id(after, at);
    assert forall|k: Seq<char>| k != id implies has_id(before, k) == #[trigger] has_id(after, k)
        && (has_id(before, k) ==> by_id(before)[k] == by_id(after)[k]) by {
        if has_id(before, k) {
            let p = place_of(before, k);
            assert(id_at(before, p) == k);
            let q = if replaces || p < at {
                p
            } else {
                p + 1
            };
            assert(after[q] == before[p]);
            assert(id_at(after, q) == k);
            lemma_by_id(before, p);
            lemma_by_id(after, q);
        }
        if has_id(after, k) {
            let q = place_of(after, k);
            assert(id_at(after, q) == k);
            let p = if replaces || q < at {
                q
            } else {
                q - 1
            };
            assert(q != at);
            assert(after[q] == before[p]);
            assert(id_at(before, p) == k);
        }
    }
    assert(by_id(after) =~= by_id(before).insert(id, state@)) by {
        assert forall|k: Seq<char>|
            by_id(after).dom().contains(k) == #[trigger] by_id(before).insert(
                id,
                state@,
            ).dom().contains(k) by {
            assert(by_id(after).dom().contains(k) == has_id(after, k));
            assert(by_id(before).dom().contains(k) == has_id(before, k));
        }
        assert forall|k: Seq<char>| #[trigger] by_id(after).dom().contains(k) implies by_id(after)[k]
            == by_id(before).insert(id, state@)[k] by {
            assert(has_id(after, k));
        }
    }
}

/// The endpoints of a member.
#[derive(Debug, PartialEq, Eq)]
pub struct FederationView {
    /// Those that the member watches itself.
    pub watched: StateMap,
    /// Those that a client lists.
    pub overlay: StateMap,
    /// Whether the client's list counts.
    pub overlay_active: bool,
}

pub open spec fn same_runtime(a: FederationEndpointConfig, b: FederationEndpointConfig) -> bool {
    a.target@ == b.target@ && a.session@ == b.session@
}

/// A listed endpoint without a snapshot keeps the one that was known of the same runtime.
pub open spec fn remembered(listed: Endpoint, known: Map<Seq<char>, Endpoint>) -> Endpoint {
    let id = listed.endpoint.id@;
    if listed.snapshot is None && known.dom().contains(id) && same_runtime(
        known[id].endpoint,
        listed.endpoint,
    ) {
        Endpoint {
            snapshot: known[id].snapshot,
            cursor: if listed.cursor is Some {
                listed.cursor
            } else {
                known[id].cursor
            },
            ..listed
        }
    } else {
        listed
    }
}

/// The overlay that a list makes. Of two entries with one id the later counts.
pub open spec fn overlaid(directory: Seq<Endpoint>, known: Map<Seq<char>, Endpoint>) -> Map<
    Seq<char>,
    Endpoint,
>
    decreases directory.len(),
{
    if directory.len() == 0 {
        Map::empty()
    } else {
        overlaid(directory.drop_last(), known).insert(
            directory.last().endpoint.id@,
            remembered(directory.last(), known),
        )
    }
}

pub open spec fn endpoints(states: Seq<EndpointState>) -> Seq<Endpoint> {
    Seq::new(states.len(), |i: int| states[i]@)
}

/// The states without one member's.
pub open spec fn others(states: Seq<EndpointState>, member_id: Seq<char>) -> Seq<EndpointState> {
    states.filter(|s: EndpointState| s.endpoint.id@ != member_id)
}

impl FederationView {
    pub open spec fn wf(&self) -> bool {
        self.watched.wf() && self.overlay.wf()
    }

    /// What is shown: the client's list while it counts, else what is watched.
    pub open spec fn shown(&self) -> StateMap {
        if self.overlay_active {
            self.overlay
        } else {
            self.watched
        }
    }

    /// A member that watches no endpoint and has no client's list.
    pub fn new() -> (r: Self)
        ensures
            r.wf(),
            !r.overlay_active,
            r.watched@ == Map::<Seq<char>, Endpoint>::empty(),
            r.overlay@ == Map::<Seq<char>, Endpoint>::empty(),
    {
        FederationView {
            watched: StateMap::new(),
            overlay: StateMap::new(),
            overlay_active: false,
        }
    }

    /// Takes a client's list, or drops it.
    pub fn apply_federation_directory(&mut self, directory: Option<Vec<EndpointState>>)
        requires
            old(self).wf(),
        ensures
            final(self).wf(),
            final(self).watched == old(self).watched,
            final(self).overlay_active == (directory is Some),
            match directory {
                Some(listed) => final(self).overlay@ == overlaid(
                    endpoints(listed@),
                    old(self).overlay@,
                ),
                None => final(self).overlay@ == Map::<Seq<char>, Endpoint>::empty(),
            },
    {
        let listed = match directory {
            Some(listed) => listed,
            None => {
                self.overlay = StateMap::new();
                self.overlay_active = false;
                return;
            },
        };
        let mut overlay = StateMap::new();
        let mut i: usize = 0;
        let ghost all = endpoints(listed@);
        assert(all.take(0) =~= Seq::<Endpoint>::empty());
        while i < listed.len()
            invariant
                self.wf(),
                *self == *old(self),
                all == endpoints(listed@),
                i <= listed@.len(),
                overlay.wf(),
                overlay@ == overlaid(all.take(i as int), self.overlay@),
            decreases listed@.len() - i,
        {
            let mut state = listed[i].duplicate();
            if state.snapshot.is_none() {
                if let Some(previous) = self.overlay.get(state.endpoint.id.as_str()) {
                    if same_text(
                        previous.endpoint.target.as_str(),
                        state.endpoint.target.as_str(),
                    ) && same_text(
                        previous.endpoint.session.as_str(),
                        state.endpoint.session.as_str(),
                    ) {
                        state.snapshot = duplicate_option(&previous.snapshot);
                        if state.cursor.is_none() {
                            state.cursor = previous.cursor;
                        }
                    }
                }
            }
            assert(all[i as int] == listed@[i as int]@);
            assert(state@ =~= remembered(all[i as int], self.overlay@));
            overlay.insert(state);
            assert(all.take(i + 1).drop_last() =~= all.take(i as int));
            assert(all.take(i + 1).last() == all[i as int]);
            i += 1;
        }
        assert(all.take(i as int) =~= all);
        self.overlay = overlay;
        self.overlay_active = true;
    }

    /// What is shown of an endpoint.
    pub fn federation_state(&self, id: &str) -> (r: Option<&EndpointState>)
        requires
            self.wf(),
        ensures
            match r {
                Some(state) => self.shown()@.dom().contains(id@) && self.shown()@[id@] == state@,
                None => !self.shown()@.dom().contains(id@),
            },
    {
        if self.overlay_active {
            self.overlay.get(id)
        } else {
            self.watched.get(id)
        }
    }

    /// What is shown, in the order of the ids, but for the member itself.
    pub fn federation_states(&self, member_id: &str) -> (r: Vec<EndpointState>)
        requires
            self.wf(),
        ensures
            endpoints(r@) == endpoints(others(self.shown().states@, member_id@)),
    {
        let states = if self.overlay_active {
            &self.overlay.states
        } else {
            &self.watched.states
        };
        let mut out: Vec<EndpointState> = Vec::new();
        let mut i: usize = 0;
        let ghost all = states@;
        let ghost keep = |s: EndpointState| s.endpoint.id@ != member_id@;
        assert(all.take(0) =~= Seq::<EndpointState>::empty());
        assert(endpoints(Seq::<EndpointState>::empty()) =~= Seq::<Endpoint>::empty());
        proof {
            reveal(Seq::filter);
            assert(all.take(0).filter(keep) =~= Seq::<EndpointState>::empty());
        }
        assert(endpoints(out@) =~= endpoints(all.take(0).filter(keep)));
        while i < states.len()
            invariant
                all == states@,
                i <= all.len(),
                keep == (|s: EndpointState| s.endpoint.id@ != member_id@),
                endpoints(out@) == endpoints(all.take(i as int).filter(keep)),
            decreases all.len() - i,
        {
            let ghost before = endpoints(out@);
            let ghost kept = all.take(i as int).filter(keep);
            proof {
                reveal(Seq::filter);
                assert(all.take(i + 1).drop_last() =~= all.take(i as int));
                assert(all.take(i + 1).last() == all[i as int]);
            }
            if !same_text(states[i].endpoint.id.as_str(), member_id) {
                out.push(states[i].duplicate());
                assert(endpoints(out@) =~= before.push(all[i as int]@));
                assert(endpoints(kept.push(all[i as int])) =~= endpoints(kept).push(
                    all[i as int]@,
                ));
            }
            i += 1;
        }
        assert(all.take(i as int) =~= all);
        out
    }
}

pub open spec fn lists(directory: Seq<Endpoint>, id: Seq<char>) -> bool {
    exists|i: int| 0 <= i < directory.len() && #[trigger] directory[i].endpoint.id@ == id
}

/// A client's list decides alone which endpoints are shown.
pub proof fn directory_replaces_membership(
    directory: Seq<Endpoint>,
    known: Map<Seq<char>, Endpoint>,
    id: Seq<char>,
)
    ensures
        overlaid(directory, known).dom().contains(id) == lists(directory, id),
    decreases directory.len(),
{
    if directory.len() > 0 {
        let rest = directory.drop_last();
        directory_replaces_membership(rest, known, id);
        if lists(rest, id) {
            let i = choose|i: int| 0 <= i < rest.len() && #[trigger] rest[i].endpoint.id@ == id;
            assert(directory[i].endpoint.id@ == id);
        }
        if lists(directory, id) && !lists(rest, id) {
            let i = choose|i: int|
                0 <= i < directory.len() && #[trigger] directory[i].endpoint.id@ == id;
            if i < rest.len() {
                assert(rest[i].endpoint.id@ == id);
            }
        }
        if directory.last().endpoint.id@ == id {
            assert(directory[directory.len() - 1].endpoint.id@ == id);
        }
    }
}

/// Listing the same endpoints again changes nothing.
pub proof fn listing_twice_is_once(directory: Seq<Endpoint>, known: Map<Seq<char>, Endpoint>)
    ensures
        overlaid(directory, overlaid(directory, known)) == overlaid(directory, known),
{
    let once = overlaid(directory, known);
    let twice = overlaid(directory, once);
    assert forall|id: Seq<char>| #![trigger twice.dom().contains(id)] #![trigger once.dom().contains(id)]
        twice.dom().contains(id) == once.dom().contains(id) by {
        directory_replaces_membership(directory, known, id);
        directory_replaces_membership(directory, once, id);
    }
    assert forall|id: Seq<char>| #[trigger] twice.dom().contains(id) implies twice[id] == once[id] by {
        directory_replaces_membership(directory, once, id);
        lemma_last_counts(directory, known, id);
        lemma_last_counts(directory, once, id);
        let listed = directory[last_listing(directory, id)];
        assert(remembered(listed, once) =~= once[id]);
    }
    assert(twice =~= once);
}

/// The last entry with an id.
spec fn last_listing(directory: Seq<Endpoint>, id: Seq<char>) -> int
    decreases directory.len(),
{
    if directory.len() == 0 {
        -1
    } else if directory.last().endpoint.id@ == id {
        directory.len() - 1
    } else {
        last_listing(directory.drop_last(), id)
    }
}

proof fn lemma_last_counts(directory: Seq<Endpoint>, known: Map<Seq<char>, Endpoint>, id: Seq<char>)
    requires
        lists(directory, id),
    ensures
        0 <= last_listing(directory, id) < directory.len(),
        directory[last_listing(directory, id)].endpoint.id@ == id,
        overlaid(directory, known)[id] == remembered(directory[last_listing(directory, id)], known),
        overlaid(directory, known).dom().contains(id),
    decreases directory.len(),
{
    let rest = directory.drop_last();
    if directory.last().endpoint.id@ != id {
        let i = choose|i: int| 0 <= i < directory.len() && #[trigger] directory[i].endpoint.id@ == id;
        assert(rest[i].endpoint.id@ == id);
        lemma_last_counts(rest, known, id);
    }
}

/// An endpoint whose watch broke off keeps its snapshot as long as it stands for the same runtime.
pub proof fn snapshots_survive_a_lost_connection(
    directory: Seq<Endpoint>,
    known: Map<Seq<char>, Endpoint>,
    i: int,
)
    requires
        0 <= i < directory.len(),
        forall|k: int|
            0 <= k < directory.len() && k != i ==> (#[trigger] directory[k]).endpoint.id@
                != directory[i].endpoint.id@,
        directory[i].snapshot is None,
    ensures
        ({
            let id = directory[i].endpoint.id@;
            let kept = known.dom().contains(id) && same_runtime(
                known[id].endpoint,
                directory[i].endpoint,
            );
            &&& overlaid(directory, known).dom().contains(id)
            &&& overlaid(directory, known)[id].status == directory[i].status
            &&& overlaid(directory, known)[id].snapshot == (if kept {
                known[id].snapshot
            } else {
                None
            })
        }),
{
    let id = directory[i].endpoint.id@;
    assert(lists(directory, id));
    lemma_last_counts(directory, known, id);
}

pub open spec fn id_is(id: Seq<char>) -> spec_fn(Endpoint) -> bool {
    |state: Endpoint| state.endpoint.id@ == id
}

/// A list with one state more, behind the last whose id does not come later.
pub open spec fn placed(states: Seq<Endpoint>, x: Endpoint) -> Seq<Endpoint>
    decreases states.len(),
{
    if states.len() == 0 || text_le(states.last().endpoint.id@, x.endpoint.id@) {
        states.push(x)
    } else {
        placed(states.drop_last(), x).push(states.last())
    }
}

/// The states in the order of their ids; those with one id keep their order.
pub open spec fn in_id_order(states: Seq<Endpoint>) -> Seq<Endpoint>
    decreases states.len(),
{
    if states.len() == 0 {
        Seq::empty()
    } else {
        placed(in_id_order(states.drop_last()), states.last())
    }
}

fn place_by_id(out: &mut Vec<EndpointState>, state: EndpointState)
    ensures
        endpoints(final(out)@) == placed(endpoints(old(out)@), state@),
{
    let ghost before = endpoints(out@);
    let ghost x = state@;
    let mut at: usize = out.len();
    assert(before.take(at as int) =~= before);
    assert(before.skip(at as int) =~= Seq::<Endpoint>::empty());
    assert(placed(before, x) =~= placed(before.take(at as int), x) + before.skip(at as int));
    while at > 0 && !text_at_most(
        out[at - 1].endpoint.id.as_str(),
        state.endpoint.id.as_str(),
    )
        invariant
            at <= out@.len(),
            x == state@,
            before == endpoints(out@),
            placed(before, x) == placed(before.take(at as int), x) + before.skip(at as int),
        decreases at,
    {
        assert(before[at - 1] == out@[at - 1]@);
        assert(before.take(at as int).last() == before[at - 1]);
        assert(before.take(at as int).drop_last() =~= before.take(at - 1));
        assert(placed(before.take(at - 1), x).push(before[at - 1]) + before.skip(at as int)
            =~= placed(before.take(at - 1), x) + before.skip(at - 1));
        at -= 1;
    }
    proof {
        if at > 0 {
            assert(before[at - 1] == out@[at - 1]@);
            assert(before.take(at as int).last() == before[at - 1]);
        }
        assert(placed(before.take(at as int), x) == before.take(at as int).push(x));
    }
    out.insert(at, state);
    assert(endpoints(out@) =~= before.take(at as int).push(x) + before.skip(at as int));
}

/// The states in the order of their ids.
pub fn sort_states(states: &Vec<EndpointState>) -> (r: Vec<EndpointState>)
    ensures
        endpoints(r@) == in_id_order(endpoints(states@)),
{
    let mut out: Vec<EndpointState> = Vec::new();
    let mut i: usize = 0;
    let ghost all = endpoints(states@);
    assert(all.take(0) =~= Seq::<Endpoint>::empty());
    assert(endpoints(out@) =~= Seq::<Endpoint>::empty());
    while i < states.len()
        invariant
            all == endpoints(states@),
            i <= states@.len(),
            endpoints(out@) == in_id_order(all.take(i as int)),
        decreases states@.len() - i,
    {
        place_by_id(&mut out, states[i].duplicate());
        assert(all.take(i + 1).drop_last() =~= all.take(i as int));
        assert(all.take(i + 1).last() == states@[i as int]@);
        i += 1;
    }
    assert(all.take(i as int) =~= all);
    out
}

/// The ids do not fall.
pub open spec fn ids_in_order(states: Seq<Endpoint>) -> bool {
    forall|i: int, j: int|
        #![trigger states[i], states[j]]
        0 <= i < j < states.len() ==> text_le(states[i].endpoint.id@, states[j].endpoint.id@)
}

proof fn lemma_placed(states: Seq<Endpoint>, x: Endpoint, id: Seq<char>)
    requires
        ids_in_order(states),
    ensures
        ids_in_order(placed(states, x)),
        placed(states, x).len() == states.len() + 1,
        forall|i: int|
            0 <= i < placed(states, x).len() ==> #[trigger] placed(states, x)[i] == x
                || states.contains(placed(states, x)[i]),
        placed(states, x).filter(id_is(id)) == (if x.endpoint.id@ == id {
            states.filter(id_is(id)).push(x)
        } else {
            states.filter(id_is(id))
        }),
    decreases states.len(),
{
    let p = id_is(id);
    let all = placed(states, x);
    reveal(Seq::filter);
    if states.len() == 0 || text_le(states.last().endpoint.id@, x.endpoint.id@) {
        assert(all == states.push(x));
        assert(all.drop_last() =~= states);
        assert(all.last() == x);
        assert forall|i: int, j: int|
            #![trigger all[i], all[j]]
            0 <= i < j < all.len() implies text_le(all[i].endpoint.id@, all[j].endpoint.id@) by {
            if j == states.len() {
                let last = states.len() - 1;
                if i < last {
                    assert(text_le(states[i].endpoint.id@, states[last].endpoint.id@));
                }
                text_order_is_total(
                    states[i].endpoint.id@,
                    states[last].endpoint.id@,
                    x.endpoint.id@,
                );
            }
        }
        assert forall|i: int| 0 <= i < all.len() implies #[trigger] all[i] == x || states.contains(
            all[i],
        ) by {
            if i < states.len() {
                assert(all[i] == states[i]);
            }
        }
    } else {
        let rest = states.drop_last();
        let last = states.last();
        lemma_placed(rest, x, id);
        let moved = placed(rest, x);
        assert(all == moved.push(last));
        assert(all.drop_last() =~= moved);
        assert(all.last() == last);
        text_order_is_total(x.endpoint.id@, last.endpoint.id@, x.endpoint.id@);
        assert forall|i: int| 0 <= i < all.len() implies #[trigger] all[i] == x || states.contains(
            all[i],
        ) by {
            if i < moved.len() {
                assert(all[i] == moved[i]);
                if moved[i] != x {
                    let k = choose|k: int| 0 <= k < rest.len() && rest[k] == moved[i];
                    assert(states[k] == moved[i]);
                }
            } else {
                assert(states[states.len() - 1] == last);
            }
        }
        assert forall|i: int, j: int|
            #![trigger all[i], all[j]]
            0 <= i < j < all.len() implies text_le(all[i].endpoint.id@, all[j].endpoint.id@) by {
            if j == moved.len() {
                assert(all[i] == moved[i]);
                if moved[i] != x {
                    let k = choose|k: int| 0 <= k < rest.len() && rest[k] == moved[i];
                    assert(text_le(
                        states[k].endpoint.id@,
                        states[states.len() - 1].endpoint.id@,
                    ));
                }
            }
        }
        if x.endpoint.id@ == id {
            assert(last.endpoint.id@ != id);
        }
        assert(rest.filter(p).push(x).push(last) == rest.filter(p).push(x).push(last));
        if x.endpoint.id@ != id {
            assert(all.filter(p) == states.filter(p));
        }
    }
}

/// Sorting puts the ids in order and, of every id, keeps exactly the entries there were, in the
/// order in which they were.
pub proof fn sorting_is_stable(states: Seq<Endpoint>, id: Seq<char>)
    ensures
        ids_in_order(in_id_order(states)),
        in_id_order(states).len() == states.len(),
        in_id_order(states).filter(id_is(id)) == states.filter(id_is(id)),
    decreases states.len(),
{
    reveal(Seq::filter);
    if states.len() > 0 {
        sorting_is_stable(states.drop_last(), id);
        lemma_placed(in_id_order(states.drop_last()), states.last(), id);
    }
}

/// The first entry with an id, or the number of entries.
pub open spec fn first_with_id(states: Seq<Endpoint>, id: Seq<char>) -> int {
    first_hit(states, id_is(id), 0)
}

/// An entry of a new list: without a snapshot it keeps the one that was known of its id.
pub open spec fn carried(previous: Seq<Endpoint>, listed: Endpoint) -> Endpoint {
    let at = first_with_id(previous, listed.endpoint.id@);
    if listed.snapshot is None && at < previous.len() {
        Endpoint {
            snapshot: previous[at].snapshot,
            cursor: if listed.cursor is Some {
                listed.cursor
            } else {
                previous[at].cursor
            },
            ..listed
        }
    } else {
        listed
    }
}

/// The home directory after an update: exactly the listed members, in the order of their ids.
pub open spec fn merged(previous: Seq<Endpoint>, incoming: Seq<Endpoint>) -> Seq<Endpoint> {
    in_id_order(Seq::new(incoming.len(), |i: int| carried(previous, incoming[i])))
}

/// The place of an id, or the number of states.
pub fn find_state(states: &Vec<EndpointState>, id: &str) -> (r: usize)
    ensures
        r == first_with_id(endpoints(states@), id@),
        r <= states@.len(),
{
    let mut at: usize = 0;
    while at < states.len()
        invariant
            at <= states@.len(),
            first_with_id(endpoints(states@), id@) == first_hit(
                endpoints(states@),
                id_is(id@),
                at as int,
            ),
        decreases states@.len() - at,
    {
        assert(endpoints(states@)[at as int] == states@[at as int]@);
        if same_text(states[at].endpoint.id.as_str(), id) {
            return at;
        }
        at += 1;
    }
    at
}

/// Takes a new list of members into the home directory.
pub fn merge_federation_directory(directory: &mut Vec<EndpointState>, incoming: &Vec<EndpointState>)
    ensures
        endpoints(final(directory)@) == merged(endpoints(old(directory)@), endpoints(incoming@)),
{
    let mut listed: Vec<EndpointState> = Vec::new();
    let ghost previous = endpoints(directory@);
    let ghost all = endpoints(incoming@);
    let mut i: usize = 0;
    while i < incoming.len()
        invariant
            previous == endpoints(directory@),
            all == endpoints(incoming@),
            i <= incoming@.len(),
            endpoints(listed@) == Seq::new(i as nat, |k: int| carried(previous, all[k])),
        decreases incoming@.len() - i,
    {
        let mut state = incoming[i].duplicate();
        if state.snapshot.is_none() {
            let at = find_state(directory, state.endpoint.id.as_str());
            if at < directory.len() {
                assert(previous[at as int] == directory@[at as int]@);
                state.snapshot = duplicate_option(&directory[at].snapshot);
                if state.cursor.is_none() {
                    state.cursor = directory[at].cursor;
                }
            }
        }
        assert(all[i as int] == incoming@[i as int]@);
        assert(state@ =~= carried(previous, all[i as int]));
        let ghost before = endpoints(listed@);
        listed.push(state);
        assert(endpoints(listed@) =~= before.push(carried(previous, all[i as int])));
        i += 1;
        assert(endpoints(listed@) =~= Seq::new(i as nat, |k: int| carried(previous, all[k])));
    }
    *directory = sort_states(&listed);
}

/// A member that a new list leaves out is gone: it cannot be switched to any more.
pub proof fn unlisted_members_are_revoked(
    previous: Seq<Endpoint>,
    incoming: Seq<Endpoint>,
    id: Seq<char>,
)
    ensures
        (exists|i: int| 0 <= i < incoming.len() && #[trigger] incoming[i].endpoint.id@ == id)
            == (first_with_id(merged(previous, incoming), id) < merged(previous, incoming).len()),
{
    let listed = Seq::new(incoming.len(), |i: int| carried(previous, incoming[i]));
    let result = merged(previous, incoming);
    sorting_is_stable(listed, id);
    lemma_first_hit(result, id_is(id), 0);
    let kept = result.filter(id_is(id));
    let at = first_with_id(result, id);
    if at < result.len() {
        lemma_filtered(result, id, at);
        lemma_from_filter(listed, id);
        let k = choose|k: int| 0 <= k < listed.len() && #[trigger] listed[k].endpoint.id@ == id;
        assert(incoming[k].endpoint.id@ == id);
    }
    if exists|i: int| 0 <= i < incoming.len() && #[trigger] incoming[i].endpoint.id@ == id {
        let i = choose|i: int| 0 <= i < incoming.len() && #[trigger] incoming[i].endpoint.id@ == id;
        assert(listed[i].endpoint.id@ == id);
        lemma_filtered(listed, id, i);
        lemma_from_filter(result, id);
        let k = choose|k: int| 0 <= k < result.len() && #[trigger] result[k].endpoint.id@ == id;
        if at == result.len() {
            assert(!id_is(id)(result[k]));
        }
    }
}

proof fn lemma_filtered(states: Seq<Endpoint>, id: Seq<char>, at: int)
    requires
        0 <= at < states.len(),
        states[at].endpoint.id@ == id,
    ensures
        states.filter(id_is(id)).len() > 0,
    decreases states.len(),
{
    reveal(Seq::filter);
    if at < states.len() - 1 {
        lemma_filtered(states.drop_last(), id, at);
    }
}

proof fn lemma_from_filter(states: Seq<Endpoint>, id: Seq<char>)
    requires
        states.filter(id_is(id)).len() > 0,
    ensures
        exists|k: int| 0 <= k < states.len() && #[trigger] states[k].endpoint.id@ == id,
    decreases states.len(),
{
    reveal(Seq::filter);
    if states.len() > 0 {
        if states.last().endpoint.id@ == id {
            assert(states[states.len() - 1].endpoint.id@ == id);
        } else {
            let rest = states.drop_last();
            lemma_from_filter(rest, id);
            let k = choose|k: int| 0 <= k < rest.len() && #[trigger] rest[k].endpoint.id@ == id;
            assert(states[k].endpoint.id@ == id);
        }
    }
}

/// A member is listed with all that the list says of it. Without a snapshot in the list it keeps the
/// one that was known, and with it the cursor where the list gives none.
pub open spec fn stands_as_listed(shown: Endpoint, listed: Endpoint, known: Option<Endpoint>) -> bool {
    &&& shown.endpoint == listed.endpoint
    &&& shown.status == listed.status
    &&& shown.error == listed.error
    &&& listed.snapshot is Some || known is None ==> shown.snapshot == listed.snapshot
        && shown.cursor == listed.cursor
    &&& listed.snapshot is None && known is Some ==> shown.snapshot == known->0.snapshot
    &&& listed.snapshot is None && known is Some && listed.cursor is Some ==> shown.cursor
        == listed.cursor
    &&& listed.snapshot is None && known is Some && listed.cursor is None ==> shown.cursor
        == known->0.cursor
}

proof fn lemma_kept_by_filter(states: Seq<Endpoint>, keep: spec_fn(Endpoint) -> bool, i: int)
    requires
        0 <= i < states.len(),
        keep(states[i]),
    ensures
        states.filter(keep).contains(states[i]),
    decreases states.len(),
{
    reveal(Seq::filter);
    let front = states.drop_last();
    let kept = front.filter(keep);
    if i < states.len() - 1 {
        lemma_kept_by_filter(front, keep, i);
        let k = choose|k: int| 0 <= k < kept.len() && kept[k] == states[i];
        assert(states.filter(keep)[k] == states[i]);
    } else {
        assert(states.filter(keep)[kept.len() as int] == states[i]);
    }
}

/// Each member of a new list stands in the home directory as it is listed; what was known of it is
/// what the directory had first under its id.
pub proof fn members_stand_as_listed(previous: Seq<Endpoint>, incoming: Seq<Endpoint>, i: int, p: int)
    requires
        0 <= i < incoming.len(),
    ensures
        ({
            let after = merged(previous, incoming);
            let id = incoming[i].endpoint.id@;
            &&& after.len() == incoming.len()
            &&& 0 <= p < previous.len() && previous[p].endpoint.id@ == id && (forall|k: int|
                0 <= k < p ==> (#[trigger] previous[k]).endpoint.id@ != id) ==> exists|k: int|
                0 <= k < after.len() && stands_as_listed(
                    #[trigger] after[k],
                    incoming[i],
                    Some(previous[p]),
                )
            &&& (forall|k: int| 0 <= k < previous.len() ==> (#[trigger] previous[k]).endpoint.id@ != id)
                ==> exists|k: int|
                0 <= k < after.len() && stands_as_listed(#[trigger] after[k], incoming[i], None)
        }),
{
    let listed = Seq::new(incoming.len(), |i: int| carried(previous, incoming[i]));
    let after = merged(previous, incoming);
    let id = incoming[i].endpoint.id@;
    sorting_is_stable(listed, id);
    assert(listed[i].endpoint.id@ == id);
    lemma_kept_by_filter(listed, id_is(id), i);
    lemma_kept(after, id_is(id));
    assert(after.contains(listed[i]));
    let k = choose|k: int| 0 <= k < after.len() && after[k] == listed[i];
    lemma_first_hit(previous, id_is(id), 0);
    let hit = first_with_id(previous, id);
    if 0 <= p < previous.len() && previous[p].endpoint.id@ == id && (forall|k: int|
        0 <= k < p ==> (#[trigger] previous[k]).endpoint.id@ != id) {
        if p < hit {
            assert(!id_is(id)(previous[p]));
        }
        if hit < p {
            assert(previous[hit].endpoint.id@ == id);
        }
        assert(stands_as_listed(after[k], incoming[i], Some(previous[p])));
    }
    if forall|k: int| 0 <= k < previous.len() ==> (#[trigger] previous[k]).endpoint.id@ != id {
        if hit < previous.len() {
            assert(previous[hit].endpoint.id@ == id);
        }
        assert(stands_as_listed(after[k], incoming[i], None));
    }
}

/// Each member of a client's list that is listed once is shown as it is listed; what was known of it
/// is what the last list had of the same target and session.
pub proof fn overlays_stand_as_listed(
    directory: Seq<Endpoint>,
    known: Map<Seq<char>, Endpoint>,
    i: int,
)
    requires
        0 <= i < directory.len(),
        forall|k: int|
            0 <= k < directory.len() && k != i ==> (#[trigger] directory[k]).endpoint.id@
                != directory[i].endpoint.id@,
    ensures
        ({
            let id = directory[i].endpoint.id@;
            let same = known.dom().contains(id) && known[id].endpoint.target@
                == directory[i].endpoint.target@ && known[id].endpoint.session@
                == directory[i].endpoint.session@;
            &&& overlaid(directory, known).dom().contains(id)
            &&& stands_as_listed(
                overlaid(directory, known)[id],
                directory[i],
                if same {
                    Some(known[id])
                } else {
                    None
                },
            )
        }),
{
    let id = directory[i].endpoint.id@;
    assert(lists(directory, id));
    lemma_last_counts(directory, known, id);
    let last = last_listing(directory, id);
    if last != i {
        assert(directory[last].endpoint.id@ != id);
    }
}

} // verus!
