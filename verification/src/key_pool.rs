//! Key pools: groups of providers that share the requests of one of them.
//!
//! A pool remembers where the next rotation starts and which members failed lately. Members
//! are known by their ids; moments are milliseconds of a clock that never goes back.

use vstd::multiset::Multiset;
use vstd::prelude::*;
use vstd::seq_lib::*;
use vstd::string::*;
use crate::provider::{providers_view, Provider, ProviderView};
use crate::text::{
    comes_before, join, lemma_text_less_irreflexive, lemma_text_less_total,
    lemma_text_less_transitive, same_text, text_less, texts_view,
};
use crate::text_map::TextMap;

verus! {

/// Where the members of a pool are tried from.
#[derive(Debug, Clone, Copy, PartialEq, Eq, Structural)]
pub enum KeyPoolStrategy {
    /// Always from the first member.
    Failover,
    /// From one member further with each request.
    RoundRobin,
}

/// A group of providers.
#[derive(Debug)]
pub struct ProviderGroup {
    pub id: String,
    pub app_type: String,
    pub key_pool_enabled: bool,
    pub key_pool_strategy: KeyPoolStrategy,
    pub key_pool_max_retries: u32,
    pub key_pool_cooldown_ms: u64,
}

/// What a pool remembers of a member.
#[derive(Debug, Clone, Copy, PartialEq, Eq, Structural)]
pub struct KeyPoolMember {
    pub cooldown_until: Option<u64>,
    pub consecutive_failures: u32,
    pub last_failure_at: Option<i64>,
    pub early_probe: bool,
}

impl KeyPoolMember {
    /// A member nothing is remembered of.
    pub open spec fn fresh() -> KeyPoolMember {
        KeyPoolMember {
            cooldown_until: None,
            consecutive_failures: 0,
            last_failure_at: None,
            early_probe: false,
        }
    }

    /// A member nothing is remembered of.
    pub fn new() -> (member: KeyPoolMember)
        ensures
            member == KeyPoolMember::fresh(),
    {
        KeyPoolMember {
            cooldown_until: None,
            consecutive_failures: 0,
            last_failure_at: None,
            early_probe: false,
        }
    }
}

/// What is remembered of a pool.
#[derive(Debug)]
pub struct KeyPoolRuntime {
    pub next_index: usize,
    pub members: TextMap<KeyPoolMember>,
}

/// A pool's memory as a mathematical value.
pub struct KeyPoolRuntimeView {
    pub next_index: usize,
    pub members: Map<Seq<char>, KeyPoolMember>,
}

impl View for KeyPoolRuntime {
    type V = KeyPoolRuntimeView;

    open spec fn view(&self) -> KeyPoolRuntimeView {
        KeyPoolRuntimeView { next_index: self.next_index, members: self.members@ }
    }
}

/// A pool nothing is remembered of.
pub open spec fn empty_runtime() -> KeyPoolRuntimeView {
    KeyPoolRuntimeView { next_index: 0, members: Map::empty() }
}

/// The place a provider is given in its group; last where it has none.
pub open spec fn group_place(provider: ProviderView) -> usize {
    match provider.meta {
        Some(meta) => match meta.provider_group_sort_index {
            Some(index) => index,
            None => usize::MAX,
        },
        None => usize::MAX,
    }
}

/// The place a provider is given in the list; last where it has none.
pub open spec fn list_place(provider: ProviderView) -> usize {
    match provider.sort_index {
        Some(index) => index,
        None => usize::MAX,
    }
}

/// Whether a member of a pool is tried before another: by the place in the group, then by the
/// place in the list, then by the id.
pub open spec fn tried_before(a: ProviderView, b: ProviderView) -> bool {
    if group_place(a) != group_place(b) {
        group_place(a) < group_place(b)
    } else if list_place(a) != list_place(b) {
        list_place(a) < list_place(b)
    } else {
        text_less(a.id, b.id)
    }
}

proof fn lemma_tried_before_transitive(a: ProviderView, b: ProviderView, c: ProviderView)
    requires
        tried_before(a, b),
        tried_before(b, c),
    ensures
        tried_before(a, c),
{
    if group_place(a) == group_place(b) && group_place(b) == group_place(c) && list_place(a)
        == list_place(b) && list_place(b) == list_place(c) {
        lemma_text_less_transitive(a.id, b.id, c.id);
    }
}

/// The order of the members is strict and total: of two with different ids one comes first.
pub proof fn members_are_strictly_ordered(a: ProviderView, b: ProviderView)
    ensures
        !(tried_before(a, b) && tried_before(b, a)),
        a.id != b.id ==> tried_before(a, b) || tried_before(b, a),
{
    lemma_text_less_total(a.id, b.id);
    if tried_before(a, b) && tried_before(b, a) {
        lemma_text_less_transitive(a.id, b.id, a.id);
        lemma_text_less_irreflexive(a.id);
    }
}

fn is_tried_before(a: &Provider, b: &Provider) -> (before: bool)
    ensures
        before == tried_before(a@, b@),
{
    let a_group: usize = match &a.meta {
        Some(meta) => match meta.provider_group_sort_index {
            Some(index) => index,
            None => usize::MAX,
        },
        None => usize::MAX,
    };
    let b_group: usize = match &b.meta {
        Some(meta) => match meta.provider_group_sort_index {
            Some(index) => index,
            None => usize::MAX,
        },
        None => usize::MAX,
    };
    if a_group != b_group {
        return a_group < b_group;
    }
    let a_list: usize = match a.sort_index {
        Some(index) => index,
        None => usize::MAX,
    };
    let b_list: usize = match b.sort_index {
        Some(index) => index,
        None => usize::MAX,
    };
    if a_list != b_list {
        return a_list < b_list;
    }
    comes_before(a.id.as_str(), b.id.as_str())
}

/// Whether a list of members stands in the order they are tried in.
pub open spec fn in_order(members: Seq<ProviderView>) -> bool {
    forall|i: int, j: int|
        0 <= i < j < members.len() ==> !tried_before(#[trigger] members[j], #[trigger] members[i])
}

/// Puts the members of a pool in the order they are tried in.
pub fn order_key_pool_members(members: Vec<Provider>) -> (ordered: Vec<Provider>)
    ensures
        providers_view(ordered@).to_multiset() == providers_view(members@).to_multiset(),
        in_order(providers_view(ordered@)),
        ordered@.len() == members@.len(),
{
    broadcast use group_to_multiset_ensures;

    let mut rest = members;
    let mut ordered: Vec<Provider> = Vec::new();
    let ghost all = providers_view(members@).to_multiset();
    assert(providers_view(ordered@) =~= Seq::<ProviderView>::empty());
    assert(providers_view(ordered@).to_multiset() =~= Multiset::<ProviderView>::empty());
    while rest.len() > 0
        invariant
            all == providers_view(ordered@).to_multiset().add(providers_view(rest@).to_multiset()),
            in_order(providers_view(ordered@)),
            ordered@.len() + rest@.len() == members@.len(),
            forall|i: int, j: int|
                0 <= i < ordered@.len() && 0 <= j < rest@.len() ==> !tried_before(
                    (#[trigger] rest@[j])@,
                    (#[trigger] ordered@[i])@,
                ),
        decreases rest@.len(),
    {
        let mut best: usize = 0;
        let mut i: usize = 1;
        proof {
            members_are_strictly_ordered(rest@[0]@, rest@[0]@);
        }
        while i < rest.len()
            invariant
                best < i <= rest@.len(),
                forall|k: int| 0 <= k < i ==> !tried_before((#[trigger] rest@[k])@, rest@[best as int]@),
            decreases rest@.len() - i,
        {
            if is_tried_before(&rest[i], &rest[best]) {
                proof {
                    let old_best = rest@[best as int]@;
                    assert forall|k: int| 0 <= k < i + 1 implies !tried_before(
                        (#[trigger] rest@[k])@,
                        rest@[i as int]@,
                    ) by {
                        if tried_before(rest@[k]@, rest@[i as int]@) {
                            lemma_tried_before_transitive(rest@[k]@, rest@[i as int]@, old_best);
                            members_are_strictly_ordered(rest@[i as int]@, rest@[i as int]@);
                        }
                    }
                }
                best = i;
            }
            i = i + 1;
        }
        let ghost rest_before = providers_view(rest@);
        let ghost ordered_before = providers_view(ordered@);
        let ghost old_rest = rest@;
        let next = rest.remove(best);
        assert(providers_view(rest@) =~= rest_before.remove(best as int));
        assert forall|j: int| 0 <= j < rest@.len() implies !tried_before(
            (#[trigger] rest@[j])@,
            next@,
        ) by {
            if j < best {
                assert(rest@[j] == old_rest[j]);
            } else {
                assert(rest@[j] == old_rest[j + 1]);
            }
        }
        assert forall|i: int, j: int|
            0 <= i < ordered@.len() && 0 <= j < rest@.len() implies !tried_before(
            (#[trigger] rest@[j])@,
            (#[trigger] ordered@[i])@,
        ) by {
            if j < best {
                assert(rest@[j] == old_rest[j]);
            } else {
                assert(rest@[j] == old_rest[j + 1]);
            }
        }
        assert forall|i: int| 0 <= i < ordered@.len() implies !tried_before(
            next@,
            (#[trigger] ordered@[i])@,
        ) by {
            assert(old_rest[best as int] == next);
        }
        ordered.push(next);
        assert(providers_view(ordered@) =~= ordered_before.push(next@));
        proof {
            rest_before.to_multiset_ensures();
            ordered_before.to_multiset_ensures();
            assert(rest_before[best as int] == next@);
        }
        assert(rest_before.to_multiset().count(next@) > 0);
        assert(all =~= providers_view(ordered@).to_multiset().add(
            providers_view(rest@).to_multiset(),
        ));
        assert(in_order(providers_view(ordered@))) by {
            assert forall|i: int, j: int|
                0 <= i < j < providers_view(ordered@).len() implies !tried_before(
                #[trigger] providers_view(ordered@)[j],
                #[trigger] providers_view(ordered@)[i],
            ) by {
                if j == ordered_before.len() {
                    assert(providers_view(ordered@)[i] == ordered@[i]@);
                } else {
                    assert(providers_view(ordered@)[j] == ordered_before[j]);
                    assert(providers_view(ordered@)[i] == ordered_before[i]);
                }
            }
        }
    }
    assert(providers_view(rest@) =~= Seq::<ProviderView>::empty());
    assert(providers_view(ordered@).to_multiset() =~= all);
    ordered
}

/// The place in the list, `offset` places on from `start`, going round at the end.
pub open spec fn rotated(start: nat, offset: nat, count: nat) -> nat
    recommends
        count > 0,
{
    (start + offset) % count
}

/// The member a pool is tried from.
pub open spec fn start_index(strategy: KeyPoolStrategy, next_index: usize, count: nat) -> nat
    recommends
        count > 0,
{
    match strategy {
        KeyPoolStrategy::Failover => 0,
        KeyPoolStrategy::RoundRobin => next_index as nat % count,
    }
}

/// Whether a member cools down after a failure.
pub open spec fn cooling(known: Map<Seq<char>, KeyPoolMember>, id: Seq<char>, now: u64) -> bool {
    known.dom().contains(id) && (known[id].cooldown_until matches Some(until) && until > now)
}

/// The places of the members that do not cool down, among the first `count` from `start` on.
pub open spec fn ready_places(
    members: Seq<ProviderView>,
    known: Map<Seq<char>, KeyPoolMember>,
    start: nat,
    now: u64,
    count: nat,
) -> Seq<nat>
    decreases count,
{
    if count == 0 {
        Seq::empty()
    } else {
        let before = ready_places(members, known, start, now, (count - 1) as nat);
        let place = rotated(start, (count - 1) as nat, members.len());
        if cooling(known, members[place as int].id, now) {
            before
        } else {
            before.push(place)
        }
    }
}

/// Whether the member at a place is the first of those whose cooldown ends soonest.
pub open spec fn soonest(
    members: Seq<ProviderView>,
    known: Map<Seq<char>, KeyPoolMember>,
    place: nat,
) -> bool {
    &&& place < members.len()
    &&& cooldown_end(members, known, place as int) matches Some(end)
    &&& forall|other: int|
        0 <= other < members.len() ==> (#[trigger] cooldown_end(
            members,
            known,
            other,
        ) matches Some(other_end) ==> end <= other_end && (other < place ==> end < other_end))
}

/// The moment the cooldown of the member at a place ends.
pub open spec fn cooldown_end(
    members: Seq<ProviderView>,
    known: Map<Seq<char>, KeyPoolMember>,
    place: int,
) -> Option<u64> {
    let id = members[place].id;
    if known.dom().contains(id) {
        known[id].cooldown_until
    } else {
        None
    }
}

/// The first place of a member with that id.
pub open spec fn first_place(members: Seq<ProviderView>, id: Seq<char>) -> nat
    decreases members.len(),
{
    if members.len() == 0 || members[0].id == id {
        0
    } else {
        1 + first_place(members.skip(1), id)
    }
}

/// The providers at a list of places.
pub open spec fn at_places(members: Seq<ProviderView>, places: Seq<nat>) -> Seq<ProviderView> {
    places.map_values(|place: nat| members[place as int])
}

/// The memory of a pool without members that are not in it any more.
pub open spec fn pruned(runtime: KeyPoolRuntimeView, members: Seq<ProviderView>) -> Map<
    Seq<char>,
    KeyPoolMember,
> {
    runtime.members.restrict(
        Set::new(|id: Seq<char>| exists|i: int| 0 <= i < members.len() && #[trigger] members[i].id == id),
    )
}

/// What a selection does: `selected` is handed out, and the memory of the pool goes from
/// `before` to `after`. The members that do not cool down are handed out in turn, from the one
/// the strategy starts with; where all cool down, the one that is ready soonest is probed early
/// and alone. The next rotation starts behind the first one handed out. A pool without members
/// has none to hand out, and its rotation stays where it is.
pub open spec fn selection(
    members: Seq<ProviderView>,
    strategy: KeyPoolStrategy,
    now: u64,
    before: KeyPoolRuntimeView,
    selected: Seq<ProviderView>,
    after: KeyPoolRuntimeView,
) -> bool {
    let known = pruned(before, members);
    let start = start_index(strategy, before.next_index, members.len());
    let ready = ready_places(members, known, start, now, members.len());
    if members.len() == 0 {
        &&& selected.len() == 0
        &&& after.next_index == before.next_index
        &&& after.members == known
    } else {
        &&& selected.len() > 0
        &&& after.next_index == (first_place(members, selected[0].id) + 1) as nat % members.len()
        &&& if ready.len() > 0 {
            &&& selected == at_places(members, ready)
            &&& after.members == known
        } else {
            exists|place: nat|
                {
                    let id = members[place as int].id;
                    &&& #[trigger] soonest(members, known, place)
                    &&& selected == seq![members[place as int]]
                    &&& after.members == known.insert(
                        id,
                        KeyPoolMember { cooldown_until: None, early_probe: true, ..known[id] },
                    )
                }
        }
    }
}

fn member_ids(members: &Vec<Provider>) -> (ids: Vec<String>)
    ensures
        texts_view(ids@) == providers_view(members@).map_values(|member: ProviderView| member.id),
{
    let mut ids: Vec<String> = Vec::new();
    let mut i: usize = 0;
    while i < members.len()
        invariant
            i <= members@.len(),
            ids@.len() == i,
            forall|k: int| 0 <= k < i ==> (#[trigger] ids@[k])@ == members@[k].id@,
        decreases members@.len() - i,
    {
        ids.push(members[i].id.clone());
        i = i + 1;
    }
    assert(texts_view(ids@) =~= providers_view(members@).map_values(
        |member: ProviderView| member.id,
    ));
    ids
}

fn position_of(members: &Vec<Provider>, id: &str) -> (place: usize)
    requires
        exists|k: int| 0 <= k < members@.len() && (#[trigger] members@[k]).id@ == id@,
    ensures
        place == first_place(providers_view(members@), id@),
        place < members@.len(),
{
    let ghost views = providers_view(members@);
    let mut i: usize = 0;
    assert(views.skip(0) =~= views);
    let ghost witness = choose|k: int| 0 <= k < members@.len() && (#[trigger] members@[k]).id@ == id@;
    while i < members.len()
        invariant
            i <= members@.len(),
            views == providers_view(members@),
            first_place(views, id@) == i + first_place(views.skip(i as int), id@),
            0 <= witness < members@.len(),
            members@[witness].id@ == id@,
            forall|k: int| 0 <= k < i ==> (#[trigger] members@[k]).id@ != id@,
        decreases members@.len() - i,
    {
        assert(views.skip(i as int)[0] == members@[i as int]@);
        if same_text(members[i].id.as_str(), id) {
            return i;
        }
        assert(views.skip(i as int).skip(1) =~= views.skip(i + 1));
        i = i + 1;
    }
    assert(members@[witness].id@ != id@);
    i
}

impl KeyPoolRuntime {
    /// A pool nothing is remembered of.
    pub fn new() -> (runtime: KeyPoolRuntime)
        ensures
            runtime@ == empty_runtime(),
    {
        KeyPoolRuntime { next_index: 0, members: TextMap::new() }
    }

    fn is_cooling(&self, id: &str, now: u64) -> (is: bool)
        ensures
            is == cooling(self@.members, id@, now),
    {
        match self.members.get(id) {
            Some(member) => match member.cooldown_until {
                Some(until) => until > now,
                None => false,
            },
            None => false,
        }
    }

    fn cooldown_of(&self, id: &str) -> (end: Option<u64>)
        ensures
            end == (if self@.members.dom().contains(id@) {
                self@.members[id@].cooldown_until
            } else {
                None
            }),
    {
        match self.members.get(id) {
            Some(member) => member.cooldown_until,
            None => None,
        }
    }

    /// Chooses the members a request is tried with. Only a pool with members has a rotation.
    pub fn select_key_pool_members(
        &mut self,
        members: &Vec<Provider>,
        strategy: KeyPoolStrategy,
        now: u64,
    ) -> (selected: Vec<Provider>)
        requires
            strategy is RoundRobin ==> members@.len() > 0,
        ensures
            selection(
                providers_view(members@),
                strategy,
                now,
                old(self)@,
                providers_view(selected@),
                final(self)@,
            ),
    {
        let ghost views = providers_view(members@);
        let ghost before = self@;
        let count: usize = members.len();
        let ids = member_ids(members);
        self.members.keep_only(&ids);
        let ghost known = pruned(before, views);
        proof {
            assert(Set::new(|key: Seq<char>| texts_view(ids@).contains(key)) =~= Set::new(
                |id: Seq<char>| exists|i: int| 0 <= i < views.len() && #[trigger] views[i].id == id,
            )) by {
                assert forall|id: Seq<char>| texts_view(ids@).contains(id) == exists|i: int|
                    0 <= i < views.len() && #[trigger] views[i].id == id by {
                    if texts_view(ids@).contains(id) {
                        let k = choose|k: int|
                            0 <= k < texts_view(ids@).len() && texts_view(ids@)[k] == id;
                        assert(views[k].id == id);
                    }
                    if exists|i: int| 0 <= i < views.len() && #[trigger] views[i].id == id {
                        let k = choose|i: int| 0 <= i < views.len() && #[trigger] views[i].id == id;
                        assert(texts_view(ids@)[k] == id);
                    }
                }
            }
            assert(self@.members == known);
        }
        if count == 0 {
            return Vec::new();
        }
        let start: usize = match strategy {
            KeyPoolStrategy::Failover => 0,
            KeyPoolStrategy::RoundRobin => self.next_index % count,
        };
        let mut selected: Vec<Provider> = Vec::new();
        let mut offset: usize = 0;
        assert(providers_view(selected@) =~= at_places(views, Seq::empty()));
        while offset < count
            invariant
                count == members@.len(),
                start < count,
                offset <= count,
                views == providers_view(members@),
                self@.members == known,
                self@.next_index == before.next_index,
                providers_view(selected@) == at_places(
                    views,
                    ready_places(views, known, start as nat, now, offset as nat),
                ),
            decreases count - offset,
        {
            let index: usize = if offset < count - start {
                start + offset
            } else {
                offset - (count - start)
            };
            proof {
                assert(index == rotated(start as nat, offset as nat, count as nat)) by (nonlinear_arith)
                    requires
                        index == start + offset || index == start + offset - count,
                        0 <= index < count,
                        0 < count,
                        rotated(start as nat, offset as nat, count as nat) == (start + offset) as int % count as int,
                {
                    if index == start + offset {
                        vstd::arithmetic::div_mod::lemma_small_mod(index as nat, count as nat);
                    } else {
                        vstd::arithmetic::div_mod::lemma_mod_add_multiples_vanish(index as int, count as int);
                        vstd::arithmetic::div_mod::lemma_small_mod(index as nat, count as nat);
                    }
                }
            }
            let ghost places = ready_places(views, known, start as nat, now, offset as nat);
            if !self.is_cooling(members[index].id.as_str(), now) {
                let ghost handed = providers_view(selected@);
                selected.push(members[index].copy());
                assert(providers_view(selected@) =~= handed.push(views[index as int]));
                assert(at_places(views, places.push(index as nat)) =~= at_places(
                    views,
                    places,
                ).push(views[index as int]));
            }
            offset = offset + 1;
        }
        let ghost ready = ready_places(views, known, start as nat, now, count as nat);
        if selected.len() == 0 {
            assert(ready.len() == 0);
            proof {
                lemma_all_cooling(views, known, start as nat, now);
            }
            let mut place: usize = 0;
            let mut end: u64 = match self.cooldown_of(members[0].id.as_str()) {
                Some(end) => end,
                None => 0,
            };
            assert(views[0] == members@[0]@);
            let mut i: usize = 1;
            while i < count
                invariant
                    count == members@.len(),
                    place < i <= count,
                    views == providers_view(members@),
                    self@.members == known,
                    self@.next_index == before.next_index,
                    forall|k: int|
                        0 <= k < views.len() ==> cooling(known, (#[trigger] views[k]).id, now),
                    cooldown_end(views, known, place as int) == Some(end),
                    forall|k: int|
                        0 <= k < i ==> (#[trigger] cooldown_end(views, known, k) matches Some(other)
                            && end <= other && (k < place ==> end < other)),
                decreases count - i,
            {
                assert(views[i as int] == members@[i as int]@);
                assert(cooling(known, views[i as int].id, now));
                let other: u64 = match self.cooldown_of(members[i].id.as_str()) {
                    Some(other) => other,
                    None => 0,
                };
                assert(cooldown_end(views, known, i as int) == Some(other));
                if other < end {
                    place = i;
                    end = other;
                }
                i = i + 1;
            }
            assert(soonest(views, known, place as nat));
            assert(views[place as int] == members@[place as int]@);
            assert(cooling(known, views[place as int].id, now));
            let member = match self.members.get(members[place].id.as_str()) {
                Some(member) => *member,
                None => KeyPoolMember::new(),
            };
            let probed = KeyPoolMember {
                cooldown_until: None,
                consecutive_failures: member.consecutive_failures,
                last_failure_at: member.last_failure_at,
                early_probe: true,
            };
            self.members.insert(members[place].id.as_str(), probed);
            selected.push(members[place].copy());
            assert(providers_view(selected@) =~= seq![views[place as int]]);
            assert(self@.members == known.insert(
                views[place as int].id,
                KeyPoolMember {
                    cooldown_until: None,
                    early_probe: true,
                    ..known[views[place as int].id]
                },
            ));
        } else {
            assert(ready.len() > 0);
        }
        proof {
            let first = selected@[0]@;
            assert(providers_view(selected@)[0] == first);
            if ready.len() > 0 {
                lemma_ready_in_range(views, known, start as nat, now, count as nat);
                assert(first == views[ready[0] as int]);
                assert(members@[ready[0] as int].id@ == selected@[0].id@);
            } else {
                let place = choose|place: nat| #[trigger] soonest(views, known, place) && providers_view(selected@) == seq![views[place as int]];
                assert(members@[place as int].id@ == selected@[0].id@);
            }
        }
        let position = position_of(members, selected[0].id.as_str());
        self.next_index = (position + 1) % count;
        selected
    }
}

proof fn lemma_ready_in_range(
    members: Seq<ProviderView>,
    known: Map<Seq<char>, KeyPoolMember>,
    start: nat,
    now: u64,
    count: nat,
)
    requires
        members.len() > 0,
    ensures
        ({
            let ready = ready_places(members, known, start, now, count);
            &&& ready.len() <= count
            &&& forall|k: int|
                0 <= k < ready.len() ==> (#[trigger] ready[k]) < members.len() && !cooling(
                    known,
                    members[ready[k] as int].id,
                    now,
                )
        }),
    decreases count,
{
    if count > 0 {
        lemma_ready_in_range(members, known, start, now, (count - 1) as nat);
        vstd::arithmetic::div_mod::lemma_mod_bound(
            (start + (count - 1)) as int,
            members.len() as int,
        );
    }
}

proof fn lemma_empty_ready_prefix(
    members: Seq<ProviderView>,
    known: Map<Seq<char>, KeyPoolMember>,
    start: nat,
    now: u64,
    count: nat,
    offset: nat,
)
    requires
        members.len() > 0,
        ready_places(members, known, start, now, count).len() == 0,
        offset < count,
    ensures
        cooling(known, members[rotated(start, offset, members.len()) as int].id, now),
    decreases count,
{
    if offset < count - 1 {
        lemma_empty_ready_prefix(members, known, start, now, (count - 1) as nat, offset);
    }
}

/// Where no member is ready, every member cools down.
pub proof fn lemma_all_cooling(
    members: Seq<ProviderView>,
    known: Map<Seq<char>, KeyPoolMember>,
    start: nat,
    now: u64,
)
    requires
        members.len() > 0,
        start < members.len(),
        ready_places(members, known, start, now, members.len()).len() == 0,
    ensures
        forall|k: int| 0 <= k < members.len() ==> cooling(known, (#[trigger] members[k]).id, now),
{
    assert forall|k: int| 0 <= k < members.len() implies cooling(
        known,
        (#[trigger] members[k]).id,
        now,
    ) by {
        let n = members.len() as int;
        let offset = if k >= start {
            (k - start) as nat
        } else {
            (k + n - start) as nat
        };
        lemma_empty_ready_prefix(members, known, start, now, members.len(), offset);
        if k >= start {
            vstd::arithmetic::div_mod::lemma_small_mod(k as nat, n as nat);
        } else {
            vstd::arithmetic::div_mod::lemma_mod_add_multiples_vanish(k, n);
            vstd::arithmetic::div_mod::lemma_small_mod(k as nat, n as nat);
        }
    }
}

/// A selection hands out members only, at least one of them, and one that cools down only where
/// all do; it remembers nothing of providers that are no members.
pub proof fn selection_stays_in_the_pool(
    members: Seq<ProviderView>,
    strategy: KeyPoolStrategy,
    now: u64,
    before: KeyPoolRuntimeView,
    selected: Seq<ProviderView>,
    after: KeyPoolRuntimeView,
)
    requires
        members.len() > 0,
        selection(members, strategy, now, before, selected, after),
    ensures
        selected.len() > 0,
        forall|i: int| 0 <= i < selected.len() ==> members.contains(#[trigger] selected[i]),
        forall|i: int|
            0 <= i < selected.len() && cooling(
                pruned(before, members),
                (#[trigger] selected[i]).id,
                now,
            ) ==> selected.len() == 1 && forall|k: int|
                0 <= k < members.len() ==> cooling(
                    pruned(before, members),
                    (#[trigger] members[k]).id,
                    now,
                ),
        forall|id: Seq<char>|
            #[trigger] after.members.dom().contains(id) ==> exists|i: int|
                0 <= i < members.len() && #[trigger] members[i].id == id,
{
    let known = pruned(before, members);
    let start = start_index(strategy, before.next_index, members.len());
    vstd::arithmetic::div_mod::lemma_mod_bound(before.next_index as int, members.len() as int);
    lemma_ready_in_range(members, known, start, now, members.len());
    let ready = ready_places(members, known, start, now, members.len());
    if ready.len() > 0 {
        assert forall|i: int| 0 <= i < selected.len() implies members.contains(
            #[trigger] selected[i],
        ) && !cooling(known, selected[i].id, now) by {
            assert(selected[i] == members[ready[i] as int]);
        }
    } else {
        lemma_all_cooling(members, known, start, now);
        let place = choose|place: nat|
            #[trigger] soonest(members, known, place) && selected == seq![members[place as int]]
                && after.members == known.insert(
                members[place as int].id,
                KeyPoolMember {
                    cooldown_until: None,
                    early_probe: true,
                    ..known[members[place as int].id]
                },
            );
        assert(members[place as int].id == members[place as int].id);
        assert forall|id: Seq<char>| #[trigger]
            after.members.dom().contains(id) implies exists|i: int|
            0 <= i < members.len() && #[trigger] members[i].id == id by {
            if id != members[place as int].id {
                assert(known.dom().contains(id));
            }
        }
    }
}

proof fn lemma_first_place(members: Seq<ProviderView>, place: int)
    requires
        0 <= place < members.len(),
        forall|i: int, j: int|
            0 <= i < j < members.len() ==> (#[trigger] members[i]).id != (#[trigger] members[j]).id,
    ensures
        first_place(members, members[place].id) == place,
    decreases members.len(),
{
    if place > 0 {
        let rest = members.skip(1);
        assert(members[0].id != members[place].id);
        assert forall|i: int, j: int| 0 <= i < j < rest.len() implies (#[trigger] rest[i]).id != (
        #[trigger] rest[j]).id by {
            assert(rest[i] == members[i + 1]);
            assert(rest[j] == members[j + 1]);
        }
        assert(rest[place - 1] == members[place]);
        lemma_first_place(rest, place - 1);
    }
}

proof fn lemma_all_ready(
    members: Seq<ProviderView>,
    known: Map<Seq<char>, KeyPoolMember>,
    start: nat,
    now: u64,
    count: nat,
)
    requires
        members.len() > 0,
        forall|k: int| 0 <= k < members.len() ==> !cooling(known, (#[trigger] members[k]).id, now),
    ensures
        ready_places(members, known, start, now, count) == Seq::new(
            count,
            |offset: int| rotated(start, offset as nat, members.len()),
        ),
    decreases count,
{
    if count > 0 {
        lemma_all_ready(members, known, start, now, (count - 1) as nat);
        vstd::arithmetic::div_mod::lemma_mod_bound(
            (start + (count - 1)) as int,
            members.len() as int,
        );
        assert(!cooling(
            known,
            members[rotated(start, (count - 1) as nat, members.len()) as int].id,
            now,
        ));
    }
    assert(ready_places(members, known, start, now, count) =~= Seq::new(
        count,
        |offset: int| rotated(start, offset as nat, members.len()),
    ));
}

/// While no member cools down, rotation hands out every member, beginning with the one it has
/// come to, and the next rotation begins one member further.
pub proof fn rotation_moves_on_by_one(
    members: Seq<ProviderView>,
    now: u64,
    before: KeyPoolRuntimeView,
    selected: Seq<ProviderView>,
    after: KeyPoolRuntimeView,
)
    requires
        members.len() > 0,
        forall|i: int, j: int|
            0 <= i < j < members.len() ==> (#[trigger] members[i]).id != (#[trigger] members[j]).id,
        forall|k: int|
            0 <= k < members.len() ==> !cooling(
                before.members,
                (#[trigger] members[k]).id,
                now,
            ),
        selection(members, KeyPoolStrategy::RoundRobin, now, before, selected, after),
    ensures
        selected.len() == members.len(),
        selected[0] == members[before.next_index as int % members.len() as int],
        after.next_index == (before.next_index as int % members.len() as int + 1)
            % members.len() as int,
{
    let known = pruned(before, members);
    let start = start_index(KeyPoolStrategy::RoundRobin, before.next_index, members.len());
    vstd::arithmetic::div_mod::lemma_mod_bound(before.next_index as int, members.len() as int);
    assert forall|k: int| 0 <= k < members.len() implies !cooling(
        known,
        (#[trigger] members[k]).id,
        now,
    ) by {
        assert(!cooling(before.members, members[k].id, now));
    }
    lemma_all_ready(members, known, start, now, members.len());
    let ready = ready_places(members, known, start, now, members.len());
    vstd::arithmetic::div_mod::lemma_small_mod(start, members.len());
    assert(ready[0] == rotated(start, 0, members.len()));
    assert(selected[0] == members[start as int]);
    lemma_first_place(members, start as int);
}

/// The memory of all pools, by app and group.
#[derive(Debug)]
pub struct KeyPools {
    pub pools: TextMap<KeyPoolRuntime>,
}

/// The key of a pool: the app, a colon, and the group.
pub open spec fn pool_key(app_type: Seq<char>, group_id: Seq<char>) -> Seq<char> {
    app_type + ":"@ + group_id
}

fn key_of(app_type: &str, group_id: &str) -> (key: String)
    ensures
        key@ == pool_key(app_type@, group_id@),
{
    let mut key = join(app_type, ":");
    key.append(group_id);
    key
}

/// The memory of one pool; empty where nothing is remembered of it.
pub open spec fn pool_of(pools: Map<Seq<char>, KeyPoolRuntime>, key: Seq<char>) -> KeyPoolRuntimeView {
    if pools.dom().contains(key) {
        pools[key]@
    } else {
        empty_runtime()
    }
}

/// What is remembered of a member after a failure.
pub open spec fn after_failure(member: KeyPoolMember, until: u64, failed_at: i64) -> KeyPoolMember {
    KeyPoolMember {
        cooldown_until: Some(until),
        consecutive_failures: if member.consecutive_failures < u32::MAX {
            (member.consecutive_failures + 1) as u32
        } else {
            u32::MAX
        },
        last_failure_at: Some(failed_at),
        early_probe: false,
    }
}

/// What is remembered of a member.
pub open spec fn member_of(runtime: KeyPoolRuntimeView, id: Seq<char>) -> KeyPoolMember {
    if runtime.members.dom().contains(id) {
        runtime.members[id]
    } else {
        KeyPoolMember::fresh()
    }
}

/// Whether the outcome of a request counts for the pool of the provider that made it. The
/// provider is known as it was when the request was made: an outcome that comes in after the
/// provider's settings or its place in the pool changed does not count.
pub open spec fn result_counts(
    provider: ProviderView,
    current: Option<ProviderView>,
    group_enabled: bool,
    group_app_type: Seq<char>,
    app_type: Seq<char>,
) -> bool {
    &&& provider.in_key_pool()
    &&& provider.group_id() is Some
    &&& current matches Some(current)
    &&& crate::json::json_equal(current.settings_config, provider.settings_config)
    &&& current.group_id() == provider.group_id()
    &&& current.in_key_pool()
    &&& group_enabled
    &&& group_app_type == app_type
}

/// The value of an optional provider.
pub open spec fn opt_provider(provider: Option<&Provider>) -> Option<ProviderView> {
    match provider {
        Some(provider) => Some(provider@),
        None => None,
    }
}

/// Remembering that a member served a request: what was remembered of it is forgotten. A pool of
/// which nothing is remembered stays so, and so do the other pools.
pub open spec fn success_recorded(
    before: Map<Seq<char>, KeyPoolRuntime>,
    key: Seq<char>,
    id: Seq<char>,
    after: Map<Seq<char>, KeyPoolRuntime>,
) -> bool {
    &&& after.remove(key) == before.remove(key)
    &&& after.dom().contains(key) == before.dom().contains(key)
    &&& before.dom().contains(key) ==> after[key]@ == (KeyPoolRuntimeView {
        members: before[key]@.members.insert(id, KeyPoolMember::fresh()),
        ..before[key]@
    })
}

/// Remembering that a member failed: it cools down until a time, and the other members and pools
/// stay as they are.
pub open spec fn failure_recorded(
    before: Map<Seq<char>, KeyPoolRuntime>,
    key: Seq<char>,
    id: Seq<char>,
    until: u64,
    failed_at: i64,
    after: Map<Seq<char>, KeyPoolRuntime>,
) -> bool {
    let runtime = pool_of(before, key);
    &&& after.remove(key) == before.remove(key)
    &&& after.dom().contains(key)
    &&& after[key]@ == (KeyPoolRuntimeView {
        members: runtime.members.insert(
            id,
            after_failure(member_of(runtime, id), until, failed_at),
        ),
        ..runtime
    })
}

/// Whether the outcome of a request counts for the pool of the provider that made it.
pub fn pool_result_counts(
    provider: &Provider,
    current: Option<&Provider>,
    group: &ProviderGroup,
    app_type: &str,
) -> (counts: bool)
    ensures
        counts == result_counts(
            provider@,
            opt_provider(current),
            group.key_pool_enabled,
            group.app_type@,
            app_type@,
        ),
{
    if !provider.in_key_pool() {
        return false;
    }
    let group_id = match &provider.meta {
        Some(meta) => match &meta.provider_group_id {
            Some(group_id) => group_id.as_str(),
            None => {
                return false;
            },
        },
        None => {
            return false;
        },
    };
    match current {
        Some(current) => current.settings_config.equal(&provider.settings_config)
            && current.in_group(group_id) && current.in_key_pool() && group.key_pool_enabled
            && same_text(group.app_type.as_str(), app_type),
        None => false,
    }
}

/// What is shown of a member of a pool.
#[derive(Debug)]
pub struct ProviderGroupMemberStatus {
    pub provider_id: String,
    pub eligible: bool,
    pub cooling_down: bool,
    pub cooldown_remaining_ms: u64,
    pub consecutive_failures: u32,
    pub last_failure_at: Option<i64>,
    pub early_probe: bool,
}

/// What is shown of a group.
#[derive(Debug)]
pub struct ProviderGroupStatus {
    pub group: ProviderGroup,
    pub proxy_running: bool,
    pub members: Vec<ProviderGroupMemberStatus>,
}

/// What is shown of a member once the memory of its pool is looked up. A member that is not
/// eligible, or of which nothing is remembered, is shown as it was.
pub open spec fn shown(
    before: ProviderGroupMemberStatus,
    runtime: KeyPoolRuntimeView,
    now: u64,
    after: ProviderGroupMemberStatus,
) -> bool {
    let id = before.provider_id@;
    if before.eligible && runtime.members.dom().contains(id) {
        let live = runtime.members[id];
        let left: u64 = match live.cooldown_until {
            Some(until) if until > now => (until - now) as u64,
            _ => 0,
        };
        &&& after.provider_id@ == id
        &&& after.eligible
        &&& after.cooldown_remaining_ms == left
        &&& after.cooling_down == (left > 0)
        &&& after.consecutive_failures == live.consecutive_failures
        &&& after.last_failure_at == live.last_failure_at
        &&& after.early_probe == live.early_probe
    } else {
        after == before
    }
}

impl KeyPools {
    /// No pool is remembered.
    pub fn new() -> (pools: KeyPools)
        ensures
            pools.pools@ == Map::<Seq<char>, KeyPoolRuntime>::empty(),
    {
        KeyPools { pools: TextMap::new() }
    }

    fn take(&mut self, key: &str) -> (runtime: KeyPoolRuntime)
        ensures
            runtime@ == pool_of(old(self).pools@, key@),
            final(self).pools@ == old(self).pools@.remove(key@),
    {
        match self.pools.remove(key) {
            Some(runtime) => runtime,
            None => KeyPoolRuntime::new(),
        }
    }

    /// Chooses the members a request is tried with. Only a pool with members has a rotation.
    pub fn select(
        &mut self,
        app_type: &str,
        group: &ProviderGroup,
        members: &Vec<Provider>,
        now: u64,
    ) -> (selected: Vec<Provider>)
        requires
            group.key_pool_strategy is RoundRobin ==> members@.len() > 0,
        ensures
            ({
                let key = pool_key(app_type@, group.id@);
                &&& selection(
                    providers_view(members@),
                    group.key_pool_strategy,
                    now,
                    pool_of(old(self).pools@, key),
                    providers_view(selected@),
                    pool_of(final(self).pools@, key),
                )
                &&& final(self).pools@.remove(key) == old(self).pools@.remove(key)
            }),
    {
        let key = key_of(app_type, group.id.as_str());
        let mut runtime = self.take(key.as_str());
        let selected = runtime.select_key_pool_members(members, group.key_pool_strategy, now);
        self.pools.insert(key.as_str(), runtime);
        assert(self.pools@.remove(key@) =~= old(self).pools@.remove(key@));
        selected
    }

    /// Remembers that a member served a request: what was remembered of it is forgotten. A pool
    /// of which nothing is remembered stays so.
    pub fn record_success(&mut self, app_type: &str, group: &ProviderGroup, provider_id: &str)
        ensures
            success_recorded(
                old(self).pools@,
                pool_key(app_type@, group.id@),
                provider_id@,
                final(self).pools@,
            ),
    {
        let key = key_of(app_type, group.id.as_str());
        match self.pools.remove(key.as_str()) {
            Some(runtime) => {
                let mut runtime = runtime;
                runtime.members.insert(provider_id, KeyPoolMember::new());
                self.pools.insert(key.as_str(), runtime);
            },
            None => {},
        }
        assert(self.pools@.remove(key@) =~= old(self).pools@.remove(key@));
    }

    /// Remembers that a member failed: it cools down from now on.
    pub fn record_failure(
        &mut self,
        app_type: &str,
        group: &ProviderGroup,
        provider_id: &str,
        now: u64,
        failed_at: i64,
    )
        requires
            now + group.key_pool_cooldown_ms <= u64::MAX,
        ensures
            failure_recorded(
                old(self).pools@,
                pool_key(app_type@, group.id@),
                provider_id@,
                (now + group.key_pool_cooldown_ms) as u64,
                failed_at,
                final(self).pools@,
            ),
    {
        let key = key_of(app_type, group.id.as_str());
        let mut runtime = self.take(key.as_str());
        let member = match runtime.members.get(provider_id) {
            Some(member) => *member,
            None => KeyPoolMember::new(),
        };
        let failed = KeyPoolMember {
            cooldown_until: Some(now + group.key_pool_cooldown_ms),
            consecutive_failures: member.consecutive_failures.saturating_add(1),
            last_failure_at: Some(failed_at),
            early_probe: false,
        };
        runtime.members.insert(provider_id, failed);
        self.pools.insert(key.as_str(), runtime);
        assert(self.pools@.remove(key@) =~= old(self).pools@.remove(key@));
    }

    /// Takes the outcome of a request into account for the pool of the provider that made it.
    /// `current` is what is stored of the provider by now, and `group` what is stored of its
    /// group. An outcome that does not count changes nothing.
    pub fn record_result(
        &mut self,
        provider: &Provider,
        current: Option<&Provider>,
        group: Option<&ProviderGroup>,
        app_type: &str,
        success: bool,
        now: u64,
        failed_at: i64,
    )
        requires
            match group {
                Some(group) => !success && result_counts(
                    provider@,
                    opt_provider(current),
                    group.key_pool_enabled,
                    group.app_type@,
                    app_type@,
                ) ==> now + group.key_pool_cooldown_ms <= u64::MAX,
                None => true,
            },
        ensures
            match group {
                Some(group) if result_counts(
                    provider@,
                    opt_provider(current),
                    group.key_pool_enabled,
                    group.app_type@,
                    app_type@,
                ) => if success {
                    success_recorded(
                        old(self).pools@,
                        pool_key(app_type@, group.id@),
                        provider.id@,
                        final(self).pools@,
                    )
                } else {
                    failure_recorded(
                        old(self).pools@,
                        pool_key(app_type@, group.id@),
                        provider.id@,
                        (now + group.key_pool_cooldown_ms) as u64,
                        failed_at,
                        final(self).pools@,
                    )
                },
                _ => *final(self) == *old(self),
            },
    {
        let group = match group {
            Some(group) => group,
            None => {
                return;
            },
        };
        if !pool_result_counts(provider, current, group, app_type) {
            return;
        }
        if success {
            self.record_success(app_type, group, provider.id.as_str());
        } else {
            self.record_failure(app_type, group, provider.id.as_str(), now, failed_at);
        }
    }

    /// Forgets a pool.
    pub fn clear_key_pool_runtime(&mut self, app_type: &str, group_id: &str)
        ensures
            final(self).pools@ == old(self).pools@.remove(pool_key(app_type@, group_id@)),
    {
        let key = key_of(app_type, group_id);
        let _ = self.pools.remove(key.as_str());
    }

    /// Fills in what is remembered of the members of a group.
    pub fn fill_key_pool_status(&self, status: &mut ProviderGroupStatus, now: u64)
        ensures
            final(status).group == old(status).group,
            final(status).proxy_running,
            final(status).members@.len() == old(status).members@.len(),
            ({
                let key = pool_key(old(status).group.app_type@, old(status).group.id@);
                let runtime = if old(status).group.key_pool_enabled {
                    pool_of(self.pools@, key)
                } else {
                    empty_runtime()
                };
                forall|i: int|
                    0 <= i < old(status).members@.len() ==> shown(
                        #[trigger] old(status).members@[i],
                        runtime,
                        now,
                        final(status).members@[i],
                    )
            }),
    {
        status.proxy_running = true;
        if !status.group.key_pool_enabled {
            return;
        }
        let key = key_of(status.group.app_type.as_str(), status.group.id.as_str());
        let runtime = match self.pools.get(key.as_str()) {
            Some(runtime) => runtime,
            None => {
                return;
            },
        };
        let count: usize = status.members.len();
        let mut i: usize = 0;
        while i < count
            invariant
                i <= count,
                count == old(status).members@.len(),
                status.members@.len() == count,
                status.group == old(status).group,
                status.proxy_running,
                forall|k: int|
                    0 <= k < i ==> shown(
                        #[trigger] old(status).members@[k],
                        runtime@,
                        now,
                        status.members@[k],
                    ),
                forall|k: int|
                    i <= k < count ==> #[trigger] status.members@[k] == old(status).members@[k],
            decreases count - i,
        {
            assert(status.members@[i as int] == old(status).members@[i as int]);
            let member = &status.members[i];
            if member.eligible {
                match runtime.members.get(member.provider_id.as_str()) {
                    Some(live) => {
                        let left: u64 = match live.cooldown_until {
                            Some(until) => until.saturating_sub(now),
                            None => 0,
                        };
                        let filled = ProviderGroupMemberStatus {
                            provider_id: member.provider_id.clone(),
                            eligible: true,
                            cooling_down: left > 0,
                            cooldown_remaining_ms: left,
                            consecutive_failures: live.consecutive_failures,
                            last_failure_at: live.last_failure_at,
                            early_probe: live.early_probe,
                        };
                        status.members.set(i, filled);
                    },
                    None => {},
                }
            }
            i = i + 1;
        }
    }
}

/// A member that failed cools down until its time is up, one that served a request does not, and
/// neither says anything of another member.
pub proof fn failure_cools_only_the_member(
    runtime: KeyPoolRuntimeView,
    id: Seq<char>,
    other: Seq<char>,
    until: u64,
    failed_at: i64,
    now: u64,
)
    requires
        other != id,
    ensures
        ({
            let failed = runtime.members.insert(
                id,
                after_failure(member_of(runtime, id), until, failed_at),
            );
            let served = runtime.members.insert(id, KeyPoolMember::fresh());
            &&& cooling(failed, id, now) == (until > now)
            &&& !cooling(served, id, now)
            &&& cooling(failed, other, now) == cooling(runtime.members, other, now)
            &&& cooling(served, other, now) == cooling(runtime.members, other, now)
        }),
{
}

/// The place in its group that a provider states.
pub open spec fn stated_group_place(provider: ProviderView) -> Option<usize> {
    match provider.meta {
        Some(meta) => meta.provider_group_sort_index,
        None => None,
    }
}

/// Members in order stand by the places that they state: by that in the group, upwards, then by
/// that in the list, upwards, then by the id; and one that states none stands behind those that do.
pub proof fn ordered_members_stand_by_their_places(members: Seq<ProviderView>, i: int, j: int)
    requires
        in_order(members),
        0 <= i < j < members.len(),
    ensures
        ({
            let (a, b) = (members[i], members[j]);
            &&& match (stated_group_place(a), stated_group_place(b)) {
                (Some(x), Some(y)) => x <= y,
                (None, Some(y)) => y == usize::MAX,
                _ => true,
            }
            &&& stated_group_place(a) == stated_group_place(b) ==> match (
                a.sort_index,
                b.sort_index,
            ) {
                (Some(x), Some(y)) => x <= y,
                (None, Some(y)) => y == usize::MAX,
                _ => true,
            }
            &&& stated_group_place(a) == stated_group_place(b) && a.sort_index == b.sort_index
                ==> !text_less(b.id, a.id)
        }),
{
    assert(!tried_before(members[j], members[i]));
}

/// Of two members the one with the smaller place in the group is tried first; where these are
/// equal the one with the smaller place in the list; where these are, too, the one whose id comes
/// first. A place that is stated comes before none.
pub proof fn smaller_places_are_tried_first(a: ProviderView, b: ProviderView)
    ensures
        match (stated_group_place(a), stated_group_place(b)) {
            (Some(x), Some(y)) => x < y ==> tried_before(a, b),
            (Some(x), None) => x < usize::MAX ==> tried_before(a, b),
            _ => true,
        },
        stated_group_place(a) == stated_group_place(b) ==> match (a.sort_index, b.sort_index) {
            (Some(x), Some(y)) => x < y ==> tried_before(a, b),
            (Some(x), None) => x < usize::MAX ==> tried_before(a, b),
            _ => true,
        },
        stated_group_place(a) == stated_group_place(b) && a.sort_index == b.sort_index ==> (
        tried_before(a, b) <==> text_less(a.id, b.id)),
{
}

/// Whether a pool lets a member rest: it failed, and its time is not over.
pub open spec fn rests(runtime: KeyPoolRuntimeView, member: ProviderView, now: u64) -> bool {
    runtime.members.dom().contains(member.id) && (
    runtime.members[member.id].cooldown_until matches Some(until) && until > now)
}

/// The members of a pool in the turn of a strategy: as they stand, or from the one that the
/// rotation has come to, going round at the end.
pub open spec fn in_turn(
    members: Seq<ProviderView>,
    strategy: KeyPoolStrategy,
    next_index: usize,
) -> Seq<ProviderView> {
    match strategy {
        KeyPoolStrategy::Failover => members,
        KeyPoolStrategy::RoundRobin => {
            let start = next_index as int % members.len() as int;
            members.skip(start) + members.take(start)
        },
    }
}

proof fn lemma_ready_is_filtered(
    members: Seq<ProviderView>,
    strategy: KeyPoolStrategy,
    before: KeyPoolRuntimeView,
    now: u64,
    count: nat,
)
    requires
        members.len() > 0,
        count <= members.len(),
    ensures
        ({
            let start = start_index(strategy, before.next_index, members.len());
            let turn = in_turn(members, strategy, before.next_index);
            at_places(members, ready_places(members, pruned(before, members), start, now, count))
                == turn.take(count as int).filter(|member: ProviderView| !rests(before, member, now))
        }),
    decreases count,
{
    reveal(Seq::filter);
    let known = pruned(before, members);
    let n = members.len() as int;
    let start = start_index(strategy, before.next_index, members.len());
    let turn = in_turn(members, strategy, before.next_index);
    let ready = |member: ProviderView| !rests(before, member, now);
    vstd::arithmetic::div_mod::lemma_mod_bound(before.next_index as int, n);
    assert(turn.len() == n);
    if count == 0 {
        assert(at_places(members, ready_places(members, known, start, now, 0)) =~= turn.take(
            0,
        ).filter(ready));
    } else {
        let at = count - 1;
        lemma_ready_is_filtered(members, strategy, before, now, at as nat);
        let place = rotated(start, at as nat, members.len());
        if start + at < n {
            vstd::arithmetic::div_mod::lemma_small_mod((start + at) as nat, n as nat);
        } else {
            vstd::arithmetic::div_mod::lemma_mod_add_multiples_vanish(start + at - n, n);
            vstd::arithmetic::div_mod::lemma_small_mod((start + at - n) as nat, n as nat);
        }
        assert(0 <= place < n);
        assert(turn[at] == members[place as int]);
        assert(turn.take(count as int).drop_last() =~= turn.take(at));
        assert(turn.take(count as int).last() == turn[at]);
        let member = members[place as int];
        assert(exists|i: int| 0 <= i < members.len() && #[trigger] members[i].id == member.id) by {
            assert(members[place as int].id == member.id);
        }
        assert(cooling(known, member.id, now) == rests(before, member, now));
        let places = ready_places(members, known, start, now, at as nat);
        assert(at_places(members, places.push(place)) =~= at_places(members, places).push(member));
    }
}

/// A request is tried with the members that do not rest, in their turn, and with all of them: under
/// failover as they stand, under rotation from the one that it has come to. Where all rest, with
/// the one alone whose rest ends soonest, and of several with the first.
pub proof fn requests_are_tried_with_all_that_do_not_rest(
    members: Seq<ProviderView>,
    strategy: KeyPoolStrategy,
    now: u64,
    before: KeyPoolRuntimeView,
    selected: Seq<ProviderView>,
    after: KeyPoolRuntimeView,
)
    requires
        members.len() > 0,
        selection(members, strategy, now, before, selected, after),
    ensures
        ({
            let ready = in_turn(members, strategy, before.next_index).filter(
                |member: ProviderView| !rests(before, member, now),
            );
            &&& ready.len() > 0 ==> selected == ready
            &&& ready.len() == 0 ==> exists|at: int|
                {
                    &&& 0 <= at < members.len()
                    &&& selected == seq![#[trigger] members[at]]
                    &&& forall|k: int|
                        0 <= k < members.len() ==> rests(before, #[trigger] members[k], now)
                    &&& forall|k: int|
                        0 <= k < members.len() ==> before.members[
                            members[at].id
                        ].cooldown_until->Some_0 <= before.members[
                            (#[trigger] members[k]).id
                        ].cooldown_until->Some_0
                    &&& forall|k: int|
                        0 <= k < at ==> before.members[members[at].id].cooldown_until->Some_0
                            < before.members[(#[trigger] members[k]).id].cooldown_until->Some_0
                }
        }),
{
    let known = pruned(before, members);
    let start = start_index(strategy, before.next_index, members.len());
    let turn = in_turn(members, strategy, before.next_index);
    vstd::arithmetic::div_mod::lemma_mod_bound(before.next_index as int, members.len() as int);
    lemma_ready_is_filtered(members, strategy, before, now, members.len());
    assert(turn.take(members.len() as int) =~= turn);
    let places = ready_places(members, known, start, now, members.len());
    assert(at_places(members, places).len() == places.len());
    if places.len() == 0 {
        lemma_all_cooling(members, known, start, now);
        let place = choose|place: nat|
            #[trigger] soonest(members, known, place) && selected == seq![members[place as int]];
        let at = place as int;
        assert(0 <= at < members.len());
        assert forall|k: int| 0 <= k < members.len() implies rests(before, #[trigger] members[k], now)
            && known[members[k].id] == before.members[members[k].id] && cooldown_end(
            members,
            known,
            k,
        ) == before.members[members[k].id].cooldown_until by {
            assert(cooling(known, members[k].id, now));
        }
        assert(cooldown_end(members, known, at) is Some);
        assert forall|k: int| 0 <= k < members.len() implies before.members[
            members[at].id
        ].cooldown_until->Some_0 <= before.members[(#[trigger] members[k]).id].cooldown_until->Some_0
            && (k < at ==> before.members[members[at].id].cooldown_until->Some_0 < before.members[
            members[k].id
        ].cooldown_until->Some_0) by {
            assert(rests(before, members[k], now));
            assert(rests(before, members[at], now));
            assert(cooldown_end(members, known, k) is Some);
        }
        assert(selected == seq![members[at]]);
    }
}

/// After a selection the rotation stands behind the first member that was handed out, whatever the
/// strategy, and a member that was probed early rests no more; nothing else is remembered anew.
pub proof fn selections_move_the_rotation_on(
    members: Seq<ProviderView>,
    strategy: KeyPoolStrategy,
    now: u64,
    before: KeyPoolRuntimeView,
    selected: Seq<ProviderView>,
    after: KeyPoolRuntimeView,
    at: int,
)
    requires
        0 <= at < members.len(),
        forall|i: int, j: int|
            0 <= i < j < members.len() ==> (#[trigger] members[i]).id != (#[trigger] members[j]).id,
        selection(members, strategy, now, before, selected, after),
        selected.len() > 0,
        selected[0].id == members[at].id,
    ensures
        after.next_index == (at + 1) % members.len() as int,
        forall|id: Seq<char>|
            id != selected[0].id && #[trigger] after.members.dom().contains(id)
                ==> before.members.dom().contains(id) && after.members[id] == before.members[id],
        rests(before, selected[0], now) ==> {
            let probed = after.members[selected[0].id];
            &&& after.members.dom().contains(selected[0].id)
            &&& probed.cooldown_until is None
            &&& probed.early_probe
            &&& probed.consecutive_failures
                == before.members[selected[0].id].consecutive_failures
            &&& probed.last_failure_at == before.members[selected[0].id].last_failure_at
        },
{
    let known = pruned(before, members);
    let start = start_index(strategy, before.next_index, members.len());
    vstd::arithmetic::div_mod::lemma_mod_bound(before.next_index as int, members.len() as int);
    lemma_first_place(members, at);
    let ready = ready_places(members, known, start, now, members.len());
    lemma_ready_in_range(members, known, start, now, members.len());
    assert(exists|i: int| 0 <= i < members.len() && #[trigger] members[i].id == selected[0].id) by {
        assert(members[at].id == selected[0].id);
    }
    if ready.len() > 0 {
        assert(selected[0] == members[ready[0] as int]);
        assert(!cooling(known, members[ready[0] as int].id, now));
    } else {
        let place = choose|place: nat|
            #[trigger] soonest(members, known, place) && selected == seq![members[place as int]]
                && after.members == known.insert(
                members[place as int].id,
                KeyPoolMember {
                    cooldown_until: None,
                    early_probe: true,
                    ..known[members[place as int].id]
                },
            );
        assert(selected[0] == members[place as int]);
        lemma_all_cooling(members, known, start, now);
    }
}

/// A member that failed rests until the given time, has failed once more, and is not probed early
/// any more; one that served a request has a clean slate.
pub proof fn outcomes_are_remembered(
    before: Map<Seq<char>, KeyPoolRuntime>,
    key: Seq<char>,
    id: Seq<char>,
    until: u64,
    failed_at: i64,
    after: Map<Seq<char>, KeyPoolRuntime>,
)
    ensures
        failure_recorded(before, key, id, until, failed_at, after) ==> {
            let member = after[key]@.members[id];
            let failures = if before.dom().contains(key) && before[key]@.members.dom().contains(id) {
                before[key]@.members[id].consecutive_failures
            } else {
                0
            };
            &&& after.dom().contains(key)
            &&& after[key]@.members.dom().contains(id)
            &&& member.cooldown_until == Some(until)
            &&& failures < u32::MAX ==> member.consecutive_failures == failures + 1
            &&& member.consecutive_failures >= failures
            &&& member.last_failure_at == Some(failed_at)
            &&& !member.early_probe
        },
        success_recorded(before, key, id, after) && before.dom().contains(key) ==> {
            let member = after[key]@.members[id];
            &&& after.dom().contains(key)
            &&& after[key]@.members.dom().contains(id)
            &&& member.cooldown_until is None
            &&& member.consecutive_failures == 0
            &&& member.last_failure_at is None
            &&& !member.early_probe
            &&& after[key]@.next_index == before[key]@.next_index
        },
        success_recorded(before, key, id, after) && !before.dom().contains(key)
            ==> !after.dom().contains(key),
        success_recorded(before, key, id, after) || failure_recorded(
            before,
            key,
            id,
            until,
            failed_at,
            after,
        ) ==> {
            &&& forall|other: Seq<char>|
                other != key ==> (#[trigger] after.dom().contains(other) <==> before.dom().contains(
                    other,
                ))
            &&& forall|other: Seq<char>|
                other != key && #[trigger] after.dom().contains(other) ==> after[other]
                    == before[other]
        },
{
    if success_recorded(before, key, id, after) || failure_recorded(
        before,
        key,
        id,
        until,
        failed_at,
        after,
    ) {
        assert forall|other: Seq<char>| other != key implies (#[trigger] after.dom().contains(other)
            <==> before.dom().contains(other)) && (after.dom().contains(other) ==> after[other]
            == before[other]) by {
            assert(after.remove(key).dom().contains(other) == after.dom().contains(other));
            assert(before.remove(key).dom().contains(other) == before.dom().contains(other));
            if after.dom().contains(other) {
                assert(after.remove(key)[other] == after[other]);
                assert(before.remove(key)[other] == before[other]);
            }
        }
    }
}

/// The outcome of a request counts for a pool exactly where the provider was in a key pool when the
/// request was made, is stored with the same settings, in the same group and in a key pool by now,
/// and the group has its pool switched on and is one of the app.
pub proof fn outcomes_count_while_nothing_changed(
    provider: ProviderView,
    current: Option<ProviderView>,
    group_enabled: bool,
    group_app_type: Seq<char>,
    app_type: Seq<char>,
)
    ensures
        result_counts(provider, current, group_enabled, group_app_type, app_type) <==> {
            &&& provider.meta matches Some(own) && own.key_pool_enabled == Some(true)
                && own.provider_group_id is Some && (current matches Some(stored)
                && crate::json::json_equal(stored.settings_config, provider.settings_config) && (
            stored.meta matches Some(meta) && meta.key_pool_enabled == Some(true)
                && meta.provider_group_id == own.provider_group_id))
            &&& group_enabled
            &&& group_app_type == app_type
        },
{
}

/// Where all members rest, the one whose rest ends first is tried all the same, and it alone: its
/// rest is over, and it is marked as tried early.
pub proof fn the_soonest_is_tried_where_all_rest(
    members: Seq<ProviderView>,
    strategy: KeyPoolStrategy,
    now: u64,
    before: KeyPoolRuntimeView,
    selected: Seq<ProviderView>,
    after: KeyPoolRuntimeView,
    i: int,
)
    requires
        selection(members, strategy, now, before, selected, after),
        forall|k: int| 0 <= k < members.len() ==> rests(before, #[trigger] members[k], now),
        0 <= i < members.len(),
    ensures
        selected.len() == 1,
        members.contains(selected[0]),
        before.members[selected[0].id].cooldown_until matches Some(end) && (
        before.members[members[i].id].cooldown_until matches Some(other) && end <= other),
        after.members[selected[0].id].cooldown_until is None,
        after.members[selected[0].id].early_probe,
        after.members[selected[0].id].consecutive_failures
            == before.members[selected[0].id].consecutive_failures,
{
    let known = pruned(before, members);
    assert forall|k: int| 0 <= k < members.len() implies known.dom().contains(
        (#[trigger] members[k]).id,
    ) && known[members[k].id] == before.members[members[k].id] by {
        assert(rests(before, members[k], now));
    }
    let start = start_index(strategy, before.next_index, members.len());
    let ready = ready_places(members, known, start, now, members.len());
    assert(ready.len() == 0) by {
        if ready.len() > 0 {
            lemma_resting_members_are_not_ready(members, known, start, now, members.len());
        }
    }
    let place = choose|place: nat|
        {
            let id = members[place as int].id;
            &&& #[trigger] soonest(members, known, place)
            &&& selected == seq![members[place as int]]
            &&& after.members == known.insert(
                id,
                KeyPoolMember { cooldown_until: None, early_probe: true, ..known[id] },
            )
        };
    assert(selected[0] == members[place as int]);
    assert(rests(before, members[place as int], now));
    assert(rests(before, members[i], now));
    assert(cooldown_end(members, known, i) == before.members[members[i].id].cooldown_until);
}

proof fn lemma_resting_members_are_not_ready(
    members: Seq<ProviderView>,
    known: Map<Seq<char>, KeyPoolMember>,
    start: nat,
    now: u64,
    count: nat,
)
    requires
        members.len() > 0,
        forall|k: int|
            0 <= k < members.len() ==> cooling(known, (#[trigger] members[k]).id, now),
    ensures
        ready_places(members, known, start, now, count).len() == 0,
    decreases count,
{
    if count > 0 {
        lemma_resting_members_are_not_ready(members, known, start, now, (count - 1) as nat);
        let place = rotated(start, (count - 1) as nat, members.len());
        assert(0 <= place < members.len());
        assert(cooling(known, members[place as int].id, now));
    }
}

/// What is shown of a member is what is known of it: the time that its rest has left, and how often it
/// failed last; of one that takes no part nothing is.
pub proof fn members_are_shown_as_they_are(
    before: ProviderGroupMemberStatus,
    runtime: KeyPoolRuntimeView,
    now: u64,
    after: ProviderGroupMemberStatus,
)
    requires
        shown(before, runtime, now, after),
    ensures
        !before.eligible ==> after == before,
        !runtime.members.dom().contains(before.provider_id@) ==> after == before,
        before.eligible && runtime.members.dom().contains(before.provider_id@) ==> {
            let live = runtime.members[before.provider_id@];
            &&& live.cooldown_until matches Some(until) ==> (until > now
                ==> after.cooldown_remaining_ms == until - now && after.cooling_down) && (until
                <= now ==> after.cooldown_remaining_ms == 0 && !after.cooling_down)
            &&& live.cooldown_until is None ==> after.cooldown_remaining_ms == 0
                && !after.cooling_down
            &&& after.consecutive_failures == live.consecutive_failures
            &&& after.last_failure_at == live.last_failure_at
            &&& after.early_probe == live.early_probe
            &&& after.provider_id@ == before.provider_id@
        },
{
}

/// The groups of an app have pools of their own.
pub proof fn groups_have_their_own_pools(app: Seq<char>, a: Seq<char>, b: Seq<char>)
    ensures
        pool_key(app, a) == pool_key(app, b) ==> a == b,
{
    let head = app + ":"@;
    assert(pool_key(app, a).skip(head.len() as int) =~= a);
    assert(pool_key(app, b).skip(head.len() as int) =~= b);
}

} // verus!
