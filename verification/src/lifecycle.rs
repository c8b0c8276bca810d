//! Usage tracking of tools, and the choice of idle tools to put aside.
use vstd::prelude::*;

use crate::names::NameSet;
use crate::text::{lemma_texts_push, same, texts, Text};

verus! {

/// When a tool was last used.
#[derive(Debug)]
struct Usage {
    name: String,
    at: u32,
}

/// Least-recently-used bookkeeping: which iteration it is, when each tool was
/// last used, and which tools are pinned.
#[derive(Debug)]
pub struct ToolLifecycle {
    last_used: Vec<Usage>,
    iteration: u32,
    base_tools: NameSet,
    max_active: usize,
    idle_threshold: u32,
}

/// What the bookkeeping says.
#[verifier::ext_equal]
pub struct LifecycleView {
    /// The current iteration.
    pub now: u32,
    /// The iteration at which a tool was last used; 0 if it never was.
    pub last_use: spec_fn(Text) -> u32,
    /// The pinned tools.
    pub base: Set<Text>,
    /// How many tools may be active before idle ones are put aside.
    pub limit: usize,
    /// From how many iterations without use on a tool counts as idle.
    pub threshold: u32,
}

impl LifecycleView {
    /// A tool that is not pinned and has been idle for the threshold or longer.
    pub open spec fn idle(self, name: Text) -> bool {
        let last = (self.last_use)(name);
        let age = if self.now >= last {
            self.now - last
        } else {
            0
        };
        !self.base.contains(name) && age >= self.threshold
    }

    /// Of two positions in `active`, the first comes first in the order of staleness.
    pub open spec fn staler(self, active: Seq<Text>, i: int, j: int) -> bool {
        ||| (self.last_use)(active[i]) < (self.last_use)(active[j])
        ||| (self.last_use)(active[i]) == (self.last_use)(active[j]) && i < j
    }

    /// `order` lists the positions of the idle tools of `active`: the least
    /// recently used first, and in list order among those last used together.
    pub open spec fn staleness_order(self, active: Seq<Text>, order: Seq<int>) -> bool {
        &&& forall|i: int|
            #[trigger] order.contains(i) <==> 0 <= i < active.len() && self.idle(active[i])
        &&& forall|a: int, b: int|
            0 <= a < b < order.len() ==> self.staler(active, #[trigger] order[a], #[trigger] order[b])
    }

    /// `out` is what is put aside of `active`: nothing while at most `limit`
    /// tools are active, else as many idle tools as there are too many, the
    /// least recently used first.
    pub open spec fn evicts(self, active: Seq<Text>, out: Seq<Text>) -> bool {
        if active.len() <= self.limit {
            out.len() == 0
        } else {
            exists|order: Seq<int>|
                {
                    &&& #[trigger] self.staleness_order(active, order)
                    &&& out == first_of(order, active, active.len() - self.limit)
                }
        }
    }
}

impl LifecycleView {
    /// Nothing used, nothing pinned, in the first iteration.
    pub open spec fn fresh(limit: usize, threshold: u32) -> LifecycleView {
        LifecycleView {
            now: 0,
            last_use: |name: Text| 0u32,
            base: Set::empty(),
            limit,
            threshold,
        }
    }

    /// After a use of a tool in the current iteration.
    pub open spec fn used(self, name: Text) -> LifecycleView {
        LifecycleView {
            last_use: |other: Text| if other == name { self.now } else { (self.last_use)(other) },
            ..self
        }
    }
}

impl LifecycleView {
    /// In the next iteration.
    pub open spec fn ticked(self) -> LifecycleView {
        LifecycleView { now: (self.now + 1) as u32, ..self }
    }

    /// After some iterations in which nothing is used.
    pub open spec fn after_ticks(self, k: nat) -> LifecycleView
        decreases k,
    {
        if k == 0 {
            self
        } else {
            self.after_ticks((k - 1) as nat).ticked()
        }
    }

    proof fn lemma_after_ticks(self, k: nat)
        requires
            self.now + k <= u32::MAX,
        ensures
            self.after_ticks(k) == (LifecycleView { now: (self.now + k) as u32, ..self }),
        decreases k,
    {
        if k > 0 {
            self.lemma_after_ticks((k - 1) as nat);
        }
    }
}

/// A tool that is used now is not put aside before as many iterations have passed
/// as make a tool idle, whatever else is active.
pub proof fn used_tools_are_not_put_aside_soon(
    life: LifecycleView,
    name: Text,
    k: nat,
    active: Seq<Text>,
    out: Seq<Text>,
)
    requires
        k < life.threshold,
        life.now + k <= u32::MAX,
        life.used(name).after_ticks(k).evicts(active, out),
    ensures
        !life.used(name).after_ticks(k).idle(name),
        !out.contains(name),
{
    let later = life.used(name).after_ticks(k);
    life.used(name).lemma_after_ticks(k);
    if out.contains(name) {
        let order = choose|order: Seq<int>|
            {
                &&& #[trigger] later.staleness_order(active, order)
                &&& out == first_of(order, active, active.len() - later.limit)
            };
        let i = out.index_of(name);
        assert(order.contains(order[i]));
        assert(active[order[i]] == name);
    }
}

impl View for ToolLifecycle {
    type V = LifecycleView;

    closed spec fn view(&self) -> LifecycleView {
        LifecycleView {
            now: self.iteration,
            last_use: |name: Text| noted(self.last_used@, name),
            base: self.base_tools@,
            limit: self.max_active,
            threshold: self.idle_threshold,
        }
    }
}

/// The last iteration noted for a name, by the latest note.
spec fn noted(notes: Seq<Usage>, name: Text) -> u32
    decreases notes.len(),
{
    if notes.len() == 0 {
        0
    } else if notes.last().name@ == name {
        notes.last().at
    } else {
        noted(notes.drop_last(), name)
    }
}

impl ToolLifecycle {
    pub fn new(max_active: usize, idle_threshold: u32) -> (r: ToolLifecycle)
        ensures
            r@ == LifecycleView::fresh(max_active, idle_threshold),
    {
        let r = ToolLifecycle {
            last_used: Vec::new(),
            iteration: 0,
            base_tools: NameSet::new(),
            max_active,
            idle_threshold,
        };
        proof {
            assert(r@ =~= LifecycleView::fresh(max_active, idle_threshold));
        }
        r
    }

    /// How many tools may be active before idle ones are put aside.
    pub fn max_active(&self) -> (r: usize)
        ensures
            r == self@.limit,
    {
        self.max_active
    }

    /// From how many iterations without use on a tool counts as idle.
    pub fn idle_threshold(&self) -> (r: u32)
        ensures
            r == self@.threshold,
    {
        self.idle_threshold
    }

    /// The current iteration.
    pub fn iteration(&self) -> (r: u32)
        ensures
            r == self@.now,
    {
        self.iteration
    }

    /// A lifecycle with the same pinned tools and limits that has seen no use yet.
    pub fn restarted(&self) -> (r: ToolLifecycle)
        ensures
            r@ == (LifecycleView {
                base: self@.base,
                ..LifecycleView::fresh(self@.limit, self@.threshold)
            }),
    {
        let mut r = ToolLifecycle::new(self.max_active, self.idle_threshold);
        r.base_tools = self.base_tools.copy();
        r
    }

    /// Changes how many tools may be active and how long one may be idle.
    pub fn set_limits(&mut self, max_active: usize, idle_threshold: u32)
        ensures
            final(self)@ == (LifecycleView {
                limit: max_active,
                threshold: idle_threshold,
                ..old(self)@
            }),
    {
        self.max_active = max_active;
        self.idle_threshold = idle_threshold;
    }

    /// Pins exactly these tools.
    pub fn set_base_tools(&mut self, names: &[String])
        ensures
            final(self)@ == (LifecycleView { base: texts(names@).to_set(), ..old(self)@ }),
    {
        self.base_tools = NameSet::of(names);
    }

    /// Pins these tools beside the ones that are pinned.
    pub fn add_base_tools(&mut self, names: &[String])
        ensures
            final(self)@ == (LifecycleView {
                base: old(self)@.base.union(texts(names@).to_set()),
                ..old(self)@
            }),
    {
        self.base_tools.extend(names);
    }

    /// Notes that a tool is used in the current iteration.
    pub fn record_usage(&mut self, name: &str)
        ensures
            final(self)@ == old(self)@.used(name@),
    {
        let ghost before = self.last_used@;
        let mut i: usize = self.last_used.len();
        while i > 0 && !same(self.last_used[i - 1].name.as_str(), name)
            invariant
                i <= self.last_used.len(),
                *self == *old(self),
                before == self.last_used@,
                forall|j: int| i <= j < before.len() ==> before[j].name@ != name@,
            decreases i,
        {
            i -= 1;
        }
        let note = Usage { name: name.to_owned(), at: self.iteration };
        if i > 0 {
            self.last_used.set(i - 1, note);
            proof {
                lemma_note_replaced(before, i - 1, note);
            }
        } else {
            proof {
                assert(before.push(note).drop_last() =~= before);
            }
            self.last_used.push(note);
        }
        proof {
            assert(self@ =~= old(self)@.used(name@));
        }
    }

    /// Goes on to the next iteration.
    pub fn tick(&mut self)
        requires
            old(self)@.now < u32::MAX,
        ensures
            final(self)@ == old(self)@.ticked(),
    {
        self.iteration = self.iteration + 1;
    }

    fn last_of(&self, name: &str) -> (r: u32)
        ensures
            r == (self@.last_use)(name@),
    {
        let ghost all = self.last_used@;
        let mut i: usize = self.last_used.len();
        proof {
            assert(all.take(all.len() as int) =~= all);
        }
        while i > 0
            invariant
                i <= all.len(),
                all == self.last_used@,
                noted(all, name@) == noted(all.take(i as int), name@),
            decreases i,
        {
            proof {
                assert(all.take(i as int).drop_last() =~= all.take(i - 1));
            }
            if same(self.last_used[i - 1].name.as_str(), name) {
                return self.last_used[i - 1].at;
            }
            i -= 1;
        }
        0
    }

    fn is_idle(&self, name: &str) -> (r: bool)
        ensures
            r == self@.idle(name@),
    {
        if self.base_tools.contains(name) {
            return false;
        }
        let last: u32 = self.last_of(name);
        let age: u32 = if self.iteration >= last {
            self.iteration - last
        } else {
            0
        };
        age >= self.idle_threshold
    }

    /// The tools to put aside: none while at most `max_active` tools are
    /// active, else as many idle tools as there are too many, the least
    /// recently used first.
    pub fn find_evictable(&self, active_tools: &[String]) -> (out: Vec<String>)
        ensures
            self@.evicts(texts(active_tools@), texts(out@)),
    {
        let mut out: Vec<String> = Vec::new();
        if active_tools.len() <= self.max_active {
            return out;
        }
        let ghost active = texts(active_tools@);
        let excess: usize = active_tools.len() - self.max_active;
        let order = self.stale_positions(active_tools);
        let ghost positions = order@.map_values(|p: usize| p as int);
        let mut k: usize = 0;
        while k < order.len() && k < excess
            invariant
                k <= order.len(),
                k <= excess,
                active == texts(active_tools@),
                positions == order@.map_values(|p: usize| p as int),
                forall|a: int| 0 <= a < order@.len() ==> 0 <= #[trigger] order@[a] < active_tools@.len(),
                texts(out@) == first_of(positions, active, k as int),
            decreases order.len() - k,
        {
            let p: usize = order[k];
            proof {
                lemma_texts_push(out@, active_tools@[p as int]);
                assert(first_of(positions, active, k + 1) =~= first_of(positions, active, k as int).push(
                    active[p as int],
                ));
            }
            out.push(active_tools[p].clone());
            k += 1;
        }
        proof {
            assert(self@.staleness_order(active, positions));
            assert(first_of(positions, active, excess as int) =~= first_of(positions, active, k as int));
        }
        out
    }

    /// The positions of the idle tools, the least recently used first.
    fn stale_positions(&self, active_tools: &[String]) -> (order: Vec<usize>)
        ensures
            forall|a: int| 0 <= a < order@.len() ==> 0 <= #[trigger] order@[a] < active_tools@.len(),
            self@.staleness_order(texts(active_tools@), order@.map_values(|p: usize| p as int)),
    {
        let ghost active = texts(active_tools@);
        let mut order: Vec<usize> = Vec::new();
        let mut i: usize = 0;
        while i < active_tools.len()
            invariant
                i <= active_tools.len(),
                active == texts(active_tools@),
                forall|a: int| 0 <= a < order@.len() ==> 0 <= #[trigger] order@[a] < i,
                forall|p: usize| order@.contains(p) <==> p < i && self@.idle(active[p as int]),
                forall|a: int, b: int|
                    0 <= a < b < order@.len() ==> self@.staler(
                        active,
                        #[trigger] order@[a] as int,
                        #[trigger] order@[b] as int,
                    ),
            decreases active_tools.len() - i,
        {
            if self.is_idle(active_tools[i].as_str()) {
                let last: u32 = self.last_of(active_tools[i].as_str());
                let mut k: usize = order.len();
                while k > 0 && self.last_of(active_tools[order[k - 1]].as_str()) > last
                    invariant
                        k <= order.len(),
                        i < active_tools.len(),
                        active == texts(active_tools@),
                        last == (self@.last_use)(active[i as int]),
                        forall|a: int| 0 <= a < order@.len() ==> 0 <= #[trigger] order@[a] < i,
                        forall|a: int|
                            k <= a < order@.len() ==> (self@.last_use)(active[#[trigger] order@[a] as int])
                                > last,
                    decreases k,
                {
                    k -= 1;
                }
                let ghost before = order@;
                order.insert(k, i);
                proof {
                    self.lemma_inserted(active, before, order@, k as int, i);
                }
            }
            i += 1;
        }
        proof {
            let positions = order@.map_values(|p: usize| p as int);
            assert forall|j: int| positions.contains(j) <==> 0 <= j < active.len() && self@.idle(
                active[j],
            ) by {
                if positions.contains(j) {
                    let a = choose|a: int| 0 <= a < positions.len() && positions[a] == j;
                    assert(order@.contains(order@[a]));
                }
                if 0 <= j < active.len() && self@.idle(active[j]) {
                    assert(order@.contains(j as usize));
                    let a = choose|a: int| 0 <= a < order@.len() && order@[a] == j as usize;
                    assert(positions[a] == j);
                }
            }
        }
        order
    }

    proof fn lemma_inserted(
        &self,
        active: Seq<Text>,
        before: Seq<usize>,
        after: Seq<usize>,
        k: int,
        i: usize,
    )
        requires
            0 <= k <= before.len(),
            after == before.insert(k, i),
            i < active.len(),
            self@.idle(active[i as int]),
            forall|a: int| 0 <= a < before.len() ==> 0 <= #[trigger] before[a] < i,
            forall|p: usize| before.contains(p) <==> p < i && self@.idle(active[p as int]),
            forall|a: int, b: int|
                0 <= a < b < before.len() ==> self@.staler(
                    active,
                    #[trigger] before[a] as int,
                    #[trigger] before[b] as int,
                ),
            forall|a: int|
                k <= a < before.len() ==> (self@.last_use)(active[#[trigger] before[a] as int])
                    > (self@.last_use)(active[i as int]),
            k > 0 ==> (self@.last_use)(active[before[k - 1] as int]) <= (self@.last_use)(active[i as int]),
        ensures
            forall|a: int| 0 <= a < after.len() ==> 0 <= #[trigger] after[a] < i + 1,
            forall|p: usize| after.contains(p) <==> p < i + 1 && self@.idle(active[p as int]),
            forall|a: int, b: int|
                0 <= a < b < after.len() ==> self@.staler(
                    active,
                    #[trigger] after[a] as int,
                    #[trigger] after[b] as int,
                ),
    {
        assert forall|p: usize| after.contains(p) <==> p < i + 1 && self@.idle(active[p as int]) by {
            if after.contains(p) {
                let a = choose|a: int| 0 <= a < after.len() && after[a] == p;
                if a < k {
                    assert(before.contains(before[a]));
                } else if a > k {
                    assert(before.contains(before[a - 1]));
                }
            }
            if p == i {
                assert(after[k] == i);
            } else if p < i && self@.idle(active[p as int]) {
                assert(before.contains(p));
                let a = choose|a: int| 0 <= a < before.len() && before[a] == p;
                if a < k {
                    assert(after[a] == p);
                } else {
                    assert(after[a + 1] == p);
                }
            }
        }
        assert forall|a: int, b: int| 0 <= a < b < after.len() implies self@.staler(
            active,
            #[trigger] after[a] as int,
            #[trigger] after[b] as int,
        ) by {
            if b == k {
                if a < k - 1 {
                    assert(self@.staler(active, before[a] as int, before[k - 1] as int));
                }
            } else if a < k && b > k {
                assert(self@.staler(active, before[a] as int, before[b - 1] as int));
            } else if a > k {
                assert(self@.staler(active, before[a - 1] as int, before[b - 1] as int));
            } else if b < k {
                assert(self@.staler(active, before[a] as int, before[b] as int));
            }
        }
    }
}

/// The texts at the first `n` positions of `order`, or at all of them.
pub open spec fn first_of(order: Seq<int>, list: Seq<Text>, n: int) -> Seq<Text> {
    let count = if n < order.len() {
        n
    } else {
        order.len() as int
    };
    Seq::new(count as nat, |k: int| list[order[k]])
}

proof fn lemma_note_replaced(notes: Seq<Usage>, i: int, note: Usage)
    requires
        0 <= i < notes.len(),
        notes[i].name@ == note.name@,
        forall|j: int| i < j < notes.len() ==> notes[j].name@ != note.name@,
    ensures
        noted(notes.update(i, note), note.name@) == note.at,
        forall|other: Text| other != note.name@ ==> noted(notes.update(i, note), other) == noted(notes, other),
    decreases notes.len(),
{
    let after = notes.update(i, note);
    if i == notes.len() - 1 {
        assert(after.drop_last() =~= notes.drop_last());
    } else {
        lemma_note_replaced(notes.drop_last(), i, note);
        assert(after.drop_last() =~= notes.drop_last().update(i, note));
        assert(after.last() == notes.last());
        assert forall|other: Text| other != note.name@ implies noted(after, other) == noted(notes, other) by {
            let shorter = notes.drop_last();
            assert(noted(shorter.update(i, note), other) == noted(shorter, other));
        }
    }
}

impl Default for ToolLifecycle {
    fn default() -> (r: ToolLifecycle)
        ensures
            r@ == LifecycleView::fresh(15, 5),
    {
        ToolLifecycle::new(15, 5)
    }
}

} // verus!
