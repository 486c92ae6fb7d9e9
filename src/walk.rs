//! The dependency-first walk that decides which module to look up, fetch or
//! describe next.
//!
//! The walk keeps an explicit stack of modules in flight instead of
//! recursing. The program around it performs each action it asks for (a cache
//! lookup, fetching a module's source, a model session followed by an atomic
//! save) and hands back what came of it as an event.
use vstd::prelude::*;
use crate::conversation::{conversation_view, opening, opening_conversation, picked, Message};
use crate::deps::keys_of;
use crate::error::DescribeError;
use crate::ids::{is_reserved, is_reserved_address, same_module, ModuleId};
use crate::records::{FullModuleDescription, ModuleSource};

verus! {

/// Where a module in flight stands.
#[derive(Clone, Copy, Debug, PartialEq, Eq, Structural)]
pub enum Phase {
    /// Its aggregate has yet to be looked up in the cache.
    CheckCache,
    /// It was not cached; its source is needed.
    NeedsSource,
    /// Its dependencies are being described first.
    Dependencies,
    /// Its dependencies are described; the model rounds are next.
    Rounds,
}

/// One module in flight.
pub struct Frame {
    pub target: ModuleId,
    pub phase: Phase,
    pub source: Option<ModuleSource>,
    /// How many of the source's dependencies have been dealt with.
    pub next_dep: usize,
}

/// What came of the last action.
pub enum Event {
    /// The cache holds this aggregate for the module looked up.
    CacheHit(FullModuleDescription),
    /// The cache holds nothing for the module looked up.
    CacheMiss,
    /// The source of the module asked for.
    SourceReady(ModuleSource),
    /// The module was described and its aggregate saved.
    Persisted(FullModuleDescription),
    /// The action failed.
    Failure(DescribeError),
}

/// What to describe: the module and the opening of its conversations.
pub struct DescribeJob {
    pub target: ModuleId,
    /// The dependencies whose descriptions the conversation quotes.
    pub dependencies: Vec<ModuleId>,
    pub conversation: Vec<Message>,
}

/// What the program around the walk is to do next.
pub enum Action {
    /// Look the module's aggregate up in the cache.
    Lookup(ModuleId),
    /// Get the module's source, decompiling its package if need be.
    FetchSource(ModuleId),
    /// Run the model rounds for the module, then save its aggregate atomically.
    Describe(DescribeJob),
    /// The requested module is described: see `Walk::result`.
    Finished,
    /// The walk stopped on this error.
    Failed(DescribeError),
}

/// Whether an aggregate for `key` is among `d`.
pub open spec fn has_key(d: Seq<FullModuleDescription>, key: (Seq<u8>, Seq<char>)) -> bool {
    exists|i: int| 0 <= i < d.len() && #[trigger] d[i].key() == key
}

/// The `k`-th dependency of a frame's source is settled: reserved, or described.
pub open spec fn dep_settled(src: ModuleSource, k: int, d: Seq<FullModuleDescription>) -> bool {
    is_reserved_address(src.dependencies@[k].address@) || has_key(d, src.dependencies@[k].key())
}

/// A frame agrees with its phase.
pub open spec fn frame_ok(f: Frame, d: Seq<FullModuleDescription>) -> bool {
    match f.phase {
        Phase::CheckCache | Phase::NeedsSource => true,
        _ => match f.source {
            Some(src) => src.id.key() == f.target.key() && f.next_dep <= src.dependencies.len()
                && (f.phase == Phase::Rounds ==> f.next_dep == src.dependencies.len()) && forall|k: int|
                0 <= k < f.next_dep ==> #[trigger] dep_settled(src, k, d),
            None => false,
        },
    }
}

/// `upper` is the dependency that `lower` is waiting for.
pub open spec fn waits_for(lower: Frame, upper: Frame) -> bool {
    lower.phase == Phase::Dependencies && match lower.source {
        Some(src) => lower.next_dep < src.dependencies.len() && src.dependencies@[lower.next_dep as int].key()
            == upper.target.key(),
        None => false,
    }
}

/// No two modules in flight are the same, and none of them is described yet.
pub open spec fn targets_ok(s: Seq<Frame>, d: Seq<FullModuleDescription>) -> bool {
    &&& forall|i: int| 0 <= i < s.len() ==> !has_key(d, #[trigger] s[i].target.key())
    &&& forall|i: int, j: int|
        0 <= i < j < s.len() ==> (#[trigger] s[i]).target.key() != (#[trigger] s[j]).target.key()
}

proof fn lemma_targets_same(s1: Seq<Frame>, s2: Seq<Frame>, d: Seq<FullModuleDescription>)
    requires
        targets_ok(s1, d),
        s1.len() == s2.len(),
        forall|i: int| 0 <= i < s1.len() ==> (#[trigger] s2[i]).target == s1[i].target,
    ensures
        targets_ok(s2, d),
{
    assert forall|i: int, j: int| 0 <= i < j < s2.len() implies (#[trigger] s2[i]).target.key()
        != (#[trigger] s2[j]).target.key() by {
        assert(s1[i].target.key() != s1[j].target.key());
    }
    assert forall|i: int| 0 <= i < s2.len() implies !has_key(d, #[trigger] s2[i].target.key()) by {
        assert(!has_key(d, s1[i].target.key()));
    }
}

/// The walk for one requested module.
pub struct Walk {
    pub root: ModuleId,
    pub developer: String,
    pub stack: Vec<Frame>,
    /// The aggregates obtained so far, from the cache or saved after description.
    pub described: Vec<FullModuleDescription>,
    /// For each aggregate in `described`: the dependencies of the source it
    /// was described from, or nothing when it came from the cache.
    pub order: Ghost<Seq<Option<Seq<(Seq<u8>, Seq<char>)>>>>,
    pub failure: Option<DescribeError>,
}

/// Each aggregate described during the walk came after an aggregate of
/// each of its non-reserved dependencies.
pub open spec fn committed_in_order(
    d: Seq<FullModuleDescription>,
    order: Seq<Option<Seq<(Seq<u8>, Seq<char>)>>>,
) -> bool {
    &&& order.len() == d.len()
    &&& forall|i: int, k: int|
        0 <= i < d.len() && order[i] is Some && 0 <= k < order[i]->Some_0.len()
            && !is_reserved_address(#[trigger] order[i]->Some_0[k].0) ==> exists|j: int|
            0 <= j < i && #[trigger] d[j].key() == order[i]->Some_0[k]
}

impl Walk {
    /// The walk's invariant.
    pub open spec fn wf(&self) -> bool {
        let s = self.stack@;
        let d = self.described@;
        &&& forall|i: int| 0 <= i < s.len() ==> frame_ok(#[trigger] s[i], d)
        &&& forall|i: int|
            0 < i < s.len() ==> !is_reserved_address(#[trigger] s[i].target.address@)
        &&& forall|i: int| 0 <= i < s.len() - 1 ==> waits_for(#[trigger] s[i], s[i + 1])
        &&& s.len() > 0 ==> s[0].target.key() == self.root.key()
        &&& targets_ok(s, d)
        &&& committed_in_order(d, self.order@)
        &&& self.failure is None && s.len() > 0 ==> s.last().phase != Phase::Dependencies
        &&& self.failure is None && s.len() == 0 ==> d.len() > 0 && d.last().key()
            == self.root.key()
    }

    /// The walk has described the requested module.
    pub open spec fn finished(&self) -> bool {
        self.failure is None && self.stack@.len() == 0
    }

    /// Starts the walk for `root`; `developer` is the instruction that opens
    /// every conversation.
    pub fn new(root: ModuleId, developer: String) -> (r: Walk)
        ensures
            r.wf(),
            r.root == root,
            r.developer == developer,
            r.described@.len() == 0,
            r.failure is None,
            r.stack@.len() == 1,
            r.stack@[0].target == root,
            r.stack@[0].phase == Phase::CheckCache,
    {
        let mut stack: Vec<Frame> = Vec::new();
        stack.push(Frame { target: root.clone(), phase: Phase::CheckCache, source: None, next_dep: 0 });
        Walk { root, developer, stack, described: Vec::new(), order: Ghost(Seq::empty()), failure: None }
    }
}


/// The non-reserved identifiers of a list, in order.
pub open spec fn unreserved(v: Seq<(Seq<u8>, Seq<char>)>) -> Seq<(Seq<u8>, Seq<char>)>
    decreases v.len(),
{
    if v.len() == 0 {
        v
    } else if is_reserved_address(v.last().0) {
        unreserved(v.drop_last())
    } else {
        unreserved(v.drop_last()).push(v.last())
    }
}

/// The first dependency of `src`, from the `k`-th on, that is neither
/// reserved nor described; the number of dependencies when there is none.
pub open spec fn first_pending(src: ModuleSource, k: int, d: Seq<FullModuleDescription>) -> int
    decreases src.dependencies@.len() - k,
{
    if k < 0 || k >= src.dependencies@.len() {
        src.dependencies@.len() as int
    } else if dep_settled(src, k, d) {
        first_pending(src, k + 1, d)
    } else {
        k
    }
}

/// Some module on the stack `s` is `key`.
pub open spec fn on_stack(s: Seq<Frame>, key: (Seq<u8>, Seq<char>)) -> bool {
    exists|i: int| 0 <= i < s.len() && #[trigger] s[i].target.key() == key
}

/// Where scanning the dependencies of the top frame of `s` ends, given the
/// aggregates `d`: at the first pending dependency, which is pushed to be
/// looked up, or is a cycle when it is already in flight; or, when none is
/// pending, with the top module ready for its rounds.
pub open spec fn scan_outcome(
    s: Seq<Frame>,
    d: Seq<FullModuleDescription>,
    failure: Option<DescribeError>,
    after: Seq<Frame>,
) -> bool {
    let t = s.last();
    let src = t.source->Some_0;
    let p = first_pending(src, t.next_dep as int, d);
    if p >= src.dependencies@.len() {
        failure is None && after == s.drop_last().push(
            Frame {
                target: t.target,
                phase: Phase::Rounds,
                source: t.source,
                next_dep: src.dependencies@.len() as usize,
            },
        )
    } else if on_stack(s, src.dependencies@[p].key()) {
        failure == Some(DescribeError::CyclicDependency)
    } else {
        failure is None && after == s.drop_last().push(
            Frame { target: t.target, phase: Phase::Dependencies, source: t.source, next_dep: p as usize },
        ).push(
            Frame {
                target: src.dependencies@[p],
                phase: Phase::CheckCache,
                source: None,
                next_dep: 0,
            },
        )
    }
}

/// What the walk looks like once the top module of `s` got its aggregate
/// and `d` holds it: finished when it was the requested module, else its
/// parent moves past it and scans on.
pub open spec fn after_completion(s: Seq<Frame>, d: Seq<FullModuleDescription>, w: Walk) -> bool {
    if s.len() == 1 {
        w.finished()
    } else {
        let par = s[s.len() - 2];
        scan_outcome(
            s.subrange(0, s.len() - 2).push(
                Frame {
                    target: par.target,
                    phase: Phase::Dependencies,
                    source: par.source,
                    next_dep: (par.next_dep + 1) as usize,
                },
            ),
            d,
            w.failure,
            w.stack@,
        )
    }
}

proof fn lemma_has_key_push(d: Seq<FullModuleDescription>, x: FullModuleDescription, key: (Seq<u8>, Seq<char>))
    requires
        has_key(d, key),
    ensures
        has_key(d.push(x), key),
{
    let i = choose|i: int| 0 <= i < d.len() && #[trigger] d[i].key() == key;
    assert(d.push(x)[i] == d[i]);
}

proof fn lemma_frame_ok_push(f: Frame, d: Seq<FullModuleDescription>, x: FullModuleDescription)
    requires
        frame_ok(f, d),
    ensures
        frame_ok(f, d.push(x)),
{
    match f.phase {
        Phase::CheckCache | Phase::NeedsSource => {},
        _ => {
            let src = f.source->Some_0;
            assert forall|k: int| 0 <= k < f.next_dep implies #[trigger] dep_settled(src, k, d.push(x)) by {
                assert(dep_settled(src, k, d));
                if has_key(d, src.dependencies@[k].key()) {
                    lemma_has_key_push(d, x, src.dependencies@[k].key());
                }
            }
        },
    }
}

impl Walk {
    /// The invariant, except that the top frame may still be scanning its
    /// dependencies.
    pub open spec fn wf_core(&self) -> bool {
        let s = self.stack@;
        let d = self.described@;
        &&& forall|i: int| 0 <= i < s.len() ==> frame_ok(#[trigger] s[i], d)
        &&& forall|i: int|
            0 < i < s.len() ==> !is_reserved_address(#[trigger] s[i].target.address@)
        &&& forall|i: int| 0 <= i < s.len() - 1 ==> waits_for(#[trigger] s[i], s[i + 1])
        &&& s.len() > 0 ==> s[0].target.key() == self.root.key()
        &&& targets_ok(s, d)
        &&& committed_in_order(d, self.order@)
    }

    fn find_described(&self, id: &ModuleId) -> (r: Option<usize>)
        ensures
            match r {
                Some(i) => i < self.described.len() && self.described@[i as int].key() == id.key(),
                None => !has_key(self.described@, id.key()),
            },
    {
        let mut i: usize = 0;
        while i < self.described.len()
            invariant
                i <= self.described.len(),
                forall|k: int| 0 <= k < i ==> #[trigger] self.described@[k].key() != id.key(),
            decreases self.described.len() - i,
        {
            if same_module(&self.described[i].module.id, id) {
                return Some(i);
            }
            i = i + 1;
        }
        None
    }

    fn in_flight(&self, id: &ModuleId) -> (r: bool)
        ensures
            r == exists|i: int| 0 <= i < self.stack@.len() && #[trigger] self.stack@[i].target.key() == id.key(),
    {
        let mut i: usize = 0;
        while i < self.stack.len()
            invariant
                i <= self.stack.len(),
                forall|k: int| 0 <= k < i ==> #[trigger] self.stack@[k].target.key() != id.key(),
            decreases self.stack.len() - i,
        {
            if same_module(&self.stack[i].target, id) {
                return true;
            }
            i = i + 1;
        }
        false
    }

    /// Moves the top frame through the dependencies that need no work, until
    /// one needs describing, all are described, or a cycle shows.
    fn settle(&mut self)
        requires
            old(self).wf_core(),
            old(self).failure is None,
            old(self).stack@.len() > 0,
            old(self).stack@.last().phase == Phase::Dependencies,
        ensures
            final(self).wf(),
            final(self).root == old(self).root,
            final(self).developer == old(self).developer,
            final(self).described == old(self).described,
            final(self).order == old(self).order,
            final(self).stack@.len() > 0,
            final(self).stack@.len() >= old(self).stack@.len(),
            final(self).failure is None || final(self).failure == Some(DescribeError::CyclicDependency),
            scan_outcome(old(self).stack@, old(self).described@, final(self).failure, final(self).stack@),
    {
        let ghost orig = self.stack@;
        let ghost t0 = orig.last();
        let ghost src0 = t0.source->Some_0;
        let ghost d0 = self.described@;
        let ghost p = first_pending(src0, t0.next_dep as int, d0);
        proof {
            assert(frame_ok(orig[orig.len() - 1], d0));
        }
        loop
            invariant
                self.wf_core(),
                self.failure is None,
                self.stack@.len() > 0,
                self.stack@.len() == orig.len(),
                self.stack@.drop_last() == orig.drop_last(),
                self.stack@.last().target == t0.target,
                self.stack@.last().source == t0.source,
                self.stack@.last().phase == Phase::Dependencies,
                t0.source == Some(src0),
                p == first_pending(src0, t0.next_dep as int, d0),
                first_pending(src0, self.stack@.last().next_dep as int, d0) == p,
                orig == old(self).stack@,
                t0 == orig.last(),
                d0 == old(self).described@,
                self.root == old(self).root,
                self.developer == old(self).developer,
                self.described == old(self).described,
                self.order == old(self).order,
            decreases
                match self.stack@.last().source {
                    Some(src) => src.dependencies@.len() - self.stack@.last().next_dep,
                    None => 0,
                },
        {
            let ghost s0 = self.stack@;
            let ghost d = self.described@;
            let n = self.stack.len();
            let top = match self.stack.pop() {
                Some(t) => t,
                None => {
                    return;
                },
            };
            assert(self.stack@ =~= s0.drop_last());
            assert(top == s0.last());
            assert(frame_ok(s0[n - 1], d));
            let k = top.next_dep;
            let (len, reserved, known, cyclic) = match &top.source {
                Some(src) => {
                    let len = src.dependencies.len();
                    if k == len {
                        (len, false, false, false)
                    } else {
                        let dep = &src.dependencies[k];
                        let reserved = is_reserved(dep);
                        let known = match self.find_described(dep) {
                            Some(_) => true,
                            None => false,
                        };
                        let cyclic = self.in_flight(dep) || same_module(dep, &top.target);
                        (len, reserved, known, cyclic)
                    }
                },
                None => (0, false, false, false),
            };
            let ghost src = top.source->Some_0;
            proof {
                assert(src == src0);
                assert(len == src0.dependencies@.len());
                if k < len {
                    let key = src0.dependencies@[k as int].key();
                    assert(reserved == is_reserved_address(src0.dependencies@[k as int].address@));
                    assert(known == has_key(d0, key));
                    assert(cyclic == (on_stack(orig.drop_last(), key) || t0.target.key() == key));
                }
            }
            if k == len {
                let t = Frame { target: top.target, phase: Phase::Rounds, source: top.source, next_dep: k };
                self.stack.push(t);
                proof {
                    assert(first_pending(src0, k as int, d0) == src0.dependencies@.len());
                    assert(self.stack@ =~= orig.drop_last().push(t));
                    assert(t == Frame { target: t0.target, phase: Phase::Rounds, source: t0.source, next_dep: src0.dependencies@.len() as usize });

                    assert(self.stack@ =~= s0.drop_last().push(t));
                    assert(frame_ok(t, d));
                    assert forall|i: int| 0 <= i < self.stack@.len() - 1 implies waits_for(
                        #[trigger] self.stack@[i],
                        self.stack@[i + 1],
                    ) by {
                        assert(waits_for(s0[i], s0[i + 1]));
                    }
                    assert forall|i: int| 0 <= i < self.stack@.len() implies frame_ok(#[trigger] self.stack@[i], d) by {
                        if i < n - 1 {
                            assert(frame_ok(s0[i], d));
                        }
                    }
                    assert forall|i: int| 0 < i < self.stack@.len() implies !is_reserved_address(
                        #[trigger] self.stack@[i].target.address@,
                    ) by {
                        assert(!is_reserved_address(s0[i].target.address@));
                    }
                }
                return;
            }
            if reserved || known {
                let t = Frame { target: top.target, phase: Phase::Dependencies, source: top.source, next_dep: k + 1 };
                self.stack.push(t);
                proof {
                    assert(self.stack@ =~= s0.drop_last().push(t));
                    assert(dep_settled(src, k as int, d));
                    assert forall|j: int| 0 <= j < t.next_dep implies #[trigger] dep_settled(src, j, d) by {
                        if j < k {
                            assert(dep_settled(src, j, d));
                        }
                    }
                    assert(frame_ok(t, d));
                    assert forall|i: int| 0 <= i < self.stack@.len() - 1 implies waits_for(
                        #[trigger] self.stack@[i],
                        self.stack@[i + 1],
                    ) by {
                        assert(waits_for(s0[i], s0[i + 1]));
                    }
                    assert forall|i: int| 0 <= i < self.stack@.len() implies frame_ok(#[trigger] self.stack@[i], d) by {
                        if i < n - 1 {
                            assert(frame_ok(s0[i], d));
                        }
                    }
                    assert forall|i: int| 0 < i < self.stack@.len() implies !is_reserved_address(
                        #[trigger] self.stack@[i].target.address@,
                    ) by {
                        assert(!is_reserved_address(s0[i].target.address@));
                    }
                }
                continue;
            }
            proof {
                assert(!dep_settled(src0, k as int, d0));
                assert(first_pending(src0, k as int, d0) == k);
            }
            let ghost key = src0.dependencies@[k as int].key();
            if cyclic {
                self.stack.push(top);
                self.failure = Some(DescribeError::CyclicDependency);
                proof {
                    assert(self.stack@ =~= s0);
                    if on_stack(orig.drop_last(), key) {
                        let i = choose|i: int| 0 <= i < orig.drop_last().len() && #[trigger] orig.drop_last()[i].target.key() == key;
                        assert(orig[i] == orig.drop_last()[i]);
                    } else {
                        assert(orig[orig.len() - 1].target.key() == key);
                    }
                    assert(on_stack(orig, key));
                }
                return;
            }
            let next = match &top.source {
                Some(src) => Frame {
                    target: src.dependencies[k].clone(),
                    phase: Phase::CheckCache,
                    source: None,
                    next_dep: 0,
                },
                None => {
                    self.stack.push(top);
                    self.failure = Some(DescribeError::CyclicDependency);
                    proof {
                        assert(self.stack@ =~= s0);
                    }
                    return;
                },
            };
            self.stack.push(top);
            self.stack.push(next);
            proof {
                assert(!on_stack(orig, key)) by {
                    if on_stack(orig, key) {
                        let i = choose|i: int| 0 <= i < orig.len() && #[trigger] orig[i].target.key() == key;
                        if i < orig.len() - 1 {
                            assert(orig.drop_last()[i] == orig[i]);
                            assert(on_stack(orig.drop_last(), key));
                        }
                    }
                }
                assert(self.stack@ =~= orig.drop_last().push(top).push(next));
                assert(self.stack@ =~= s0.push(next));
                assert(waits_for(s0[n - 1], next));
                assert forall|i: int| 0 <= i < self.stack@.len() - 1 implies waits_for(
                    #[trigger] self.stack@[i],
                    self.stack@[i + 1],
                ) by {
                    if i < n - 1 {
                        assert(waits_for(s0[i], s0[i + 1]));
                    }
                }
                assert forall|i: int| 0 <= i < self.stack@.len() implies frame_ok(#[trigger] self.stack@[i], d) by {
                    if i < n {
                        assert(frame_ok(s0[i], d));
                    }
                }
                assert forall|i: int| 0 < i < self.stack@.len() implies !is_reserved_address(
                    #[trigger] self.stack@[i].target.address@,
                ) by {
                    if i < n {
                        assert(!is_reserved_address(s0[i].target.address@));
                    }
                }
            }
            return;
        }
    }
}


impl Walk {
    /// Records the aggregate of the top module, which is now described, and
    /// moves its parent past it.
    fn complete(&mut self, f: FullModuleDescription, Ghost(deps): Ghost<Option<Seq<(Seq<u8>, Seq<char>)>>>)
        requires
            old(self).wf(),
            old(self).failure is None,
            old(self).stack@.len() > 0,
            f.key() == old(self).stack@.last().target.key(),
            deps matches Some(ds) ==> ({
                let t = old(self).stack@.last();
                t.phase == Phase::Rounds && ds == keys_of(t.source->Some_0.dependencies@)
            }),
        ensures
            final(self).order@ == old(self).order@.push(deps),
            final(self).wf(),
            final(self).root == old(self).root,
            final(self).developer == old(self).developer,
            final(self).described@ == old(self).described@.push(f),
            old(self).stack@.len() == 1 ==> final(self).finished(),
            after_completion(old(self).stack@, old(self).described@.push(f), *final(self)),
    {
        let ghost s0 = self.stack@;
        let ghost d0 = self.described@;
        let ghost fv = f;
        let n = self.stack.len();
        let _ = self.stack.pop();
        self.described.push(f);
        let ghost d = self.described@;
        let ghost o0 = self.order@;
        self.order = Ghost(self.order@.push(deps));
        proof {
            let o = self.order@;
            assert(frame_ok(s0[n - 1], d0));
            assert forall|i: int, k: int|
                0 <= i < d.len() && o[i] is Some && 0 <= k < o[i]->Some_0.len()
                    && !is_reserved_address(#[trigger] o[i]->Some_0[k].0) implies exists|j: int|
                    0 <= j < i && #[trigger] d[j].key() == o[i]->Some_0[k] by {
                if i < d0.len() {
                    assert(o[i] == o0[i]);
                    let j = choose|j: int| 0 <= j < i && #[trigger] d0[j].key() == o0[i]->Some_0[k];
                    assert(d[j] == d0[j]);
                } else {
                    let src = s0[n - 1].source->Some_0;
                    assert(o[i]->Some_0[k] == src.dependencies@[k].key());
                    assert(dep_settled(src, k, d0));
                    let j = choose|j: int| 0 <= j < d0.len() && #[trigger] d0[j].key() == src.dependencies@[k].key();
                    assert(d[j] == d0[j]);
                }
            }
        }
        proof {
            assert(self.stack@ =~= s0.drop_last());
            assert(d == d0.push(fv));
            assert forall|i: int| 0 <= i < self.stack@.len() implies frame_ok(#[trigger] self.stack@[i], d) by {
                assert(frame_ok(s0[i], d0));
                lemma_frame_ok_push(s0[i], d0, fv);
            }
            assert(d.last() == fv);
            if n == 1 {
                assert(s0.last().target.key() == self.root.key());
            }
        }
        if n == 1 {
            return;
        }
        let parent = match self.stack.pop() {
            Some(p) => p,
            None => {
                return;
            },
        };
        let ghost s1 = self.stack@;
        proof {
            assert(s1 =~= s0.subrange(0, n - 2));
            assert(parent == s0[n - 2]);
            assert(waits_for(s0[n - 2], s0[n - 1]));
            assert(frame_ok(s0[n - 2], d0));
        }
        let t = Frame {
            target: parent.target,
            phase: Phase::Dependencies,
            source: parent.source,
            next_dep: parent.next_dep + 1,
        };
        self.stack.push(t);
        proof {
            let src = t.source->Some_0;
            assert(self.stack@ =~= s0.subrange(0, n - 2).push(t));
            assert(d[d.len() - 1].key() == src.dependencies@[parent.next_dep as int].key());
            assert(has_key(d, src.dependencies@[parent.next_dep as int].key()));
            assert(dep_settled(src, parent.next_dep as int, d));
            assert forall|j: int| 0 <= j < t.next_dep implies #[trigger] dep_settled(src, j, d) by {
                if j < parent.next_dep {
                    assert(frame_ok(s0[n - 2], d0));
                    assert(dep_settled(src, j, d0));
                    if has_key(d0, src.dependencies@[j].key()) {
                        lemma_has_key_push(d0, fv, src.dependencies@[j].key());
                    }
                }
            }
            assert(frame_ok(t, d));
            assert forall|i: int| 0 <= i < self.stack@.len() implies frame_ok(#[trigger] self.stack@[i], d) by {
                if i < n - 2 {
                    assert(frame_ok(s0[i], d0));
                    lemma_frame_ok_push(s0[i], d0, fv);
                }
            }
            assert forall|i: int| 0 <= i < self.stack@.len() - 1 implies waits_for(
                #[trigger] self.stack@[i],
                self.stack@[i + 1],
            ) by {
                assert(waits_for(s0[i], s0[i + 1]));
            }
            assert forall|i: int| 0 < i < self.stack@.len() implies !is_reserved_address(
                #[trigger] self.stack@[i].target.address@,
            ) by {
                assert(!is_reserved_address(s0[i].target.address@));
            }
            assert(t == Frame {
                target: s0[n - 2].target,
                phase: Phase::Dependencies,
                source: s0[n - 2].source,
                next_dep: (s0[n - 2].next_dep + 1) as usize,
            });
        }
        self.settle();
    }

    /// Takes in what came of the last action. A walk that has finished or
    /// failed ignores further events.
    pub fn advance(&mut self, event: Event)
        requires
            old(self).wf(),
        ensures
            final(self).wf(),
            final(self).root == old(self).root,
            final(self).developer == old(self).developer,
            // Aggregates are only ever added, and only those that the cache
            // held or that were saved after description.
            match event {
                Event::CacheHit(f) => final(self).described@ == old(self).described@
                    || final(self).described@ == old(self).described@.push(f),
                Event::Persisted(f) => final(self).described@ == old(self).described@
                    || final(self).described@ == old(self).described@.push(f),
                _ => final(self).described@ == old(self).described@,
            },
            old(self).failure is Some || old(self).finished() ==> *final(self) == *old(self),
            // The ghost record of where each aggregate came from grows with it:
            // nothing for a cache hit, the source's dependencies for a module
            // described in this walk.
            final(self).order@ == old(self).order@ || (event is CacheHit && final(self).order@
                == old(self).order@.push(None)) || (event is Persisted && old(self).stack@.len() > 0
                && final(self).order@ == old(self).order@.push(
                Some(keys_of(old(self).stack@.last().source->Some_0.dependencies@)),
            )),
            // A module found in the cache is not described again: the walk
            // finishes, or its parent moves on to its next pending dependency.
            ({
                let s = old(self).stack@;
                old(self).failure is None && s.len() > 0 && s.last().phase == Phase::CheckCache
                    ==> match event {
                    Event::CacheHit(f) => if f.key() == s.last().target.key() {
                        final(self).described@ == old(self).described@.push(f) && after_completion(
                            s,
                            old(self).described@.push(f),
                            *final(self),
                        )
                    } else {
                        final(self).failure == Some(DescribeError::UnexpectedEvent)
                    },
                    Event::CacheMiss => final(self).failure is None && final(self).stack@.len()
                        == s.len() && final(self).stack@.last().phase == Phase::NeedsSource,
                    Event::Failure(e) => final(self).failure == Some(e),
                    _ => final(self).failure == Some(DescribeError::UnexpectedEvent),
                }
            }),
            // A fetched source starts the scan of the module's dependencies.
            ({
                let s = old(self).stack@;
                old(self).failure is None && s.len() > 0 && s.last().phase == Phase::NeedsSource
                    ==> match event {
                    Event::SourceReady(src) => if src.id.key() == s.last().target.key() {
                        final(self).described@ == old(self).described@ && scan_outcome(
                            s.drop_last().push(
                                Frame {
                                    target: s.last().target,
                                    phase: Phase::Dependencies,
                                    source: Some(src),
                                    next_dep: 0,
                                },
                            ),
                            old(self).described@,
                            final(self).failure,
                            final(self).stack@,
                        )
                    } else {
                        final(self).failure == Some(DescribeError::UnexpectedEvent)
                    },
                    Event::Failure(e) => final(self).failure == Some(e),
                    _ => final(self).failure == Some(DescribeError::UnexpectedEvent),
                }
            }),
            // A saved description completes the module in flight.
            ({
                let s = old(self).stack@;
                old(self).failure is None && s.len() > 0 && s.last().phase == Phase::Rounds
                    ==> match event {
                    Event::Persisted(f) => if f.key() == s.last().target.key() {
                        final(self).described@ == old(self).described@.push(f) && after_completion(
                            s,
                            old(self).described@.push(f),
                            *final(self),
                        )
                    } else {
                        final(self).failure == Some(DescribeError::UnexpectedEvent)
                    },
                    Event::Failure(e) => final(self).failure == Some(e),
                    _ => final(self).failure == Some(DescribeError::UnexpectedEvent),
                }
            }),
    {
        if self.failure.is_some() {
            return;
        }
        let n = self.stack.len();
        if n == 0 {
            return;
        }
        let phase = self.stack[n - 1].phase;
        match event {
            Event::CacheHit(f) => {
                if phase == Phase::CheckCache && same_module(&f.module.id, &self.stack[n - 1].target) {
                    self.complete(f, Ghost(None));
                } else {
                    self.failure = Some(DescribeError::UnexpectedEvent);
                }
            },
            Event::CacheMiss => {
                if phase == Phase::CheckCache {
                    let ghost s0 = self.stack@;
                    let top = match self.stack.pop() {
                        Some(t) => t,
                        None => {
                            return;
                        },
                    };
                    let t = Frame { target: top.target, phase: Phase::NeedsSource, source: None, next_dep: 0 };
                    self.stack.push(t);
                    proof {
                        assert(self.stack@ =~= s0.drop_last().push(t));
                        assert forall|i: int| 0 <= i < self.stack@.len() implies frame_ok(
                            #[trigger] self.stack@[i],
                            self.described@,
                        ) by {
                            if i < n - 1 {
                                assert(frame_ok(s0[i], self.described@));
                            }
                        }
                        assert forall|i: int| 0 <= i < self.stack@.len() - 1 implies waits_for(
                            #[trigger] self.stack@[i],
                            self.stack@[i + 1],
                        ) by {
                            assert(waits_for(s0[i], s0[i + 1]));
                        }
                        assert forall|i: int| 0 < i < self.stack@.len() implies !is_reserved_address(
                            #[trigger] self.stack@[i].target.address@,
                        ) by {
                            assert(!is_reserved_address(s0[i].target.address@));
                        }
                    }
                } else {
                    self.failure = Some(DescribeError::UnexpectedEvent);
                }
            },
            Event::SourceReady(src) => {
                if phase == Phase::NeedsSource && same_module(&src.id, &self.stack[n - 1].target) {
                    let ghost s0 = self.stack@;
                    let top = match self.stack.pop() {
                        Some(t) => t,
                        None => {
                            return;
                        },
                    };
                    let t = Frame {
                        target: top.target,
                        phase: Phase::Dependencies,
                        source: Some(src),
                        next_dep: 0,
                    };
                    self.stack.push(t);
                    proof {
                        assert(self.stack@ =~= s0.drop_last().push(t));
                        assert(frame_ok(t, self.described@));
                        assert forall|i: int| 0 <= i < self.stack@.len() implies frame_ok(
                            #[trigger] self.stack@[i],
                            self.described@,
                        ) by {
                            if i < n - 1 {
                                assert(frame_ok(s0[i], self.described@));
                            }
                        }
                        assert forall|i: int| 0 <= i < self.stack@.len() - 1 implies waits_for(
                            #[trigger] self.stack@[i],
                            self.stack@[i + 1],
                        ) by {
                            assert(waits_for(s0[i], s0[i + 1]));
                        }
                        assert forall|i: int| 0 < i < self.stack@.len() implies !is_reserved_address(
                            #[trigger] self.stack@[i].target.address@,
                        ) by {
                            assert(!is_reserved_address(s0[i].target.address@));
                        }
                    }
                    self.settle();
                } else {
                    self.failure = Some(DescribeError::UnexpectedEvent);
                }
            },
            Event::Persisted(f) => {
                if phase == Phase::Rounds && same_module(&f.module.id, &self.stack[n - 1].target) {
                    let ghost top = self.stack@[n - 1];
                    self.complete(f, Ghost(Some(keys_of(top.source->Some_0.dependencies@))));
                } else {
                    self.failure = Some(DescribeError::UnexpectedEvent);
                }
            },
            Event::Failure(e) => {
                self.failure = Some(e);
            },
        }
    }
}


impl Walk {
    /// The job for the top frame, whose dependencies are all described.
    fn describe_job(&self) -> (r: Action)
        requires
            self.wf(),
            self.failure is None,
            self.stack@.len() > 0,
            self.stack@.last().phase == Phase::Rounds,
        ensures
            match r {
                Action::Describe(job) => {
                    let top = self.stack@.last();
                    let src = top.source->Some_0;
                    &&& job.target == top.target
                    &&& keys_of(job.dependencies@) == unreserved(keys_of(src.dependencies@))
                    &&& exists|ds: Seq<FullModuleDescription>|
                        {
                            &&& ds.len() == job.dependencies@.len()
                            &&& forall|j: int|
                                0 <= j < ds.len() ==> self.described@.contains(#[trigger] ds[j])
                                    && ds[j].key() == job.dependencies@[j].key()
                            &&& conversation_view(job.conversation@) == opening(
                                self.developer@,
                                ds,
                                src.source@,
                            )
                        }
                },
                _ => false,
            },
    {
        let n = self.stack.len();
        let top = &self.stack[n - 1];
        let ghost d = self.described@;
        proof {
            assert(frame_ok(self.stack@[n - 1], d));
        }
        let src = match &top.source {
            Some(src) => src,
            None => {
                return Action::Failed(DescribeError::UnexpectedEvent);
            },
        };
        let mut picks: Vec<usize> = Vec::new();
        let mut dependencies: Vec<ModuleId> = Vec::new();
        let mut k: usize = 0;
        while k < src.dependencies.len()
            invariant
                k <= src.dependencies.len(),
                src.dependencies.len() == top.next_dep,
                forall|j: int| 0 <= j < top.next_dep ==> #[trigger] dep_settled(*src, j, d),
                d == self.described@,
                picks@.len() == dependencies@.len(),
                forall|j: int| 0 <= j < picks.len() ==> picks@[j] < self.described.len(),
                forall|j: int|
                    0 <= j < picks.len() ==> #[trigger] d[picks@[j] as int].key()
                        == dependencies@[j].key(),
                keys_of(dependencies@) == unreserved(keys_of(src.dependencies@.subrange(0, k as int))),
            decreases src.dependencies.len() - k,
        {
            let dep = &src.dependencies[k];
            proof {
                assert(keys_of(src.dependencies@.subrange(0, k + 1)).drop_last() =~= keys_of(
                    src.dependencies@.subrange(0, k as int),
                ));
                assert(keys_of(src.dependencies@.subrange(0, k + 1)).last() == dep.key());
                assert(dep_settled(*src, k as int, d));
            }
            if !is_reserved(dep) {
                match self.find_described(dep) {
                    Some(i) => {
                        picks.push(i);
                        dependencies.push(dep.clone());
                        assert(keys_of(dependencies@) =~= unreserved(
                            keys_of(src.dependencies@.subrange(0, k as int)),
                        ).push(dep.key()));
                    },
                    None => {
                        return Action::Failed(DescribeError::UnexpectedEvent);
                    },
                }
            }
            k = k + 1;
        }
        assert(src.dependencies@.subrange(0, k as int) =~= src.dependencies@);
        let conversation = opening_conversation(
            self.developer.as_str(),
            &self.described,
            &picks,
            src.source.as_str(),
        );
        proof {
            let ds = picked(d, picks@);
            assert forall|j: int| 0 <= j < ds.len() implies self.described@.contains(#[trigger] ds[j])
                && ds[j].key() == dependencies@[j].key() by {
                assert(ds[j] == d[picks@[j] as int]);
            }
        }
        Action::Describe(DescribeJob { target: top.target.clone(), dependencies, conversation })
    }

    /// What to do next.
    pub fn next_action(&self) -> (r: Action)
        requires
            self.wf(),
        ensures
            match self.failure {
                Some(e) => r == Action::Failed(e),
                None => if self.stack@.len() == 0 {
                    r is Finished
                } else {
                    let top = self.stack@.last();
                    match top.phase {
                        Phase::CheckCache => r == Action::Lookup(top.target),
                        Phase::NeedsSource => r == Action::FetchSource(top.target),
                        _ => r is Describe,
                    }
                },
            },
            // The reserved framework packages are never a target of their own,
            // unless they were the module requested.
            match r {
                Action::Lookup(id) => id.key() == self.root.key() || !is_reserved_address(id.address@),
                Action::FetchSource(id) => id.key() == self.root.key() || !is_reserved_address(
                    id.address@,
                ),
                Action::Describe(job) => job.target.key() == self.root.key() || !is_reserved_address(
                    job.target.address@,
                ),
                _ => true,
            },
            // A module is looked up or described only while it has no
            // aggregate yet: within a walk its rounds run at most once.
            match r {
                Action::Lookup(id) => !has_key(self.described@, id.key()),
                Action::FetchSource(id) => !has_key(self.described@, id.key()),
                Action::Describe(job) => !has_key(self.described@, job.target.key()),
                _ => true,
            },
            // A module is described only once every dependency outside the
            // reserved packages has its aggregate, from the cache or saved.
            match r {
                Action::Describe(job) => {
                    let src = self.stack@.last().source->Some_0;
                    &&& job.target == self.stack@.last().target
                    &&& src.id.key() == job.target.key()
                    &&& keys_of(job.dependencies@) == unreserved(keys_of(src.dependencies@))
                    &&& forall|k: int|
                        0 <= k < src.dependencies@.len() && !is_reserved_address(
                            src.dependencies@[k].address@,
                        ) ==> #[trigger] has_key(self.described@, src.dependencies@[k].key())
                    &&& exists|ds: Seq<FullModuleDescription>|
                        {
                            &&& ds.len() == job.dependencies@.len()
                            &&& forall|j: int|
                                0 <= j < ds.len() ==> self.described@.contains(#[trigger] ds[j])
                                    && ds[j].key() == job.dependencies@[j].key()
                            &&& conversation_view(job.conversation@) == opening(
                                self.developer@,
                                ds,
                                src.source@,
                            )
                        }
                },
                _ => true,
            },
    {
        if let Some(e) = self.failure {
            return Action::Failed(e);
        }
        let n = self.stack.len();
        if n == 0 {
            return Action::Finished;
        }
        proof {
            assert(frame_ok(self.stack@[n - 1], self.described@));
            assert(!has_key(self.described@, self.stack@[n - 1].target.key()));
            if n > 1 {
                assert(!is_reserved_address(self.stack@[n - 1].target.address@));
            }
        }
        match self.stack[n - 1].phase {
            Phase::CheckCache => Action::Lookup(self.stack[n - 1].target.clone()),
            Phase::NeedsSource => Action::FetchSource(self.stack[n - 1].target.clone()),
            _ => {
                let r = self.describe_job();
                proof {
                    let src = self.stack@.last().source->Some_0;
                    assert forall|k: int|
                        0 <= k < src.dependencies@.len() && !is_reserved_address(
                            src.dependencies@[k].address@,
                        ) implies #[trigger] has_key(self.described@, src.dependencies@[k].key()) by {
                        assert(dep_settled(src, k, self.described@));
                    }
                }
                r
            },
        }
    }

    /// The aggregate of the requested module, once the walk has finished.
    pub fn result(&self) -> (r: Option<&FullModuleDescription>)
        requires
            self.wf(),
        ensures
            committed_in_order(self.described@, self.order@),
            match r {
                Some(f) => self.finished() && *f == self.described@.last() && f.key() == self.root.key(),
                None => !self.finished(),
            },
    {
        if self.failure.is_none() && self.stack.len() == 0 {
            let n = self.described.len();
            Some(&self.described[n - 1])
        } else {
            None
        }
    }
}

} // verus!
