//! The description cache: aggregates keyed by module and network, written
//! only through transactions that apply all of their writes or none.
use vstd::prelude::*;
use crate::ids::{same_module, ModuleId};
use crate::records::{FullModuleDescription, ModuleDescription, StructDescription};

verus! {

/// The key of a stored aggregate: the module and the network.
pub open spec fn entry_key(f: FullModuleDescription) -> ((Seq<u8>, Seq<char>), Seq<char>) {
    (f.module.id.key(), f.module.network@)
}

/// The aggregate stored last under `key`, if any.
pub open spec fn lookup(s: Seq<FullModuleDescription>, key: ((Seq<u8>, Seq<char>), Seq<char>)) -> Option<
    FullModuleDescription,
>
    decreases s.len(),
{
    if s.len() == 0 {
        None
    } else if entry_key(s.last()) == key {
        Some(s.last())
    } else {
        lookup(s.drop_last(), key)
    }
}

/// `s` without the aggregates stored under `key`.
pub open spec fn without(s: Seq<FullModuleDescription>, key: ((Seq<u8>, Seq<char>), Seq<char>)) -> Seq<
    FullModuleDescription,
>
    decreases s.len(),
{
    if s.len() == 0 {
        s
    } else if entry_key(s.last()) == key {
        without(s.drop_last(), key)
    } else {
        without(s.drop_last(), key).push(s.last())
    }
}

/// One write of a transaction.
pub enum StoreOp {
    /// Delete the module row and all its children.
    Remove { id: ModuleId, network: String },
    /// Insert an aggregate.
    Put(FullModuleDescription),
}

/// The state after one write.
pub open spec fn apply_op(s: Seq<FullModuleDescription>, op: StoreOp) -> Seq<FullModuleDescription> {
    match op {
        StoreOp::Remove { id, network } => without(s, (id.key(), network@)),
        StoreOp::Put(f) => s.push(f),
    }
}

/// The state after the writes of `ops`, in order.
pub open spec fn apply_all(s: Seq<FullModuleDescription>, ops: Seq<StoreOp>) -> Seq<FullModuleDescription>
    decreases ops.len(),
{
    if ops.len() == 0 {
        s
    } else {
        apply_op(apply_all(s, ops.drop_last()), ops.last())
    }
}

/// The writes that save an aggregate: delete what is stored under its key,
/// then insert it.
pub open spec fn save_ops(f: FullModuleDescription) -> Seq<StoreOp> {
    seq![StoreOp::Remove { id: f.module.id, network: f.module.network }, StoreOp::Put(f)]
}

/// The writes that save `f`, in the order a database transaction runs them.
pub fn save_plan(f: FullModuleDescription) -> (r: Vec<StoreOp>)
    ensures
        r@ == save_ops(f),
{
    let id = f.module.id.clone();
    let network = f.module.network.clone();
    let mut r: Vec<StoreOp> = Vec::new();
    r.push(StoreOp::Remove { id, network });
    r.push(StoreOp::Put(f));
    assert(r@ =~= save_ops(f));
    r
}

/// Stored descriptions.
pub struct DescriptionStore {
    pub entries: Vec<FullModuleDescription>,
}

/// Every aggregate of `s` is consistent.
pub open spec fn all_consistent(s: Seq<FullModuleDescription>) -> bool {
    forall|i: int| 0 <= i < s.len() ==> (#[trigger] s[i]).consistent()
}

/// Every aggregate that `ops` inserts is consistent.
pub open spec fn ops_consistent(ops: Seq<StoreOp>) -> bool {
    forall|i: int| 0 <= i < ops.len() ==> match #[trigger] ops[i] {
        StoreOp::Put(f) => f.consistent(),
        _ => true,
    }
}

proof fn lemma_without_consistent(s: Seq<FullModuleDescription>, k: ((Seq<u8>, Seq<char>), Seq<char>))
    requires
        all_consistent(s),
    ensures
        all_consistent(without(s, k)),
    decreases s.len(),
{
    if s.len() > 0 {
        assert(all_consistent(s.drop_last())) by {
            assert forall|i: int| 0 <= i < s.drop_last().len() implies (#[trigger] s.drop_last()[i]).consistent() by {
                assert(s.drop_last()[i] == s[i]);
            }
        }
        lemma_without_consistent(s.drop_last(), k);
        let w = without(s.drop_last(), k);
        assert(s.last() == s[s.len() - 1]);
        assert forall|i: int| 0 <= i < w.push(s.last()).len() implies (#[trigger] w.push(s.last())[i]).consistent() by {
            if i < w.len() {
                assert(w.push(s.last())[i] == w[i]);
            }
        }
    }
}

proof fn lemma_apply_all_consistent(s: Seq<FullModuleDescription>, ops: Seq<StoreOp>)
    requires
        all_consistent(s),
        ops_consistent(ops),
    ensures
        all_consistent(apply_all(s, ops)),
    decreases ops.len(),
{
    if ops.len() > 0 {
        assert(ops_consistent(ops.drop_last())) by {
            assert forall|i: int| 0 <= i < ops.drop_last().len() implies match #[trigger] ops.drop_last()[i] {
                StoreOp::Put(f) => f.consistent(),
                _ => true,
            } by {
                assert(ops.drop_last()[i] == ops[i]);
            }
        }
        lemma_apply_all_consistent(s, ops.drop_last());
        let a = apply_all(s, ops.drop_last());
        assert(ops.last() == ops[ops.len() - 1]);
        match ops.last() {
            StoreOp::Remove { id, network } => lemma_without_consistent(a, (id.key(), network@)),
            StoreOp::Put(f) => {
                assert forall|i: int| 0 <= i < a.push(f).len() implies (#[trigger] a.push(f)[i]).consistent() by {
                    if i < a.len() {
                        assert(a.push(f)[i] == a[i]);
                    }
                }
            },
        }
    }
}

/// Writes staged against a store, which it holds until they are committed
/// or rolled back.
pub struct Transaction {
    pub base: DescriptionStore,
    pub ops: Vec<StoreOp>,
}

fn same_key(f: &FullModuleDescription, id: &ModuleId, network: &String) -> (r: bool)
    ensures
        r == (entry_key(*f) == (id.key(), network@)),
{
    same_module(&f.module.id, id) && f.module.network == *network
}

fn remove_key(v: &mut Vec<FullModuleDescription>, id: &ModuleId, network: &String)
    ensures
        final(v)@ == without(old(v)@, (id.key(), network@)),
{
    let ghost o = v@;
    let ghost key = (id.key(), network@);
    let total = v.len();
    let mut i: usize = 0;
    let mut j: usize = 0;
    assert(o.subrange(0, 0) =~= Seq::<FullModuleDescription>::empty());
    assert(o.subrange(0, o.len() as int) =~= o);
    while i < v.len()
        invariant
            o == old(v)@,
            o.len() == total,
            key == (id.key(), network@),
            j <= o.len(),
            v@ == without(o.subrange(0, j as int), key) + o.subrange(j as int, o.len() as int),
            i == without(o.subrange(0, j as int), key).len(),
        decreases v.len() - i,
    {
        let ghost pre = o.subrange(0, j as int);
        let ghost next = o.subrange(0, j + 1);
        proof {
            assert(next.drop_last() =~= pre);
            assert(next.last() == o[j as int]);
            assert(v@[i as int] == o[j as int]);
        }
        let ghost w = without(pre, key);
        let ghost rest = o.subrange(j + 1, o.len() as int);
        assert(o.subrange(j as int, o.len() as int) =~= seq![o[j as int]] + rest);
        assert(v@ =~= w + seq![o[j as int]] + rest);
        if same_key(&v[i], id, network) {
            assert(without(next, key) == w);
            let _ = v.remove(i);
            assert(v@ =~= w + rest);
        } else {
            assert(without(next, key) == w.push(o[j as int]));
            assert(v@ =~= w.push(o[j as int]) + rest);
            i = i + 1;
        }
        j = j + 1;
    }
    assert(o.subrange(j as int, o.len() as int).len() == 0);
    assert(v@ =~= without(o, key)) by {
        assert(o.subrange(0, j as int) =~= o);
    }
}

impl DescriptionStore {
    /// Every stored aggregate is consistent.
    pub open spec fn wf(&self) -> bool {
        all_consistent(self.entries@)
    }

    /// An empty store.
    pub fn new() -> (r: DescriptionStore)
        ensures
            r.entries@.len() == 0,
            r.wf(),
    {
        DescriptionStore { entries: Vec::new() }
    }

    /// The aggregate stored for `id` on `network`, if any.
    pub fn read_full(&self, id: &ModuleId, network: &String) -> (r: Option<&FullModuleDescription>)
        ensures
            match r {
                Some(f) => lookup(self.entries@, (id.key(), network@)) == Some(*f) && (self.wf()
                    ==> f.consistent()),
                None => lookup(self.entries@, (id.key(), network@)) is None,
            },
    {
        let mut i: usize = self.entries.len();
        let ghost key = (id.key(), network@);
        assert(self.entries@.subrange(0, i as int) =~= self.entries@);
        while i > 0
            invariant
                key == (id.key(), network@),
                i <= self.entries.len(),
                lookup(self.entries@, key) == lookup(self.entries@.subrange(0, i as int), key),
            decreases i,
        {
            assert(self.entries@.subrange(0, i as int).drop_last() =~= self.entries@.subrange(0, i - 1));
            assert(self.entries@.subrange(0, i as int).last() == self.entries@[i - 1]);
            if same_key(&self.entries[i - 1], id, network) {
                assert(self.wf() ==> self.entries@[i - 1].consistent());
                return Some(&self.entries[i - 1]);
            }
            i = i - 1;
        }
        None
    }

    /// The module row stored for `id` on `network`, if any.
    pub fn read_module(&self, id: &ModuleId, network: &String) -> (r: Option<&ModuleDescription>)
        ensures
            match r {
                Some(m) => lookup(self.entries@, (id.key(), network@)) matches Some(f) && f.module == *m,
                None => lookup(self.entries@, (id.key(), network@)) is None,
            },
    {
        match self.read_full(id, network) {
            Some(f) => Some(&f.module),
            None => None,
        }
    }

    /// The description of the struct `name` of `id` on `network`, if any.
    pub fn read_struct(&self, id: &ModuleId, network: &String, name: &String) -> (r: Option<&StructDescription>)
        ensures
            match r {
                Some(s) => lookup(self.entries@, (id.key(), network@)) matches Some(f) && f.structs@.contains(*s)
                    && s.struct_name@ == name@,
                None => match lookup(self.entries@, (id.key(), network@)) {
                    Some(f) => forall|k: int| 0 <= k < f.structs@.len() ==> #[trigger] f.structs@[k].struct_name@ != name@,
                    None => true,
                },
            },
    {
        match self.read_full(id, network) {
            Some(f) => {
                let mut k: usize = 0;
                while k < f.structs.len()
                    invariant
                        lookup(self.entries@, (id.key(), network@)) == Some(*f),
                        k <= f.structs.len(),
                        forall|j: int| 0 <= j < k ==> #[trigger] f.structs@[j].struct_name@ != name@,
                    decreases f.structs.len() - k,
                {
                    if f.structs[k].struct_name == *name {
                        assert(f.structs@.contains(f.structs@[k as int]));
                        return Some(&f.structs[k]);
                    }
                    k = k + 1;
                }
                None
            },
            None => None,
        }
    }

    /// Saves an aggregate in one transaction: the module's old aggregate,
    /// children included, is deleted and the new one inserted.
    pub fn save_full(self, f: FullModuleDescription) -> (r: DescriptionStore)
        requires
            self.wf(),
            f.consistent(),
        ensures
            r.entries@ == apply_all(self.entries@, save_ops(f)),
            r.wf(),
    {
        let id = f.module.id.clone();
        let network = f.module.network.clone();
        let mut tx = self.begin();
        tx.remove(id, network);
        tx.put(f);
        assert(tx.ops@ =~= save_ops(f));
        assert(ops_consistent(tx.ops@)) by {
            assert forall|i: int| 0 <= i < tx.ops@.len() implies match #[trigger] tx.ops@[i] {
                StoreOp::Put(g) => g.consistent(),
                _ => true,
            } by {
                if i == 1 {
                    assert(tx.ops@[1] == StoreOp::Put(f));
                }
            }
        }
        tx.commit()
    }

    /// Opens a transaction on the store.
    pub fn begin(self) -> (r: Transaction)
        ensures
            r.base == self,
            self.wf() ==> r.wf(),
            r.ops@.len() == 0,
    {
        Transaction { base: self, ops: Vec::new() }
    }
}

impl Transaction {
    /// The store is consistent and so is every aggregate staged for insertion.
    pub open spec fn wf(&self) -> bool {
        self.base.wf() && ops_consistent(self.ops@)
    }

    /// Stages the deletion of the aggregate of `id` on `network`.
    pub fn remove(&mut self, id: ModuleId, network: String)
        ensures
            final(self).base == old(self).base,
            final(self).ops@ == old(self).ops@.push(StoreOp::Remove { id, network }),
            old(self).wf() ==> final(self).wf(),
    {
        let ghost o = self.ops@;
        self.ops.push(StoreOp::Remove { id, network });
        proof {
            if ops_consistent(o) {
                assert forall|i: int| 0 <= i < self.ops@.len() implies match #[trigger] self.ops@[i] {
                    StoreOp::Put(g) => g.consistent(),
                    _ => true,
                } by {
                    if i < o.len() {
                        assert(self.ops@[i] == o[i]);
                    }
                }
            }
        }
    }

    /// Stages the insertion of an aggregate.
    pub fn put(&mut self, f: FullModuleDescription)
        requires
            f.consistent(),
        ensures
            final(self).base == old(self).base,
            final(self).ops@ == old(self).ops@.push(StoreOp::Put(f)),
            old(self).wf() ==> final(self).wf(),
    {
        let ghost o = self.ops@;
        self.ops.push(StoreOp::Put(f));
        proof {
            if ops_consistent(o) {
                assert forall|i: int| 0 <= i < self.ops@.len() implies match #[trigger] self.ops@[i] {
                    StoreOp::Put(g) => g.consistent(),
                    _ => true,
                } by {
                    if i < o.len() {
                        assert(self.ops@[i] == o[i]);
                    }
                }
            }
        }
    }

    /// Applies every staged write, in order, and hands the store back.
    pub fn commit(self) -> (r: DescriptionStore)
        ensures
            r.entries@ == apply_all(self.base.entries@, self.ops@),
            self.wf() ==> r.wf(),
    {
        proof {
            if self.wf() {
                lemma_apply_all_consistent(self.base.entries@, self.ops@);
            }
        }
        let Transaction { base, ops } = self;
        let mut entries = base.entries;
        let ghost s0 = entries@;
        let ghost all = ops@;
        let mut ops = ops;
        // Writes are applied from the front; reverse once so that popping
        // hands them out in order.
        let mut pending: Vec<StoreOp> = Vec::new();
        while ops.len() > 0
            invariant
                pending@.len() + ops@.len() == all.len(),
                ops@ == all.subrange(0, ops@.len() as int),
                forall|k: int| 0 <= k < pending@.len() ==> #[trigger] pending@[k] == all[all.len() - 1 - k],
            decreases ops.len(),
        {
            match ops.pop() {
                Some(op) => {
                    pending.push(op);
                    assert(ops@ =~= all.subrange(0, ops@.len() as int));
                },
                None => {},
            }
        }
        let mut done: usize = 0;
        let n = pending.len();
        assert(all.subrange(0, 0) =~= Seq::<StoreOp>::empty());
        while pending.len() > 0
            invariant
                n == all.len(),
                done + pending@.len() == n,
                forall|k: int| 0 <= k < pending@.len() ==> #[trigger] pending@[k] == all[n - 1 - k],
                entries@ == apply_all(s0, all.subrange(0, done as int)),
            decreases pending.len(),
        {
            let ghost step = all.subrange(0, done + 1);
            assert(step.drop_last() =~= all.subrange(0, done as int));
            match pending.pop() {
                Some(op) => {
                    assert(op == all[done as int]);
                    match op {
                        StoreOp::Remove { id, network } => remove_key(&mut entries, &id, &network),
                        StoreOp::Put(f) => entries.push(f),
                    }
                },
                None => {},
            }
            done = done + 1;
        }
        assert(all.subrange(0, n as int) =~= all);
        DescriptionStore { entries }
    }

    /// Drops every staged write and hands the store back as it was.
    pub fn rollback(self) -> (r: DescriptionStore)
        ensures
            r == self.base,
    {
        self.base
    }
}

} // verus!
