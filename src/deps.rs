//! Which modules a module must have described before it.
use vstd::prelude::*;
use crate::ids::{is_reserved, is_reserved_address, same_module, ModuleId};

verus! {

/// The identifiers of a list of modules as plain values.
pub open spec fn keys_of(v: Seq<ModuleId>) -> Seq<(Seq<u8>, Seq<char>)> {
    v.map_values(|m: ModuleId| m.key())
}

/// The immediate dependencies named by a module's handles: in order of first
/// appearance, each once, leaving out the module itself and the reserved
/// framework packages.
pub open spec fn resolved(own: (Seq<u8>, Seq<char>), handles: Seq<(Seq<u8>, Seq<char>)>) -> Seq<
    (Seq<u8>, Seq<char>),
>
    decreases handles.len(),
{
    if handles.len() == 0 {
        Seq::empty()
    } else {
        let prev = resolved(own, handles.drop_last());
        let h = handles.last();
        if is_reserved_address(h.0) || h == own || prev.contains(h) {
            prev
        } else {
            prev.push(h)
        }
    }
}

fn position_of(v: &Vec<ModuleId>, id: &ModuleId) -> (r: Option<usize>)
    ensures
        match r {
            Some(i) => i < v.len() && v@[i as int].key() == id.key(),
            None => !keys_of(v@).contains(id.key()),
        },
{
    let mut i: usize = 0;
    while i < v.len()
        invariant
            i <= v.len(),
            forall|k: int| 0 <= k < i ==> v@[k].key() != id.key(),
        decreases v.len() - i,
    {
        if same_module(&v[i], id) {
            return Some(i);
        }
        i = i + 1;
    }
    proof {
        if keys_of(v@).contains(id.key()) {
            let k = choose|k: int| 0 <= k < keys_of(v@).len() && keys_of(v@)[k] == id.key();
            assert(v@[k].key() == id.key());
        }
    }
    None
}

/// Whether `id` is among the modules of `v`.
pub fn contains_module(v: &Vec<ModuleId>, id: &ModuleId) -> (r: bool)
    ensures
        r == keys_of(v@).contains(id.key()),
{
    match position_of(v, id) {
        Some(i) => {
            assert(keys_of(v@)[i as int] == id.key());
            true
        },
        None => false,
    }
}

/// The modules that `own` immediately depends on, given the module handles
/// of its bytecode: ordered, without repeats, without itself and without the
/// reserved framework packages.
pub fn resolve_dependencies(own: &ModuleId, handles: &Vec<ModuleId>) -> (r: Vec<ModuleId>)
    ensures
        keys_of(r@) == resolved(own.key(), keys_of(handles@)),
{
    let mut r: Vec<ModuleId> = Vec::new();
    let mut i: usize = 0;
    while i < handles.len()
        invariant
            i <= handles.len(),
            keys_of(r@) == resolved(own.key(), keys_of(handles@.subrange(0, i as int))),
        decreases handles.len() - i,
    {
        let h = &handles[i];
        proof {
            assert(keys_of(handles@.subrange(0, i + 1)).drop_last() =~= keys_of(
                handles@.subrange(0, i as int),
            ));
            assert(keys_of(handles@.subrange(0, i + 1)).last() == h.key());
        }
        if !is_reserved(h) && !same_module(h, own) && !contains_module(&r, h) {
            r.push(h.clone());
            assert(keys_of(r@) =~= resolved(own.key(), keys_of(handles@.subrange(0, i as int))).push(
                h.key(),
            ));
        }
        i = i + 1;
    }
    assert(handles@.subrange(0, handles.len() as int) =~= handles@);
    r
}

} // verus!
