//! Properties that hold across several calls of the library.
use vstd::prelude::*;
use crate::records::{FullModuleDescription, SecurityLevel};
use crate::reply::{level_in, level_reply, think_close, think_open, without_reasoning, first_index, ReplyError};
use crate::store::{apply_all, apply_op, entry_key, lookup, save_ops, without, StoreOp};
use crate::text::{contains_seq, occurs_at, starts_with_seq};
use crate::ids::{address_digits, address_literal, bytes_of_digits, hex_digit, hex_literal_text, hex_of, hex_value, padded, trim_zeros, valid_identifier};
use crate::rows::row_module;

verus! {

proof fn lemma_without_lookup(s: Seq<FullModuleDescription>, k: ((Seq<u8>, Seq<char>), Seq<char>), j: ((Seq<u8>, Seq<char>), Seq<char>))
    ensures
        lookup(without(s, k), j) == if j == k { None } else { lookup(s, j) },
    decreases s.len(),
{
    if s.len() > 0 {
        lemma_without_lookup(s.drop_last(), k, j);
        let w = without(s.drop_last(), k);
        if entry_key(s.last()) != k {
            assert(w.push(s.last()).drop_last() =~= w);
            assert(w.push(s.last()).last() == s.last());
        }
    }
}

proof fn lemma_without_twice(s: Seq<FullModuleDescription>, k: ((Seq<u8>, Seq<char>), Seq<char>))
    ensures
        without(without(s, k), k) == without(s, k),
    decreases s.len(),
{
    if s.len() > 0 {
        lemma_without_twice(s.drop_last(), k);
        let w = without(s.drop_last(), k);
        if entry_key(s.last()) != k {
            assert(w.push(s.last()).drop_last() =~= w);
        }
    }
}

proof fn lemma_save_state(s: Seq<FullModuleDescription>, f: FullModuleDescription)
    ensures
        apply_all(s, save_ops(f)) == without(s, entry_key(f)).push(f),
{
    let ops = save_ops(f);
    let first = seq![ops[0]];
    assert(ops.drop_last() =~= first);
    assert(first.drop_last() =~= Seq::<StoreOp>::empty());
    assert(apply_all(s, Seq::<StoreOp>::empty()) == s);
    assert(first.last() == ops[0]);
    assert(apply_all(s, first) == apply_op(s, ops[0]));
    assert(ops.last() == StoreOp::Put(f));
    assert(apply_all(s, ops) == apply_op(apply_all(s, first), ops.last()));
}

/// After an aggregate is saved, reading its module on its network gives
/// exactly that aggregate, and every other module reads as before.
pub proof fn lemma_read_after_save(
    s: Seq<FullModuleDescription>,
    f: FullModuleDescription,
    j: ((Seq<u8>, Seq<char>), Seq<char>),
)
    ensures
        lookup(apply_all(s, save_ops(f)), entry_key(f)) == Some(f),
        j != entry_key(f) ==> lookup(apply_all(s, save_ops(f)), j) == lookup(s, j),
{
    lemma_save_state(s, f);
    let w = without(s, entry_key(f));
    assert(w.push(f).drop_last() =~= w);
    lemma_without_lookup(s, entry_key(f), j);
}

/// Saving the same aggregate twice leaves the store as saving it once.
pub proof fn lemma_save_idempotent(s: Seq<FullModuleDescription>, f: FullModuleDescription)
    ensures
        apply_all(apply_all(s, save_ops(f)), save_ops(f)) == apply_all(s, save_ops(f)),
{
    let k = entry_key(f);
    lemma_save_state(s, f);
    lemma_save_state(apply_all(s, save_ops(f)), f);
    let w = without(s, k);
    assert(w.push(f).drop_last() =~= w);
    assert(w.push(f).last() == f);
    assert(without(w.push(f), k) == without(w, k));
    lemma_without_twice(s, k);
}

/// A text that names both "Critical" and "Low" is classified as a critical
/// risk: the keywords are tried in a fixed order of priority.
pub proof fn lemma_critical_outranks_low(s: Seq<char>)
    requires
        contains_seq(s, "Critical"@),
        contains_seq(s, "Low"@),
    ensures
        level_in(s) == Some(SecurityLevel::CriticalRisk),
{
}

/// A reply that names none of the six keywords is a classification failure.
pub proof fn lemma_no_keyword_fails(s: Seq<char>)
    requires
        !starts_with_seq(s, think_open()),
        !contains_seq(s, "Critical"@),
        !contains_seq(s, "High"@),
        !contains_seq(s, "Medium"@),
        !contains_seq(s, "Low"@),
        !contains_seq(s, "Best"@),
        !contains_seq(s, "Unknown"@),
    ensures
        level_reply(s) == Err::<SecurityLevel, ReplyError>(ReplyError::NoKeyword),
{
}

proof fn lemma_no_straddle(s: Seq<char>, l: int, k: int)
    requires
        0 <= k < l,
        l + 8 <= s.len(),
        s.subrange(l, l + 8) == think_close(),
        k + 8 > l,
    ensures
        !occurs_at(s, think_close(), k),
{
    reveal_strlit("</think>");
    let c = think_close();
    if occurs_at(s, c, k) {
        assert(s.subrange(l, l + 8)[0] == s[l]);
        assert(s.subrange(k, k + 8)[l - k] == s[l]);
        assert(c[0] == '<');
        assert(c[1] != '<' && c[2] != '<' && c[3] != '<' && c[4] != '<' && c[5] != '<' && c[6] != '<' && c[7] != '<');
    }
}

/// A reply made of a reasoning block and then `rest` reads as `rest`, when
/// the block holds no closing tag of its own.
pub proof fn lemma_reasoning_stripped(a: Seq<char>, rest: Seq<char>)
    requires
        !contains_seq(think_open() + a, think_close()),
    ensures
        without_reasoning(think_open() + a + think_close() + rest) == Some(rest),
{
    reveal_strlit("<think>");
    reveal_strlit("</think>");
    let oa = think_open() + a;
    let s = oa + think_close() + rest;
    let l = oa.len() as int;
    let c = think_close();
    assert(s.subrange(0, 7) =~= think_open());
    assert(starts_with_seq(s, think_open()));
    assert(s.subrange(l, l + 8) =~= c);
    assert(occurs_at(s, c, l));
    assert forall|k: int| 0 <= k < l implies !occurs_at(s, c, k) by {
        if occurs_at(s, c, k) {
            if k + 8 <= l {
                assert(oa.subrange(k, k + 8) =~= s.subrange(k, k + 8));
                assert(occurs_at(oa, c, k));
            } else {
                lemma_no_straddle(s, l, k);
            }
        }
    }
    assert(contains_seq(s, c));
    let i = first_index(s, c);
    assert(occurs_at(s, c, i) && forall|k: int| 0 <= k < i ==> !occurs_at(s, c, k));
    if i < l {
        assert(!occurs_at(s, c, i));
    }
    if l < i {
        assert(!occurs_at(s, c, l));
    }
    assert(s.skip(l + 8) =~= rest);
}

/// A reply that opens a reasoning block and never closes it cannot be read.
pub proof fn lemma_unclosed_reasoning(a: Seq<char>)
    requires
        !contains_seq(think_open() + a, think_close()),
    ensures
        without_reasoning(think_open() + a) is None,
{
    reveal_strlit("<think>");
    assert((think_open() + a).subrange(0, 7) =~= think_open());
}


proof fn lemma_hex_digit_value(d: nat)
    requires
        d < 16,
    ensures
        hex_value(hex_digit(d)) == Some(d),
{
}

proof fn lemma_hex_of(b: Seq<u8>)
    ensures
        hex_of(b).len() == 2 * b.len(),
        forall|k: int|
            0 <= k < b.len() ==> hex_of(b)[2 * k] == hex_digit((b[k] / 16) as nat) && hex_of(b)[2 * k
                + 1] == hex_digit((b[k] % 16) as nat),
    decreases b.len(),
{
    if b.len() > 0 {
        lemma_hex_of(b.drop_last());
        let h = hex_of(b.drop_last());
        assert forall|k: int| 0 <= k < b.len() implies hex_of(b)[2 * k] == hex_digit((b[k] / 16) as nat)
            && hex_of(b)[2 * k + 1] == hex_digit((b[k] % 16) as nat) by {
            if k < b.len() - 1 {
                assert(b.drop_last()[k] == b[k]);
            }
        }
    }
}

proof fn lemma_trim(s: Seq<char>)
    requires
        s.len() > 0,
    ensures
        1 <= trim_zeros(s).len() <= s.len(),
        Seq::new((s.len() - trim_zeros(s).len()) as nat, |i: int| '0') + trim_zeros(s) == s,
    decreases s.len(),
{
    let t = trim_zeros(s);
    if s[0] == '0' {
        if s.len() == 1 {
            assert(s.skip(1).len() == 0);
            assert(trim_zeros(s) == trim_zeros(s.skip(1)));
            assert(trim_zeros(s.skip(1)) == seq!['0']);
            assert(Seq::new(0, |i: int| '0') + t =~= s);
        } else {
            lemma_trim(s.skip(1));
            let z = Seq::new((s.len() - t.len()) as nat, |i: int| '0');
            let z1 = Seq::new((s.len() - 1 - t.len()) as nat, |i: int| '0');
            assert(z1 + t == s.skip(1));
            assert(z + t =~= seq![s[0]] + (z1 + t));
            assert(seq![s[0]] + s.skip(1) =~= s);
        }
    } else {
        assert(Seq::new(0, |i: int| '0') + t =~= s);
    }
}

/// An address written as its short literal reads back as the same address.
pub proof fn lemma_hex_literal_reads_back(a: Seq<u8>)
    requires
        a.len() == 32,
    ensures
        address_literal(hex_literal_text(a)) == Some(a),
{
    let h = hex_of(a);
    lemma_hex_of(a);
    assert forall|i: int| 0 <= i < h.len() implies #[trigger] hex_value(h[i]) is Some by {
        let k = i / 2;
        if i % 2 == 0 {
            assert(i == 2 * k);
            lemma_hex_digit_value((a[k] / 16) as nat);
        } else {
            assert(i == 2 * k + 1);
            lemma_hex_digit_value((a[k] % 16) as nat);
        }
    }
    lemma_trim(h);
    let t = trim_zeros(h);
    let s = seq!['0', 'x'] + t;
    assert(s.skip(2) =~= t);
    assert(address_digits(t)) by {
        assert forall|i: int| 0 <= i < t.len() implies #[trigger] hex_value(t[i]) is Some by {
            let z = Seq::new((h.len() - t.len()) as nat, |j: int| '0');
            assert((z + t)[z.len() + i] == t[i]);
            assert(h[z.len() + i] == t[i]);
        }
    }
    assert(padded(t) == h);
    assert(bytes_of_digits(h) =~= a) by {
        assert forall|k: int| 0 <= k < 32 implies #[trigger] bytes_of_digits(h)[k] == a[k] by {
            lemma_hex_digit_value((a[k] / 16) as nat);
            lemma_hex_digit_value((a[k] % 16) as nat);
            let x = a[k] as int;
            assert((x / 16) * 16 + x % 16 == x);
        }
    }
}

/// The package id and module name stored for a module read back as that
/// module.
pub proof fn lemma_stored_module_reads_back(a: Seq<u8>, name: Seq<char>)
    requires
        a.len() == 32,
        valid_identifier(name),
    ensures
        row_module(hex_literal_text(a), name) == Ok::<(Seq<u8>, Seq<char>), crate::rows::RowError>((a, name)),
{
    lemma_hex_literal_reads_back(a);
}

} // verus!
