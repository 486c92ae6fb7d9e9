//! Module identifiers: a package address and a module name.
use vstd::prelude::*;
use vstd::array::*;
use vstd::string::*;
use crate::text::{chars_of, find_first, occurs_at, contains_seq};

verus! {

/// A bytecode module on the chain, named by its package address and its name.
#[derive(Debug)]
pub struct ModuleId {
    pub address: [u8; 32],
    pub name: String,
}

impl ModuleId {
    /// The identifier as plain values: the address bytes and the name.
    pub open spec fn key(&self) -> (Seq<u8>, Seq<char>) {
        (self.address@, self.name@)
    }
}

impl Clone for ModuleId {
    fn clone(&self) -> (r: Self)
        ensures
            r == *self,
    {
        ModuleId { address: self.address, name: self.name.clone() }
    }
}

/// The address whose bytes are all zero except the last one, which is `last`.
pub open spec fn small_address(last: u8) -> Seq<u8> {
    Seq::new(32, |k: int| if k == 31 { last } else { 0u8 })
}

/// One of the two framework packages (`0x1` and `0x2`), which are trusted and
/// never described.
pub open spec fn is_reserved_address(a: Seq<u8>) -> bool {
    a == small_address(1) || a == small_address(2)
}

/// Whether `id` lives in one of the two reserved framework packages.
pub fn is_reserved(id: &ModuleId) -> (r: bool)
    ensures
        r == is_reserved_address(id.address@),
{
    let mut i: usize = 0;
    while i < 31
        invariant
            i <= 31,
            id.address@.len() == 32,
            forall|k: int| 0 <= k < i ==> id.address@[k] == 0u8,
        decreases 31 - i,
    {
        if id.address[i] != 0 {
            assert(id.address@ != small_address(1) && id.address@ != small_address(2)) by {
                assert(small_address(1)[i as int] == 0u8);
                assert(small_address(2)[i as int] == 0u8);
            }
            return false;
        }
        i = i + 1;
    }
    let last = id.address[31];
    if last == 1 {
        assert(id.address@ =~= small_address(1));
        true
    } else if last == 2 {
        assert(id.address@ =~= small_address(2));
        true
    } else {
        assert(small_address(1)[31] == 1u8);
        assert(small_address(2)[31] == 2u8);
        false
    }
}

/// Whether two identifiers name the same module.
pub fn same_module(a: &ModuleId, b: &ModuleId) -> (r: bool)
    ensures
        r == (a.key() == b.key()),
{
    let mut i: usize = 0;
    while i < 32
        invariant
            i <= 32,
            a.address@.len() == 32,
            b.address@.len() == 32,
            forall|k: int| 0 <= k < i ==> a.address@[k] == b.address@[k],
        decreases 32 - i,
    {
        if a.address[i] != b.address[i] {
            return false;
        }
        i = i + 1;
    }
    assert(a.address@ =~= b.address@);
    a.name == b.name
}

/// The lower-case hexadecimal digit of `d`, for `d < 16`.
pub open spec fn hex_digit(d: nat) -> char {
    if d < 10 {
        ((d + 48) as u8) as char
    } else {
        ((d + 87) as u8) as char
    }
}

/// Two lower-case hexadecimal digits for each byte, most significant first.
pub open spec fn hex_of(b: Seq<u8>) -> Seq<char>
    decreases b.len(),
{
    if b.len() == 0 {
        Seq::empty()
    } else {
        hex_of(b.drop_last()) + seq![
            hex_digit((b.last() / 16) as nat),
            hex_digit((b.last() % 16) as nat),
        ]
    }
}

/// The canonical text of an identifier: `0x`, the full address in hex, `::`,
/// then the name.
pub open spec fn canonical_text(id: (Seq<u8>, Seq<char>)) -> Seq<char> {
    seq!['0', 'x'] + hex_of(id.0) + seq![':', ':'] + id.1
}

fn hex_char(d: u8) -> (r: &'static str)
    requires
        d < 16,
    ensures
        r@ == seq![hex_digit(d as nat)],
{
    let digits = "0123456789abcdef";
    proof {
        reveal_strlit("0123456789abcdef");
    }
    let r = digits.substring_char(d as usize, d as usize + 1);
    assert(r@ =~= seq![hex_digit(d as nat)]);
    r
}

/// Writes `id` in its canonical text form.
pub fn canonical_display(id: &ModuleId) -> (r: String)
    ensures
        r@ == canonical_text(id.key()),
{
    let mut r = String::from_str("0x");
    proof {
        reveal_strlit("0x");
    }
    let mut i: usize = 0;
    while i < 32
        invariant
            i <= 32,
            id.address@.len() == 32,
            r@ == seq!['0', 'x'] + hex_of(id.address@.subrange(0, i as int)),
        decreases 32 - i,
    {
        let b = id.address[i];
        r.append(hex_char(b / 16));
        r.append(hex_char(b % 16));
        proof {
            let pre = id.address@.subrange(0, i as int);
            let next = id.address@.subrange(0, i + 1);
            assert(next.drop_last() =~= pre);
            assert(next.last() == b);
        }
        i = i + 1;
    }
    assert(id.address@.subrange(0, 32) =~= id.address@);
    r.append("::");
    proof {
        reveal_strlit("::");
    }
    r.append(id.name.as_str());
    r
}


/// The value of a hexadecimal digit, either case.
pub open spec fn hex_value(c: char) -> Option<nat> {
    if '0' <= c && c <= '9' {
        Some((c as nat - 48) as nat)
    } else if 'a' <= c && c <= 'f' {
        Some((c as nat - 87) as nat)
    } else if 'A' <= c && c <= 'F' {
        Some((c as nat - 55) as nat)
    } else {
        None
    }
}

/// `d` is at most 64 hexadecimal digits.
pub open spec fn address_digits(d: Seq<char>) -> bool {
    d.len() <= 64 && forall|i: int| 0 <= i < d.len() ==> #[trigger] hex_value(d[i]) is Some
}

/// The digits left-padded with zeros to 64.
pub open spec fn padded(d: Seq<char>) -> Seq<char> {
    Seq::new((64 - d.len()) as nat, |i: int| '0') + d
}

/// The 32 bytes that 64 hexadecimal digits spell, most significant first.
pub open spec fn bytes_of_digits(p: Seq<char>) -> Seq<u8> {
    Seq::new(
        32,
        |k: int| (hex_value(p[2 * k])->Some_0 * 16 + hex_value(p[2 * k + 1])->Some_0) as u8,
    )
}

/// The address a literal such as `0x2` names: `0x` and at most 64
/// hexadecimal digits, short ones taken as left-padded with zeros.
pub open spec fn address_literal(s: Seq<char>) -> Option<Seq<u8>> {
    if s.len() >= 2 && s[0] == '0' && s[1] == 'x' && address_digits(s.skip(2)) {
        Some(bytes_of_digits(padded(s.skip(2))))
    } else {
        None
    }
}

fn hex_value_exec(c: char) -> (r: Option<u8>)
    ensures
        match hex_value(c) {
            Some(v) => r == Some(v as u8) && v < 16,
            None => r is None,
        },
{
    if '0' <= c && c <= '9' {
        Some((c as u32 - 48) as u8)
    } else if 'a' <= c && c <= 'f' {
        Some((c as u32 - 87) as u8)
    } else if 'A' <= c && c <= 'F' {
        Some((c as u32 - 55) as u8)
    } else {
        None
    }
}

/// Reads an address literal.
pub fn parse_address(s: &str) -> (r: Option<[u8; 32]>)
    ensures
        match address_literal(s@) {
            Some(a) => r matches Some(x) && x@ == a,
            None => r is None,
        },
{
    let cs = chars_of(s);
    let n = cs.len();
    if n < 2 || cs[0] != '0' || cs[1] != 'x' || n - 2 > 64 {
        return None;
    }
    let ghost d = s@.skip(2);
    let digits = n - 2;
    let pad = 64 - digits;
    // Check every digit first.
    let mut i: usize = 2;
    while i < n
        invariant
            cs@ == s@,
            n == cs.len(),
            2 <= i <= n,
            d == s@.skip(2),
            forall|j: int| 0 <= j < i - 2 ==> #[trigger] hex_value(d[j]) is Some,
        decreases n - i,
    {
        if hex_value_exec(cs[i]).is_none() {
            assert(hex_value(d[i - 2]) is None);
            return None;
        }
        i = i + 1;
    }
    assert(address_digits(d));
    let ghost p = padded(d);
    let mut out = [0u8; 32];
    let mut k: usize = 0;
    while k < 32
        invariant
            cs@ == s@,
            n == cs.len(),
            d == s@.skip(2),
            p == padded(d),
            address_digits(d),
            digits == d.len(),
            n >= 2,
            digits == n - 2,
            digits <= 64,
            pad == 64 - digits,
            k <= 32,
            out@.len() == 32,
            forall|j: int| 0 <= j < k ==> out@[j] == #[trigger] bytes_of_digits(p)[j],
        decreases 32 - k,
    {
        let hi_pos = 2 * k;
        let lo_pos = 2 * k + 1;
        let hi = if hi_pos < pad { 0u8 } else {
            match hex_value_exec(cs[hi_pos - pad + 2]) { Some(v) => v, None => 0u8 }
        };
        let lo = if lo_pos < pad { 0u8 } else {
            match hex_value_exec(cs[lo_pos - pad + 2]) { Some(v) => v, None => 0u8 }
        };
        proof {
            assert(p[hi_pos as int] == if hi_pos < pad { '0' } else { d[hi_pos - pad] });
            assert(p[lo_pos as int] == if lo_pos < pad { '0' } else { d[lo_pos - pad] });
            if hi_pos >= pad {
                assert(hex_value(d[hi_pos - pad]) is Some);
            }
            if lo_pos >= pad {
                assert(hex_value(d[lo_pos - pad]) is Some);
            }
            assert(hex_value('0') == Some(0nat));
        }
        out.set(k, hi * 16 + lo);
        k = k + 1;
    }
    assert(out@ =~= bytes_of_digits(p));
    Some(out)
}

/// A letter of the English alphabet.
pub open spec fn is_letter(c: char) -> bool {
    ('a' <= c && c <= 'z') || ('A' <= c && c <= 'Z')
}

/// A character that may follow the first one of an identifier.
pub open spec fn is_ident_rest(c: char) -> bool {
    is_letter(c) || ('0' <= c && c <= '9') || c == '_'
}

/// A valid module name: a letter followed by letters, digits and
/// underscores, or an underscore followed by at least one of those.
pub open spec fn valid_identifier(s: Seq<char>) -> bool {
    &&& s.len() > 0
    &&& (is_letter(s[0]) || (s[0] == '_' && s.len() > 1))
    &&& forall|i: int| 1 <= i < s.len() ==> #[trigger] is_ident_rest(s[i])
}

/// Whether `s` is a valid module name.
pub fn is_valid_identifier(s: &Vec<char>) -> (r: bool)
    ensures
        r == valid_identifier(s@),
{
    if s.len() == 0 {
        return false;
    }
    let c = s[0];
    let first_ok = ('a' <= c && c <= 'z') || ('A' <= c && c <= 'Z') || (c == '_' && s.len() > 1);
    if !first_ok {
        return false;
    }
    let mut i: usize = 1;
    while i < s.len()
        invariant
            1 <= i <= s.len(),
            forall|j: int| 1 <= j < i ==> #[trigger] is_ident_rest(s@[j]),
        decreases s.len() - i,
    {
        let c = s[i];
        if !(('a' <= c && c <= 'z') || ('A' <= c && c <= 'Z') || ('0' <= c && c <= '9') || c == '_') {
            assert(!is_ident_rest(s@[i as int]));
            return false;
        }
        i = i + 1;
    }
    true
}

/// The module a text such as `0x2::coin` names: an address literal, `::`,
/// then a valid name (which cannot hold `::`, so the split is at the first).
pub open spec fn module_literal(s: Seq<char>) -> Option<(Seq<u8>, Seq<char>)> {
    if contains_seq(s, seq![':', ':']) {
        let i = choose|i: int| occurs_at(s, seq![':', ':'], i) && forall|k: int| 0 <= k < i ==> !occurs_at(s, seq![':', ':'], k);
        match address_literal(s.subrange(0, i)) {
            Some(a) => if valid_identifier(s.skip(i + 2)) {
                Some((a, s.skip(i + 2)))
            } else {
                None
            },
            None => None,
        }
    } else {
        None
    }
}

/// Reads a module identifier such as `0x2::coin`.
pub fn parse_module_id(s: &str) -> (r: Option<ModuleId>)
    ensures
        match module_literal(s@) {
            Some(m) => r matches Some(id) && id.key() == m,
            None => r is None,
        },
{
    let cs = chars_of(s);
    let sep = vec![':', ':'];
    assert(sep@ =~= seq![':', ':']);
    let n = cs.len();
    match find_first(&cs, &sep) {
        None => None,
        Some(i) => {
            proof {
                let j = choose|j: int| occurs_at(s@, seq![':', ':'], j) && forall|k: int| 0 <= k < j ==> !occurs_at(s@, seq![':', ':'], k);
                if j < i {
                    assert(!occurs_at(s@, seq![':', ':'], j));
                }
                if i < j {
                    assert(!occurs_at(s@, seq![':', ':'], i as int));
                }
                assert(i + 2 <= n);
            }
            let address_text = s.substring_char(0, i);
            let name_text = s.substring_char(i + 2, n);
            let name_chars = chars_of(name_text);
            match parse_address(address_text) {
                None => None,
                Some(address) => {
                    if is_valid_identifier(&name_chars) {
                        Some(ModuleId { address, name: name_text.to_owned() })
                    } else {
                        None
                    }
                },
            }
        },
    }
}


/// Hexadecimal digits without their leading zeros, or `0` when all are zero.
pub open spec fn trim_zeros(s: Seq<char>) -> Seq<char>
    decreases s.len(),
{
    if s.len() == 0 {
        seq!['0']
    } else if s[0] == '0' {
        trim_zeros(s.skip(1))
    } else {
        s
    }
}

/// The short literal of an address: `0x` and its digits without leading zeros.
pub open spec fn hex_literal_text(a: Seq<u8>) -> Seq<char> {
    seq!['0', 'x'] + trim_zeros(hex_of(a))
}

/// Writes the 64 hexadecimal digits of an address.
pub fn address_hex(address: &[u8; 32]) -> (r: String)
    ensures
        r@ == hex_of(address@),
{
    let mut r = String::new();
    let mut i: usize = 0;
    while i < 32
        invariant
            i <= 32,
            address@.len() == 32,
            r@ == hex_of(address@.subrange(0, i as int)),
        decreases 32 - i,
    {
        let b = address[i];
        r.append(hex_char(b / 16));
        r.append(hex_char(b % 16));
        proof {
            let next = address@.subrange(0, i + 1);
            assert(next.drop_last() =~= address@.subrange(0, i as int));
            assert(next.last() == b);
        }
        i = i + 1;
    }
    assert(address@.subrange(0, 32) =~= address@);
    r
}

/// Writes the short literal of an address, as it is stored: `0x2` for the
/// second framework package.
pub fn to_hex_literal(address: &[u8; 32]) -> (r: String)
    ensures
        r@ == hex_literal_text(address@),
        address_literal(r@) == Some(address@),
{
    proof {
        crate::laws::lemma_hex_literal_reads_back(address@);
    }
    let digits = address_hex(address);
    let cs = chars_of(digits.as_str());
    let n = cs.len();
    let mut k: usize = 0;
    assert(cs@.skip(0) =~= cs@);
    while k < n && cs[k] == '0'
        invariant
            cs@ == hex_of(address@),
            n == cs.len(),
            k <= n,
            trim_zeros(cs@) == trim_zeros(cs@.skip(k as int)),
        decreases n - k,
    {
        assert(cs@.skip(k as int).skip(1) =~= cs@.skip(k + 1));
        k = k + 1;
    }
    let mut r = String::from_str("0x");
    proof {
        reveal_strlit("0x");
        reveal_strlit("0");
    }
    if k == n {
        assert(cs@.skip(k as int).len() == 0);
        r.append("0");
    } else {
        r.append(digits.substring_char(k, n));
    }
    assert(r@ =~= hex_literal_text(address@));
    r
}

} // verus!
