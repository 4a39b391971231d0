//! IP address literals: the textual grammar Rust's `IpAddr: FromStr` accepts, the canonical
//! rendering `Display` produces, and the public-unicast classification the rule model relies on.

use crate::text::{dec_text, hex_text, join_seq, lemma_split_nonempty, push_decimal, push_hex, split_seq};
use vstd::prelude::*;
use vstd::string::*;

verus! {

/// An IPv4 or IPv6 address by its network-order octets.
#[derive(Clone, Copy, Debug, PartialEq, Eq, Hash)]
pub enum IpAddr {
    V4([u8; 4]),
    V6([u8; 16]),
}

impl IpAddr {
    pub open spec fn octet_seq(self) -> Seq<u8> {
        match self {
            IpAddr::V4(a) => a@,
            IpAddr::V6(a) => a@,
        }
    }
}

/// Two addresses are the same family and the same octets.
pub fn ip_eq(a: &IpAddr, b: &IpAddr) -> (r: bool)
    ensures
        r == (*a == *b),
{
    match (*a, *b) {
        (IpAddr::V4(x), IpAddr::V4(y)) => {
            let mut i: usize = 0;
            while i < 4
                invariant
                    i <= 4,
                    *a == IpAddr::V4(x),
                    *b == IpAddr::V4(y),
                    forall|j: int| 0 <= j < i ==> x@[j] == y@[j],
                decreases 4 - i,
            {
                if x[i] != y[i] {
                    assert(*a != *b) by {
                        if *a == *b {
                            assert(x@ == y@);
                        }
                    }
                    return false;
                }
                i += 1;
            }
            assert(x =~= y);
            true
        },
        (IpAddr::V6(x), IpAddr::V6(y)) => {
            let mut i: usize = 0;
            while i < 16
                invariant
                    i <= 16,
                    *a == IpAddr::V6(x),
                    *b == IpAddr::V6(y),
                    forall|j: int| 0 <= j < i ==> x@[j] == y@[j],
                decreases 16 - i,
            {
                if x[i] != y[i] {
                    assert(*a != *b) by {
                        if *a == *b {
                            assert(x@ == y@);
                        }
                    }
                    return false;
                }
                i += 1;
            }
            assert(x =~= y);
            true
        },
        _ => false,
    }
}

// ---------------------------------------------------------------------------------------------
// Grammar
// ---------------------------------------------------------------------------------------------

pub open spec fn is_dec_digit(c: char) -> bool {
    '0' <= c <= '9'
}

pub open spec fn is_hex_digit(c: char) -> bool {
    ||| '0' <= c <= '9'
    ||| 'a' <= c <= 'f'
    ||| 'A' <= c <= 'F'
}

/// The value of one decimal or hexadecimal digit character.
pub open spec fn digit_value(c: char) -> int {
    if '0' <= c <= '9' {
        c as int - 48
    } else if 'a' <= c <= 'f' {
        c as int - 87
    } else {
        c as int - 55
    }
}

/// The number a digit string denotes in `radix`, most significant digit first.
pub open spec fn digits_value(p: Seq<char>, radix: int) -> int
    decreases p.len(),
{
    if p.len() == 0 {
        0
    } else {
        digits_value(p.drop_last(), radix) * radix + digit_value(p.last())
    }
}

/// One dotted-quad component: 1 to 3 decimal digits, no leading zero, at most 255.
pub open spec fn dec_octet(p: Seq<char>) -> Option<u8> {
    if 1 <= p.len() <= 3 && (forall|i: int| 0 <= i < p.len() ==> is_dec_digit(#[trigger] p[i]))
        && !(p.len() > 1 && p[0] == '0') && digits_value(p, 10) <= 255 {
        Some(digits_value(p, 10) as u8)
    } else {
        None
    }
}

/// One IPv6 group: 1 to 4 hexadecimal digits of either case, leading zeros allowed.
pub open spec fn hex_group(p: Seq<char>) -> Option<u16> {
    if 1 <= p.len() <= 4 && (forall|i: int| 0 <= i < p.len() ==> is_hex_digit(#[trigger] p[i])) {
        Some(digits_value(p, 16) as u16)
    } else {
        None
    }
}

/// Every piece an octet, in order; `None` if any piece is not.
pub open spec fn octet_list(pieces: Seq<Seq<char>>) -> Option<Seq<u8>>
    decreases pieces.len(),
{
    if pieces.len() == 0 {
        Some(seq![])
    } else {
        match (octet_list(pieces.drop_last()), dec_octet(pieces.last())) {
            (Some(r), Some(o)) => Some(r.push(o)),
            _ => None,
        }
    }
}

/// Every piece a hex group, in order; `None` if any piece is not.
pub open spec fn hex_list(pieces: Seq<Seq<char>>) -> Option<Seq<u16>>
    decreases pieces.len(),
{
    if pieces.len() == 0 {
        Some(seq![])
    } else {
        match (hex_list(pieces.drop_last()), hex_group(pieces.last())) {
            (Some(r), Some(g)) => Some(r.push(g)),
            _ => None,
        }
    }
}

/// A whole dotted-quad IPv4 text.
pub open spec fn v4_octets(s: Seq<char>) -> Option<Seq<u8>> {
    let pieces = split_seq(s, '.');
    if pieces.len() == 4 {
        octet_list(pieces)
    } else {
        None
    }
}

/// The two IPv6 groups an embedded IPv4 literal stands for.
pub open spec fn v4_groups(o: Seq<u8>) -> Seq<u16> {
    seq![(o[0] as int * 256 + o[1] as int) as u16, (o[2] as int * 256 + o[3] as int) as u16]
}

/// Index of the first `::`, or -1.
pub open spec fn double_colon_from(s: Seq<char>, i: int) -> int
    decreases s.len() - i,
{
    if 0 <= i && i + 1 < s.len() {
        if s[i] == ':' && s[i + 1] == ':' {
            i
        } else {
            double_colon_from(s, i + 1)
        }
    } else {
        -1
    }
}

/// Groups before a `::`: nothing, or colon-separated hex groups.
pub open spec fn head_groups(t: Seq<char>) -> Option<Seq<u16>> {
    if t.len() == 0 {
        Some(seq![])
    } else {
        hex_list(split_seq(t, ':'))
    }
}

/// Groups after a `::`: nothing, or hex groups whose last element may be a dotted quad.
pub open spec fn tail_groups(t: Seq<char>) -> Option<Seq<u16>> {
    if t.len() == 0 {
        Some(seq![])
    } else {
        let ps = split_seq(t, ':');
        match hex_list(ps.drop_last()) {
            None => None,
            Some(init) => match hex_group(ps.last()) {
                Some(g) => Some(init.push(g)),
                None => match v4_octets(ps.last()) {
                    Some(o) => Some(init + v4_groups(o)),
                    None => None,
                },
            },
        }
    }
}

/// The eight groups of a whole IPv6 text: either eight groups (the last two possibly written
/// as a dotted quad) or a `::` standing for at least one zero group between a head and a tail.
pub open spec fn v6_groups(s: Seq<char>) -> Option<Seq<u16>> {
    let p = double_colon_from(s, 0);
    if p >= 0 {
        match (head_groups(s.subrange(0, p)), tail_groups(s.subrange(p + 2, s.len() as int))) {
            (Some(h), Some(t)) => if h.len() + t.len() <= 7 {
                Some(h + Seq::new((8 - h.len() - t.len()) as nat, |i: int| 0u16) + t)
            } else {
                None
            },
            _ => None,
        }
    } else {
        let ps = split_seq(s, ':');
        if ps.len() == 8 {
            hex_list(ps)
        } else if ps.len() == 7 {
            match (hex_list(ps.take(6)), v4_octets(ps[6])) {
                (Some(h), Some(o)) => Some(h + v4_groups(o)),
                _ => None,
            }
        } else {
            None
        }
    }
}

/// Network-order octets of eight groups.
pub open spec fn groups_octets(g: Seq<u16>) -> Seq<u8> {
    Seq::new(16, |i: int| if i % 2 == 0 { (g[i / 2] / 256) as u8 } else { (g[i / 2] % 256) as u8 })
}

/// What `s.parse::<IpAddr>()` yields: a dotted quad first, otherwise an IPv6 text.
pub open spec fn parse_ip_spec(s: Seq<char>) -> Option<IpAddr> {
    match v4_octets(s) {
        Some(o) => Some(IpAddr::V4(spec_v4_array(o))),
        None => match v6_groups(s) {
            Some(g) => Some(IpAddr::V6(spec_v6_array(groups_octets(g)))),
            None => None,
        },
    }
}

pub open spec fn spec_v4_array(o: Seq<u8>) -> [u8; 4] {
    choose|a: [u8; 4]| a@ == o
}

pub open spec fn spec_v6_array(o: Seq<u8>) -> [u8; 16] {
    choose|a: [u8; 16]| a@ == o
}

// ---------------------------------------------------------------------------------------------
// Exec parsing
// ---------------------------------------------------------------------------------------------

/// The characters of a string slice.
pub fn chars_of(s: &str) -> (v: Vec<char>)
    ensures
        v@ == s@,
{
    let len = s.unicode_len();
    let mut v: Vec<char> = Vec::new();
    let mut i: usize = 0;
    while i < len
        invariant
            len == s@.len(),
            i <= len,
            v@ == s@.subrange(0, i as int),
        decreases len - i,
    {
        v.push(s.get_char(i));
        i += 1;
        proof {
            assert(v@ =~= s@.subrange(0, i as int));
        }
    }
    proof {
        assert(s@.subrange(0, len as int) =~= s@);
    }
    v
}

/// Piece boundaries of `v[a..b]` split on `sep`.
pub fn split_bounds(v: &Vec<char>, a: usize, b: usize, sep: char) -> (r: Vec<(usize, usize)>)
    requires
        a <= b <= v@.len(),
    ensures
        r@.len() == split_seq(v@.subrange(a as int, b as int), sep).len(),
        forall|k: int|
            0 <= k < r@.len() ==> {
                &&& a <= (#[trigger] r@[k]).0 <= r@[k].1 <= b
                &&& v@.subrange(r@[k].0 as int, r@[k].1 as int) == split_seq(
                    v@.subrange(a as int, b as int),
                    sep,
                )[k]
            },
{
    let mut r: Vec<(usize, usize)> = Vec::new();
    let mut start: usize = a;
    let mut i: usize = a;
    proof {
        assert(v@.subrange(a as int, a as int) =~= Seq::<char>::empty());
    }
    while i < b
        invariant
            a <= start <= i <= b <= v@.len(),
            split_seq(v@.subrange(a as int, i as int), sep).len() == r@.len() + 1,
            split_seq(v@.subrange(a as int, i as int), sep).last() == v@.subrange(
                start as int,
                i as int,
            ),
            forall|k: int|
                0 <= k < r@.len() ==> {
                    &&& a <= (#[trigger] r@[k]).0 <= r@[k].1 <= i
                    &&& v@.subrange(r@[k].0 as int, r@[k].1 as int) == split_seq(
                        v@.subrange(a as int, i as int),
                        sep,
                    )[k]
                },
        decreases b - i,
    {
        let c = v[i];
        let ghost prefix = v@.subrange(a as int, i as int);
        let ghost next = v@.subrange(a as int, i + 1);
        proof {
            assert(next.drop_last() =~= prefix);
            assert(next.last() == c);
            lemma_split_nonempty(prefix, sep);
        }
        if c == sep {
            r.push((start, i));
            start = i + 1;
            proof {
                assert(v@.subrange(start as int, i + 1) =~= Seq::<char>::empty());
            }
        } else {
            proof {
                assert(v@.subrange(start as int, i + 1) =~= v@.subrange(start as int, i as int).push(
                    c,
                ));
            }
        }
        i = i + 1;
    }
    r.push((start, b));
    r
}

/// `dec_octet` of `v[a..b]`.
pub fn dec_octet_at(v: &Vec<char>, a: usize, b: usize) -> (r: Option<u8>)
    requires
        a <= b <= v@.len(),
    ensures
        r == dec_octet(v@.subrange(a as int, b as int)),
{
    let ghost p = v@.subrange(a as int, b as int);
    if b - a == 0 || b - a > 3 {
        return None;
    }
    if b - a > 1 && v[a] == '0' {
        return None;
    }
    let mut acc: u32 = 0;
    let mut i: usize = a;
    while i < b
        invariant
            a <= i <= b <= v@.len(),
            b - a <= 3,
            p == v@.subrange(a as int, b as int),
            forall|j: int| a <= j < i ==> is_dec_digit(#[trigger] v@[j]),
            acc == digits_value(v@.subrange(a as int, i as int), 10),
            i - a == 0 ==> acc == 0,
            i - a == 1 ==> acc < 10,
            i - a == 2 ==> acc < 100,
            i - a == 3 ==> acc < 1000,
        decreases b - i,
    {
        let c = v[i];
        if !('0' <= c && c <= '9') {
            proof {
                assert(!is_dec_digit(p[i - a]));
            }
            return None;
        }
        proof {
            let q = v@.subrange(a as int, i + 1);
            assert(q.drop_last() =~= v@.subrange(a as int, i as int));
            assert(q.last() == c);
        }
        acc = acc * 10 + (c as u32 - 48);
        i = i + 1;
    }
    proof {
        assert(v@.subrange(a as int, b as int) =~= p);
        assert forall|j: int| 0 <= j < p.len() implies is_dec_digit(#[trigger] p[j]) by {
            assert(p[j] == v@[a + j]);
        }
    }
    if acc > 255 {
        None
    } else {
        Some(acc as u8)
    }
}

/// `hex_group` of `v[a..b]`.
pub fn hex_group_at(v: &Vec<char>, a: usize, b: usize) -> (r: Option<u16>)
    requires
        a <= b <= v@.len(),
    ensures
        r == hex_group(v@.subrange(a as int, b as int)),
{
    let ghost p = v@.subrange(a as int, b as int);
    if b - a == 0 || b - a > 4 {
        return None;
    }
    let mut acc: u32 = 0;
    let mut i: usize = a;
    while i < b
        invariant
            a <= i <= b <= v@.len(),
            b - a <= 4,
            p == v@.subrange(a as int, b as int),
            forall|j: int| a <= j < i ==> is_hex_digit(#[trigger] v@[j]),
            acc == digits_value(v@.subrange(a as int, i as int), 16),
            i - a == 0 ==> acc == 0,
            i - a == 1 ==> acc < 16,
            i - a == 2 ==> acc < 256,
            i - a == 3 ==> acc < 4096,
            i - a == 4 ==> acc < 65536,
        decreases b - i,
    {
        let c = v[i];
        let d: u32 = if '0' <= c && c <= '9' {
            c as u32 - 48
        } else if 'a' <= c && c <= 'f' {
            c as u32 - 87
        } else if 'A' <= c && c <= 'F' {
            c as u32 - 55
        } else {
            proof {
                assert(!is_hex_digit(p[i - a]));
            }
            return None;
        };
        proof {
            let q = v@.subrange(a as int, i + 1);
            assert(q.drop_last() =~= v@.subrange(a as int, i as int));
            assert(q.last() == c);
        }
        acc = acc * 16 + d;
        i = i + 1;
    }
    proof {
        assert(v@.subrange(a as int, b as int) =~= p);
        assert forall|j: int| 0 <= j < p.len() implies is_hex_digit(#[trigger] p[j]) by {
            assert(p[j] == v@[a + j]);
        }
    }
    Some(acc as u16)
}

/// The octets of the dotted quad `v[a..b]`.
pub fn v4_octets_at(v: &Vec<char>, a: usize, b: usize) -> (r: Option<[u8; 4]>)
    requires
        a <= b <= v@.len(),
    ensures
        match v4_octets(v@.subrange(a as int, b as int)) {
            Some(o) => r is Some && r->0@ == o,
            None => r is None,
        },
{
    let bounds = split_bounds(v, a, b, '.');
    let ghost ps = split_seq(v@.subrange(a as int, b as int), '.');
    if bounds.len() != 4 {
        return None;
    }
    let mut out: [u8; 4] = [0u8; 4];
    let mut k: usize = 0;
    while k < 4
        invariant
            bounds@.len() == 4,
            ps.len() == 4,
            ps == split_seq(v@.subrange(a as int, b as int), '.'),
            k <= 4,
            forall|m: int|
                0 <= m < 4 ==> {
                    &&& a <= (#[trigger] bounds@[m]).0 <= bounds@[m].1 <= b
                    &&& v@.subrange(bounds@[m].0 as int, bounds@[m].1 as int) == ps[m]
                },
            b <= v@.len(),
            octet_list(ps.take(k as int)) == Some(out@.take(k as int)),
        decreases 4 - k,
    {
        let (x, y) = bounds[k];
        let o = dec_octet_at(v, x, y);
        proof {
            assert(ps.take(k + 1).drop_last() =~= ps.take(k as int));
            assert(ps.take(k + 1).last() == ps[k as int]);
        }
        match o {
            Some(o) => {
                let ghost before = out@;
                out[k] = o;
                proof {
                    assert(out@.take(k + 1) =~= before.take(k as int).push(o));
                }
            },
            None => {
                proof {
                    lemma_octet_list_none_extends(ps, k as int + 1);
                }
                return None;
            },
        }
        k = k + 1;
    }
    proof {
        assert(ps.take(4) =~= ps);
        assert(out@.take(4) =~= out@);
    }
    Some(out)
}

pub proof fn lemma_octet_list_none_extends(ps: Seq<Seq<char>>, k: int)
    requires
        0 <= k <= ps.len(),
        octet_list(ps.take(k)) is None,
    ensures
        octet_list(ps) is None,
    decreases ps.len() - k,
{
    if k < ps.len() {
        assert(ps.take(k + 1).drop_last() =~= ps.take(k));
        lemma_octet_list_none_extends(ps, k + 1);
    } else {
        assert(ps.take(k) =~= ps);
    }
}

pub proof fn lemma_hex_list_len(ps: Seq<Seq<char>>)
    ensures
        hex_list(ps) matches Some(g) ==> g.len() == ps.len(),
    decreases ps.len(),
{
    if ps.len() > 0 {
        lemma_hex_list_len(ps.drop_last());
    }
}

pub proof fn lemma_v6_groups_len(s: Seq<char>)
    ensures
        v6_groups(s) matches Some(g) ==> g.len() == 8,
{
    let p = double_colon_from(s, 0);
    if p < 0 {
        let ps = split_seq(s, ':');
        lemma_hex_list_len(ps);
        lemma_hex_list_len(ps.take(6));
    }
}

pub proof fn lemma_hex_list_none_extends(ps: Seq<Seq<char>>, k: int)
    requires
        0 <= k <= ps.len(),
        hex_list(ps.take(k)) is None,
    ensures
        hex_list(ps) is None,
    decreases ps.len() - k,
{
    if k < ps.len() {
        assert(ps.take(k + 1).drop_last() =~= ps.take(k));
        lemma_hex_list_none_extends(ps, k + 1);
    } else {
        assert(ps.take(k) =~= ps);
    }
}

/// Hex groups of the first `n` pieces in `bounds`.
fn hex_list_at(v: &Vec<char>, bounds: &Vec<(usize, usize)>, n: usize, ps: Ghost<Seq<Seq<char>>>) -> (r:
    Option<Vec<u16>>)
    requires
        n <= bounds@.len(),
        bounds@.len() == ps@.len(),
        forall|m: int|
            0 <= m < bounds@.len() ==> {
                &&& (#[trigger] bounds@[m]).0 <= bounds@[m].1 <= v@.len()
                &&& v@.subrange(bounds@[m].0 as int, bounds@[m].1 as int) == ps@[m]
            },
    ensures
        match hex_list(ps@.take(n as int)) {
            Some(g) => r is Some && r->0@ == g,
            None => r is None,
        },
{
    let mut out: Vec<u16> = Vec::new();
    let mut k: usize = 0;
    while k < n
        invariant
            n <= bounds@.len(),
            bounds@.len() == ps@.len(),
            forall|m: int|
                0 <= m < bounds@.len() ==> {
                    &&& (#[trigger] bounds@[m]).0 <= bounds@[m].1 <= v@.len()
                    &&& v@.subrange(bounds@[m].0 as int, bounds@[m].1 as int) == ps@[m]
                },
            k <= n,
            hex_list(ps@.take(k as int)) == Some(out@),
        decreases n - k,
    {
        let (x, y) = bounds[k];
        let g = hex_group_at(v, x, y);
        proof {
            assert(ps@.take(k + 1).drop_last() =~= ps@.take(k as int));
            assert(ps@.take(k + 1).last() == ps@[k as int]);
        }
        match g {
            Some(g) => {
                out.push(g);
            },
            None => {
                proof {
                    lemma_hex_list_none_extends(ps@.take(n as int), k as int + 1);
                    assert(ps@.take(n as int).take(k + 1) =~= ps@.take(k + 1));
                }
                return None;
            },
        }
        k = k + 1;
    }
    Some(out)
}

/// The index of the first `::` in `v`.
fn find_double_colon(v: &Vec<char>) -> (r: Option<usize>)
    ensures
        match r {
            Some(p) => p as int == double_colon_from(v@, 0) && p + 1 < v@.len(),
            None => double_colon_from(v@, 0) == -1,
        },
{
    let n = v.len();
    let mut i: usize = 0;
    while n > 0 && i < n - 1
        invariant
            n == v@.len(),
            double_colon_from(v@, i as int) == double_colon_from(v@, 0),
        decreases n - i,
    {
        if v[i] == ':' && v[i + 1] == ':' {
            return Some(i);
        }
        i = i + 1;
    }
    None
}

/// The groups of a head `v[a..b]` (before a `::`).
fn head_groups_at(v: &Vec<char>, a: usize, b: usize) -> (r: Option<Vec<u16>>)
    requires
        a <= b <= v@.len(),
    ensures
        match head_groups(v@.subrange(a as int, b as int)) {
            Some(g) => r is Some && r->0@ == g,
            None => r is None,
        },
{
    if a == b {
        return Some(Vec::new());
    }
    let bounds = split_bounds(v, a, b, ':');
    let ghost ps = split_seq(v@.subrange(a as int, b as int), ':');
    let r = hex_list_at(v, &bounds, bounds.len(), Ghost(ps));
    proof {
        assert(ps.take(ps.len() as int) =~= ps);
    }
    r
}

/// The groups of a tail `v[a..b]` (after a `::`).
fn tail_groups_at(v: &Vec<char>, a: usize, b: usize) -> (r: Option<Vec<u16>>)
    requires
        a <= b <= v@.len(),
    ensures
        match tail_groups(v@.subrange(a as int, b as int)) {
            Some(g) => r is Some && r->0@ == g,
            None => r is None,
        },
{
    if a == b {
        return Some(Vec::new());
    }
    let bounds = split_bounds(v, a, b, ':');
    let ghost ps = split_seq(v@.subrange(a as int, b as int), ':');
    proof {
        lemma_split_nonempty(v@.subrange(a as int, b as int), ':');
    }
    let last = bounds.len() - 1;
    let init = hex_list_at(v, &bounds, last, Ghost(ps));
    proof {
        assert(ps.take(last as int) =~= ps.drop_last());
    }
    let mut init = match init {
        Some(init) => init,
        None => return None,
    };
    let (x, y) = bounds[last];
    match hex_group_at(v, x, y) {
        Some(g) => {
            init.push(g);
            Some(init)
        },
        None => match v4_octets_at(v, x, y) {
            Some(o) => {
                let ghost before = init@;
                init.push((o[0] as u16) * 256 + o[1] as u16);
                init.push((o[2] as u16) * 256 + o[3] as u16);
                proof {
                    assert(init@ =~= before + v4_groups(o@));
                }
                Some(init)
            },
            None => None,
        },
    }
}

/// Eight groups to sixteen network-order octets.
fn groups_to_octets(g: &Vec<u16>) -> (r: [u8; 16])
    requires
        g@.len() == 8,
    ensures
        r@ == groups_octets(g@),
{
    let mut out: [u8; 16] = [0u8; 16];
    let mut k: usize = 0;
    while k < 8
        invariant
            g@.len() == 8,
            k <= 8,
            forall|i: int| 0 <= i < 2 * k ==> out@[i] == #[trigger] groups_octets(g@)[i],
        decreases 8 - k,
    {
        let w = g[k];
        out[2 * k] = (w / 256) as u8;
        out[2 * k + 1] = (w % 256) as u8;
        k = k + 1;
    }
    assert(out@ =~= groups_octets(g@));
    out
}

/// The groups of a whole IPv6 text.
fn v6_groups_of(v: &Vec<char>) -> (r: Option<Vec<u16>>)
    ensures
        match v6_groups(v@) {
            Some(g) => r is Some && r->0@ == g,
            None => r is None,
        },
{
    let n = v.len();
    match find_double_colon(v) {
        Some(p) => {
            let h = head_groups_at(v, 0, p);
            let t = tail_groups_at(v, p + 2, n);
            match (h, t) {
                (Some(h), Some(t)) => {
                    if h.len() > 7 || t.len() > 7 - h.len() {
                        return None;
                    }
                    let mut out = h;
                    let zeros = 8 - out.len() - t.len();
                    let ghost hv = out@;
                    let mut z: usize = 0;
                    while z < zeros
                        invariant
                            z <= zeros,
                            out@ == hv + Seq::new(z as nat, |i: int| 0u16),
                        decreases zeros - z,
                    {
                        out.push(0u16);
                        z = z + 1;
                        proof {
                            assert(out@ =~= hv + Seq::new(z as nat, |i: int| 0u16));
                        }
                    }
                    let mut k: usize = 0;
                    let ghost mid = out@;
                    while k < t.len()
                        invariant
                            k <= t@.len(),
                            out@ == mid + t@.take(k as int),
                        decreases t@.len() - k,
                    {
                        out.push(t[k]);
                        k = k + 1;
                        proof {
                            assert(out@ =~= mid + t@.take(k as int));
                        }
                    }
                    proof {
                        assert(t@.take(t@.len() as int) =~= t@);
                        assert(v@.subrange(p + 2, n as int) == v@.subrange(p + 2, v@.len() as int));
                    }
                    Some(out)
                },
                _ => None,
            }
        },
        None => {
            let bounds = split_bounds(v, 0, n, ':');
            let ghost ps = split_seq(v@, ':');
            proof {
                assert(v@.subrange(0, n as int) =~= v@);
            }
            if bounds.len() == 8 {
                let r = hex_list_at(v, &bounds, 8, Ghost(ps));
                proof {
                    assert(ps.take(8) =~= ps);
                }
                r
            } else if bounds.len() == 7 {
                let h = hex_list_at(v, &bounds, 6, Ghost(ps));
                let (x, y) = bounds[6];
                let o = v4_octets_at(v, x, y);
                match (h, o) {
                    (Some(mut h), Some(o)) => {
                        let ghost before = h@;
                        h.push((o[0] as u16) * 256 + o[1] as u16);
                        h.push((o[2] as u16) * 256 + o[3] as u16);
                        proof {
                            assert(h@ =~= before + v4_groups(o@));
                        }
                        Some(h)
                    },
                    _ => None,
                }
            } else {
                None
            }
        },
    }
}

/// `s.parse::<IpAddr>()`: the whole text must be one address literal, no surrounding space.
pub fn parse_ip(s: &str) -> (r: Option<IpAddr>)
    ensures
        r == parse_ip_spec(s@),
{
    let v = chars_of(s);
    let n = v.len();
    proof {
        assert(v@.subrange(0, n as int) =~= v@);
    }
    match v4_octets_at(&v, 0, n) {
        Some(o) => {
            proof {
                assert(spec_v4_array(o@)@ == o@);
                assert(spec_v4_array(o@) =~= o);
            }
            Some(IpAddr::V4(o))
        },
        None => match v6_groups_of(&v) {
            Some(g) => {
                proof {
                    lemma_v6_groups_len(v@);
                }
                let octets = groups_to_octets(&g);
                proof {
                    assert(spec_v6_array(groups_octets(g@))@ == groups_octets(g@));
                    assert(spec_v6_array(groups_octets(g@)) =~= octets);
                }
                Some(IpAddr::V6(octets))
            },
            None => None,
        },
    }
}


// ---------------------------------------------------------------------------------------------
// Display
// ---------------------------------------------------------------------------------------------

/// Dotted-quad rendering of four octets.
pub open spec fn v4_text(o: Seq<u8>) -> Seq<char> {
    dec_text(o[0] as nat) + seq!['.'] + dec_text(o[1] as nat) + seq!['.'] + dec_text(o[2] as nat)
        + seq!['.'] + dec_text(o[3] as nat)
}

/// The eight 16-bit groups of sixteen octets.
pub open spec fn v6_segments(o: Seq<u8>) -> Seq<int> {
    Seq::new(8, |i: int| o[2 * i] as int * 256 + o[2 * i + 1] as int)
}

/// `::ffff:a.b.c.d`, the IPv4-mapped form.
pub open spec fn is_v4_mapped(o: Seq<u8>) -> bool {
    &&& forall|i: int| 0 <= i < 10 ==> o[i] == 0
    &&& o[10] == 0xff
    &&& o[11] == 0xff
}

/// Scan for the leftmost longest run of zero groups: `(start, len)` of the best run so far.
pub open spec fn zero_run_from(segs: Seq<int>, i: int, cs: int, cl: int, bs: int, bl: int) -> (
    int,
    int,
)
    decreases segs.len() - i,
{
    if i < 0 || i >= segs.len() {
        (bs, bl)
    } else if segs[i] == 0 {
        let ncs = if cl == 0 {
            i
        } else {
            cs
        };
        if cl + 1 > bl {
            zero_run_from(segs, i + 1, ncs, cl + 1, ncs, cl + 1)
        } else {
            zero_run_from(segs, i + 1, ncs, cl + 1, bs, bl)
        }
    } else {
        zero_run_from(segs, i + 1, 0, 0, bs, bl)
    }
}

pub open spec fn hex_join(segs: Seq<int>) -> Seq<char> {
    join_seq(segs.map_values(|g: int| hex_text(g as nat)), seq![':'])
}

/// The canonical IPv6 rendering: `::ffff:` + dotted quad for mapped addresses, otherwise
/// lower-case groups with the leftmost longest run of two or more zero groups as `::`.
pub open spec fn v6_text(o: Seq<u8>) -> Seq<char> {
    if is_v4_mapped(o) {
        seq![':', ':', 'f', 'f', 'f', 'f', ':'] + v4_text(o.subrange(12, 16))
    } else {
        let segs = v6_segments(o);
        let run = zero_run_from(segs, 0, 0, 0, 0, 0);
        if run.1 > 1 {
            hex_join(segs.subrange(0, run.0)) + seq![':', ':'] + hex_join(
                segs.subrange(run.0 + run.1, 8),
            )
        } else {
            hex_join(segs)
        }
    }
}

/// What `ip.to_string()` renders.
pub open spec fn ip_text(ip: IpAddr) -> Seq<char> {
    match ip {
        IpAddr::V4(a) => v4_text(a@),
        IpAddr::V6(a) => v6_text(a@),
    }
}

fn push_v4(out: &mut String, o: &[u8; 4])
    ensures
        final(out)@ == old(out)@ + v4_text(o@),
{
    proof {
        reveal_strlit(".");
    }
    push_decimal(out, o[0] as u64);
    out.append(".");
    push_decimal(out, o[1] as u64);
    out.append(".");
    push_decimal(out, o[2] as u64);
    out.append(".");
    push_decimal(out, o[3] as u64);
    proof {
        assert(final(out)@ =~= old(out)@ + v4_text(o@));
    }
}

/// Append the hex groups `segs[lo..hi]` joined by `:`.
fn push_hex_join(out: &mut String, segs: &Vec<u16>, lo: usize, hi: usize, spec_segs: Ghost<Seq<int>>)
    requires
        lo <= hi <= segs@.len(),
        spec_segs@.len() == segs@.len(),
        forall|i: int| 0 <= i < segs@.len() ==> spec_segs@[i] == segs@[i] as int,
    ensures
        final(out)@ == old(out)@ + hex_join(spec_segs@.subrange(lo as int, hi as int)),
{
    proof {
        reveal_strlit(":");
    }
    let ghost base = old(out)@;
    let mut k: usize = lo;
    proof {
        assert(spec_segs@.subrange(lo as int, lo as int).map_values(|g: int| hex_text(g as nat))
            =~= Seq::<Seq<char>>::empty());
        assert(out@ =~= base + hex_join(spec_segs@.subrange(lo as int, lo as int)));
    }
    while k < hi
        invariant
            lo <= k <= hi <= segs@.len(),
            spec_segs@.len() == segs@.len(),
            forall|i: int| 0 <= i < segs@.len() ==> spec_segs@[i] == segs@[i] as int,
            out@ == base + hex_join(spec_segs@.subrange(lo as int, k as int)),
        decreases hi - k,
    {
        let ghost pre = spec_segs@.subrange(lo as int, k as int).map_values(
            |g: int| hex_text(g as nat),
        );
        let ghost nxt = spec_segs@.subrange(lo as int, k + 1).map_values(
            |g: int| hex_text(g as nat),
        );
        proof {
            assert(nxt.drop_last() =~= pre);
            assert(nxt.last() == hex_text(segs@[k as int] as nat));
        }
        if k > lo {
            out.append(":");
        }
        push_hex(out, segs[k] as u64);
        proof {
            assert(hex_join(spec_segs@.subrange(lo as int, k + 1)) == join_seq(nxt, seq![':']));
            assert(hex_join(spec_segs@.subrange(lo as int, k as int)) == join_seq(pre, seq![':']));
            reveal_strlit(":");
            assert(":"@ =~= seq![':']);
            if k == lo {
                assert(pre.len() == 0);
                assert(nxt.len() == 1);
                assert(join_seq(nxt, seq![':']) == nxt[0]);
            } else {
                assert(join_seq(nxt, seq![':']) == join_seq(pre, seq![':']) + seq![':'] + nxt.last());
            }
            assert(out@ =~= base + hex_join(spec_segs@.subrange(lo as int, k + 1)));
        }
        k = k + 1;
    }
}

fn push_v6(out: &mut String, o: &[u8; 16])
    ensures
        final(out)@ == old(out)@ + v6_text(o@),
{
    proof {
        reveal_strlit("::ffff:");
        reveal_strlit("::");
    }
    let mut mapped = o[10] == 0xff && o[11] == 0xff;
    let mut i: usize = 0;
    while i < 10
        invariant
            i <= 10,
            mapped ==> (o@[10] == 0xff && o@[11] == 0xff && forall|j: int| 0 <= j < i ==> o@[j]
                == 0),
            !mapped ==> !is_v4_mapped(o@),
        decreases 10 - i,
    {
        if o[i] != 0 {
            mapped = false;
        }
        i = i + 1;
    }
    if mapped {
        out.append("::ffff:");
        let tail: [u8; 4] = [o[12], o[13], o[14], o[15]];
        push_v4(out, &tail);
        proof {
            assert(tail@ =~= o@.subrange(12, 16));
            assert(final(out)@ =~= old(out)@ + v6_text(o@));
        }
        return;
    }
    let mut segs: Vec<u16> = Vec::new();
    let ghost spec_segs = v6_segments(o@);
    let mut k: usize = 0;
    while k < 8
        invariant
            k <= 8,
            segs@.len() == k,
            spec_segs == v6_segments(o@),
            forall|j: int| 0 <= j < k ==> spec_segs[j] == segs@[j] as int,
        decreases 8 - k,
    {
        segs.push((o[2 * k] as u16) * 256 + o[2 * k + 1] as u16);
        k = k + 1;
    }
    let mut cs: usize = 0;
    let mut cl: usize = 0;
    let mut bs: usize = 0;
    let mut bl: usize = 0;
    let mut j: usize = 0;
    while j < 8
        invariant
            j <= 8,
            segs@.len() == 8,
            spec_segs.len() == 8,
            forall|m: int| 0 <= m < 8 ==> spec_segs[m] == segs@[m] as int,
            zero_run_from(spec_segs, j as int, cs as int, cl as int, bs as int, bl as int)
                == zero_run_from(spec_segs, 0, 0, 0, 0, 0),
            bs + bl <= j,
            cl > 0 ==> cs + cl == j,
            cl <= j,
        decreases 8 - j,
    {
        if segs[j] == 0 {
            let ncs = if cl == 0 {
                j
            } else {
                cs
            };
            if cl + 1 > bl {
                bs = ncs;
                bl = cl + 1;
            }
            cs = ncs;
            cl = cl + 1;
        } else {
            cs = 0;
            cl = 0;
        }
        j = j + 1;
    }
    if bl > 1 {
        push_hex_join(out, &segs, 0, bs, Ghost(spec_segs));
        out.append("::");
        push_hex_join(out, &segs, bs + bl, 8, Ghost(spec_segs));
        proof {
            assert(final(out)@ =~= old(out)@ + v6_text(o@));
        }
    } else {
        push_hex_join(out, &segs, 0, 8, Ghost(spec_segs));
        proof {
            assert(spec_segs.subrange(0, 8) =~= spec_segs);
        }
    }
}

/// Append the canonical text of `ip`.
pub fn push_ip(out: &mut String, ip: &IpAddr)
    ensures
        final(out)@ == old(out)@ + ip_text(*ip),
{
    match ip {
        IpAddr::V4(o) => push_v4(out, o),
        IpAddr::V6(o) => push_v6(out, o),
    }
}

/// `ip.to_string()`.
pub fn ip_to_string(ip: &IpAddr) -> (r: String)
    ensures
        r@ == ip_text(*ip),
{
    let mut r = String::new();
    push_ip(&mut r, ip);
    proof {
        assert(r@ =~= ip_text(*ip));
    }
    r
}

// ---------------------------------------------------------------------------------------------
// Classification
// ---------------------------------------------------------------------------------------------

/// Public unicast IPv4: not private, loopback, link-local, multicast, unspecified, broadcast,
/// CGNAT (100.64/10), benchmarking (198.18/15), 6to4 relay (192.88.99/24) or class E.
pub open spec fn v4_public(o: Seq<u8>) -> bool {
    let (a, b, c, d) = (o[0], o[1], o[2], o[3]);
    &&& a != 10
    &&& !(a == 172 && 16 <= b <= 31)
    &&& !(a == 192 && b == 168)
    &&& a != 127
    &&& !(a == 169 && b == 254)
    &&& !(224 <= a <= 239)
    &&& !(a == 0 && b == 0 && c == 0 && d == 0)
    &&& !(a == 255 && b == 255 && c == 255 && d == 255)
    &&& !(a == 100 && 64 <= b <= 127)
    &&& !(a == 198 && 18 <= b <= 19)
    &&& !(a == 192 && b == 88 && c == 99)
    &&& a < 240
}

/// Public unicast IPv6: not loopback, unspecified, unique-local (fc00::/7), link-local
/// (fe80::/10), multicast (ff00::/8) or an IPv4-mapped form.
pub open spec fn v6_public(o: Seq<u8>) -> bool {
    &&& !((forall|i: int| 0 <= i < 15 ==> o[i] == 0) && o[15] == 1)
    &&& !(forall|i: int| 0 <= i < 16 ==> o[i] == 0)
    &&& !(0xfc <= o[0] <= 0xfd)
    &&& !(o[0] == 0xfe && 0x80 <= o[1] <= 0xbf)
    &&& o[0] != 0xff
    &&& !is_v4_mapped(o)
}

pub open spec fn is_public_spec(ip: IpAddr) -> bool {
    match ip {
        IpAddr::V4(a) => v4_public(a@),
        IpAddr::V6(a) => v6_public(a@),
    }
}

/// Whether an IP is public unicast, usable as an API host or a proxy endpoint.
pub fn is_public_unreserved(ip: &IpAddr) -> (r: bool)
    ensures
        r == is_public_spec(*ip),
{
    match ip {
        IpAddr::V4(o) => {
            let (a, b, c, d) = (o[0], o[1], o[2], o[3]);
            a != 10 && !(a == 172 && 16 <= b && b <= 31) && !(a == 192 && b == 168) && a != 127
                && !(a == 169 && b == 254) && !(224 <= a && a <= 239) && !(a == 0 && b == 0 && c
                == 0 && d == 0) && !(a == 255 && b == 255 && c == 255 && d == 255) && !(a == 100
                && 64 <= b && b <= 127) && !(a == 198 && 18 <= b && b <= 19) && !(a == 192 && b
                == 88 && c == 99) && a < 240
        },
        IpAddr::V6(o) => {
            let mut zero_prefix = true;
            let mut zero10 = true;
            let mut i: usize = 0;
            while i < 15
                invariant
                    i <= 15,
                    zero_prefix == (forall|j: int| 0 <= j < i ==> o@[j] == 0),
                    zero10 == (forall|j: int| 0 <= j < i && j < 10 ==> o@[j] == 0),
                decreases 15 - i,
            {
                if o[i] != 0 {
                    zero_prefix = false;
                    if i < 10 {
                        zero10 = false;
                    }
                }
                i = i + 1;
            }
            let loopback = zero_prefix && o[15] == 1;
            let unspecified = zero_prefix && o[15] == 0;
            let mapped = zero10 && o[10] == 0xff && o[11] == 0xff;
            proof {
                if unspecified {
                    assert forall|j: int| 0 <= j < 16 implies o@[j] == 0 by {
                        if j < 15 {
                        }
                    }
                }
                if (forall|j: int| 0 <= j < 16 ==> o@[j] == 0) {
                    assert(o@[15] == 0);
                }
            }
            !loopback && !unspecified && !(0xfc <= o[0] && o[0] <= 0xfd) && !(o[0] == 0xfe && 0x80
                <= o[1] && o[1] <= 0xbf) && o[0] != 0xff && !mapped
        },
    }
}

} // verus!
