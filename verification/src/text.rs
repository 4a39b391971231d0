//! Character-level text helpers shared by the DNS and rule-table code: whitespace trimming,
//! separator splitting and decimal/hexadecimal rendering, each with a sequence-level model.

use vstd::prelude::*;
use vstd::string::*;

verus! {

/// Unicode `White_Space`, the set `char::is_whitespace` answers for.
pub open spec fn is_ws(c: char) -> bool {
    let n = c as u32;
    ||| 9 <= n <= 13
    ||| n == 32
    ||| n == 0x85
    ||| n == 0xA0
    ||| n == 0x1680
    ||| 0x2000 <= n <= 0x200A
    ||| n == 0x2028
    ||| n == 0x2029
    ||| n == 0x202F
    ||| n == 0x205F
    ||| n == 0x3000
}

pub fn is_whitespace(c: char) -> (r: bool)
    ensures
        r == is_ws(c),
{
    let n = c as u32;
    (9 <= n && n <= 13) || n == 32 || n == 0x85 || n == 0xA0 || n == 0x1680 || (0x2000 <= n && n
        <= 0x200A) || n == 0x2028 || n == 0x2029 || n == 0x202F || n == 0x205F || n == 0x3000
}

/// First index at or after `i` that is not whitespace (or the end).
pub open spec fn skip_ws_from(s: Seq<char>, i: int) -> int
    decreases s.len() - i,
{
    if 0 <= i < s.len() && is_ws(s[i]) {
        skip_ws_from(s, i + 1)
    } else {
        i
    }
}

/// Last end index at or before `j` (but not before `lo`) that follows a non-whitespace char.
pub open spec fn back_ws_from(s: Seq<char>, j: int, lo: int) -> int
    decreases j - lo,
{
    if lo < j <= s.len() && is_ws(s[j - 1]) {
        back_ws_from(s, j - 1, lo)
    } else {
        j
    }
}

/// `str::trim`: leading and trailing whitespace removed.
pub open spec fn trim_seq(s: Seq<char>) -> Seq<char> {
    let a = skip_ws_from(s, 0);
    s.subrange(a, back_ws_from(s, s.len() as int, a))
}

pub proof fn lemma_skip_ws_bounds(s: Seq<char>, i: int)
    requires
        0 <= i <= s.len(),
    ensures
        i <= skip_ws_from(s, i) <= s.len(),
    decreases s.len() - i,
{
    if i < s.len() && is_ws(s[i]) {
        lemma_skip_ws_bounds(s, i + 1);
    }
}

pub proof fn lemma_back_ws_bounds(s: Seq<char>, j: int, lo: int)
    requires
        0 <= lo <= j <= s.len(),
    ensures
        lo <= back_ws_from(s, j, lo) <= j,
    decreases j - lo,
{
    if lo < j && is_ws(s[j - 1]) {
        lemma_back_ws_bounds(s, j - 1, lo);
    }
}

/// The trimmed text of `s`, as a slice of it.
pub fn trim(s: &str) -> (r: &str)
    ensures
        r@ == trim_seq(s@),
{
    let len = s.unicode_len();
    let mut a: usize = 0;
    while a < len && is_whitespace(s.get_char(a))
        invariant
            len == s@.len(),
            a <= len,
            skip_ws_from(s@, a as int) == skip_ws_from(s@, 0),
        decreases len - a,
    {
        a = a + 1;
    }
    let mut b: usize = len;
    while b > a && is_whitespace(s.get_char(b - 1))
        invariant
            len == s@.len(),
            a <= b <= len,
            a == skip_ws_from(s@, 0),
            back_ws_from(s@, b as int, a as int) == back_ws_from(s@, len as int, a as int),
        decreases b - a,
    {
        b = b - 1;
    }
    s.substring_char(a, b)
}

/// `str::split(sep)`, modelled left to right: the last piece grows until a separator starts a
/// new one. An empty text is one empty piece, as in Rust.
pub open spec fn split_seq(s: Seq<char>, sep: char) -> Seq<Seq<char>>
    decreases s.len(),
{
    if s.len() == 0 {
        seq![Seq::empty()]
    } else {
        let r = split_seq(s.drop_last(), sep);
        if s.last() == sep {
            r.push(Seq::empty())
        } else {
            r.update(r.len() - 1, r.last().push(s.last()))
        }
    }
}

pub proof fn lemma_split_nonempty(s: Seq<char>, sep: char)
    ensures
        split_seq(s, sep).len() >= 1,
    decreases s.len(),
{
    if s.len() > 0 {
        lemma_split_nonempty(s.drop_last(), sep);
    }
}

/// The view of a vector of owned strings.
pub open spec fn strings_view(v: Seq<String>) -> Seq<Seq<char>> {
    v.map_values(|x: String| x@)
}

/// Every piece trimmed, empty pieces dropped.
pub open spec fn nonempty_trimmed(pieces: Seq<Seq<char>>) -> Seq<Seq<char>>
    decreases pieces.len(),
{
    if pieces.len() == 0 {
        seq![]
    } else {
        let r = nonempty_trimmed(pieces.drop_last());
        let t = trim_seq(pieces.last());
        if t.len() == 0 {
            r
        } else {
            r.push(t)
        }
    }
}

/// A comma-separated list as registry values hold it: split on `sep`, trim, drop empties.
pub open spec fn list_items(s: Seq<char>, sep: char) -> Seq<Seq<char>> {
    nonempty_trimmed(split_seq(s, sep))
}

/// Split `s` on `sep`, trim every piece and keep the non-empty ones.
pub fn split_trimmed_nonempty(s: &str, sep: char) -> (out: Vec<String>)
    ensures
        strings_view(out@) == list_items(s@, sep),
{
    let len = s.unicode_len();
    let mut out: Vec<String> = Vec::new();
    let mut start: usize = 0;
    let mut i: usize = 0;
    proof {
        assert(s@.subrange(0, 0) =~= Seq::<char>::empty());
    }
    while i < len
        invariant
            len == s@.len(),
            start <= i <= len,
            split_seq(s@.subrange(0, i as int), sep).len() >= 1,
            split_seq(s@.subrange(0, i as int), sep).last() == s@.subrange(start as int, i as int),
            strings_view(out@) == nonempty_trimmed(
                split_seq(s@.subrange(0, i as int), sep).drop_last(),
            ),
        decreases len - i,
    {
        let c = s.get_char(i);
        let ghost prefix = s@.subrange(0, i as int);
        let ghost next = s@.subrange(0, i + 1);
        proof {
            assert(next.drop_last() =~= prefix);
            assert(next.last() == c);
            lemma_split_nonempty(prefix, sep);
        }
        if c == sep {
            let piece = s.substring_char(start, i);
            let t = trim(piece);
            let ghost before = out@;
            if t.unicode_len() > 0 {
                out.push(t.to_owned());
            }
            proof {
                let r = split_seq(prefix, sep);
                assert(split_seq(next, sep) == r.push(Seq::empty()));
                assert(split_seq(next, sep).drop_last() =~= r);
                assert(r.drop_last().push(r.last()) =~= r);
                assert(r =~= r.drop_last().push(r.last()));
                assert(strings_view(out@) =~= nonempty_trimmed(r));
                assert(s@.subrange(i + 1, i + 1) =~= Seq::<char>::empty());
            }
            start = i + 1;
        } else {
            proof {
                let r = split_seq(prefix, sep);
                let n = split_seq(next, sep);
                assert(n == r.update(r.len() - 1, r.last().push(c)));
                assert(n.drop_last() =~= r.drop_last());
                assert(s@.subrange(start as int, i + 1) =~= s@.subrange(start as int, i as int).push(c));
            }
        }
        i = i + 1;
    }
    let piece = s.substring_char(start, len);
    let t = trim(piece);
    if t.unicode_len() > 0 {
        out.push(t.to_owned());
    }
    proof {
        let r = split_seq(s@, sep);
        assert(s@.subrange(0, len as int) =~= s@);
        lemma_split_nonempty(s@, sep);
        assert(r =~= r.drop_last().push(r.last()));
        assert(strings_view(out@) =~= nonempty_trimmed(r));
    }
    out
}

/// Pieces joined with a separator between neighbours.
pub open spec fn join_seq(items: Seq<Seq<char>>, sep: Seq<char>) -> Seq<char>
    decreases items.len(),
{
    if items.len() == 0 {
        seq![]
    } else if items.len() == 1 {
        items[0]
    } else {
        join_seq(items.drop_last(), sep) + sep + items.last()
    }
}

/// `items.join(sep)`.
pub fn join_strings(items: &Vec<String>, sep: &str) -> (r: String)
    ensures
        r@ == join_seq(strings_view(items@), sep@),
{
    let mut r = String::new();
    let mut i: usize = 0;
    while i < items.len()
        invariant
            i <= items.len(),
            r@ == join_seq(strings_view(items@.subrange(0, i as int)), sep@),
        decreases items.len() - i,
    {
        proof {
            let pre = strings_view(items@.subrange(0, i as int));
            let nxt = strings_view(items@.subrange(0, i + 1));
            assert(nxt.drop_last() =~= pre);
            assert(nxt.last() == items@[i as int]@);
            if i == 0 {
                assert(pre =~= Seq::<Seq<char>>::empty());
                assert(nxt.len() == 1);
            }
        }
        if i > 0 {
            r.append(sep);
        }
        r.append(items[i].as_str());
        proof {
            if i == 0 {
                assert(r@ =~= items@[0]@);
            }
        }
        i = i + 1;
    }
    proof {
        assert(items@.subrange(0, items.len() as int) =~= items@);
    }
    r
}

/// The ASCII digit or lower-case hex letter for `d`.
pub open spec fn digit_char(d: nat) -> char {
    if d < 10 {
        (48 + d) as char
    } else {
        (87 + d) as char
    }
}

/// `n` in base `radix` without leading zeros (`0` is "0"), lower-case letters.
pub open spec fn radix_text(n: nat, radix: nat) -> Seq<char>
    recommends
        2 <= radix <= 16,
    decreases n,
{
    if radix < 2 || n < radix {
        seq![digit_char(n)]
    } else {
        proof {
            vstd::arithmetic::div_mod::lemma_div_decreases(n as int, radix as int);
        }
        radix_text(n / radix, radix).push(digit_char(n % radix))
    }
}

pub open spec fn dec_text(n: nat) -> Seq<char> {
    radix_text(n, 10)
}

pub open spec fn hex_text(n: nat) -> Seq<char> {
    radix_text(n, 16)
}

/// The one-character text for a digit value below 16.
pub fn digit_str(d: u64) -> (r: &'static str)
    requires
        d < 16,
    ensures
        r@ == seq![digit_char(d as nat)],
{
    proof {
        reveal_strlit("0");
        reveal_strlit("1");
        reveal_strlit("2");
        reveal_strlit("3");
        reveal_strlit("4");
        reveal_strlit("5");
        reveal_strlit("6");
        reveal_strlit("7");
        reveal_strlit("8");
        reveal_strlit("9");
        reveal_strlit("a");
        reveal_strlit("b");
        reveal_strlit("c");
        reveal_strlit("d");
        reveal_strlit("e");
        reveal_strlit("f");
    }
    let r = match d {
        0 => "0",
        1 => "1",
        2 => "2",
        3 => "3",
        4 => "4",
        5 => "5",
        6 => "6",
        7 => "7",
        8 => "8",
        9 => "9",
        10 => "a",
        11 => "b",
        12 => "c",
        13 => "d",
        14 => "e",
        _ => "f",
    };
    assert(r@ =~= seq![digit_char(d as nat)]);
    r
}

/// Append `n` in base `radix` to `out`.
pub fn push_radix(out: &mut String, n: u64, radix: u64)
    requires
        2 <= radix <= 16,
    ensures
        final(out)@ == old(out)@ + radix_text(n as nat, radix as nat),
    decreases n,
{
    if n < radix {
        out.append(digit_str(n));
    } else {
        proof {
            vstd::arithmetic::div_mod::lemma_div_decreases(n as int, radix as int);
        }
        push_radix(out, n / radix, radix);
        out.append(digit_str(n % radix));
        proof {
            assert(radix_text(n as nat, radix as nat) == radix_text((n / radix) as nat, radix as nat).push(
                digit_char((n % radix) as nat),
            ));
        }
    }
    proof {
        assert(final(out)@ =~= old(out)@ + radix_text(n as nat, radix as nat));
    }
}

/// Append `n` in decimal.
pub fn push_decimal(out: &mut String, n: u64)
    ensures
        final(out)@ == old(out)@ + dec_text(n as nat),
{
    push_radix(out, n, 10);
}

/// Append `n` in lower-case hexadecimal.
pub fn push_hex(out: &mut String, n: u64)
    ensures
        final(out)@ == old(out)@ + hex_text(n as nat),
{
    push_radix(out, n, 16);
}

/// A decimal rendering reads back as the number it renders.
pub proof fn lemma_dec_text_reads_back(n: nat)
    ensures
        crate::ip::digits_value(dec_text(n), 10) == n,
    decreases n,
{
    let s = dec_text(n);
    if n < 10 {
        assert(s.drop_last() =~= Seq::<char>::empty());
        assert(s.last() == digit_char(n));
        assert((48 + n) as char as int == 48 + n);
        assert(crate::ip::digit_value(s.last()) == n);
        assert(crate::ip::digits_value(s.drop_last(), 10) == 0);
    } else {
        lemma_dec_text_reads_back(n / 10);
        assert(s.drop_last() =~= dec_text(n / 10));
        assert(s.last() == digit_char(n % 10));
        assert((48 + n % 10) as char as int == 48 + n % 10);
        assert(crate::ip::digit_value(s.last()) == n % 10);
        assert(n == (n / 10) * 10 + n % 10) by (nonlinear_arith);
        assert(crate::ip::digits_value(s, 10) == crate::ip::digits_value(s.drop_last(), 10) * 10
            + crate::ip::digit_value(s.last()));
    }
}

/// Different numbers render as different decimal texts.
pub proof fn lemma_dec_text_injective(a: nat, b: nat)
    ensures
        dec_text(a) == dec_text(b) ==> a == b,
{
    lemma_dec_text_reads_back(a);
    lemma_dec_text_reads_back(b);
}
} // verus!
