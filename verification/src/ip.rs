//! IP addresses and their text, as Rust's standard library writes them
//! (dotted decimal for IPv4; RFC 5952 for IPv6, with `::ffff:a.b.c.d` for
//! IPv4-mapped addresses).

use vstd::prelude::*;

verus! {

/// The digits, in order of value.
pub open spec fn digit_chars() -> Seq<char> {
    "0123456789abcdef"@
}

/// `n` written in base `base` (2 to 16), most significant digit first,
/// with lower-case letters and no leading zeros.
pub open spec fn radix_text(n: nat, base: nat) -> Seq<char>
    decreases n,
{
    if base < 2 || n < base {
        seq![digit_chars()[n as int]]
    } else {
        proof {
            assert(n / base < n) by (nonlinear_arith)
                requires
                    base >= 2,
                    n >= base,
            ;
        }
        radix_text(n / base, base).push(digit_chars()[(n % base) as int])
    }
}

/// Dotted decimal text of an IPv4 address.
pub open spec fn v4_text(o: Seq<u8>) -> Seq<char> {
    radix_text(o[0] as nat, 10) + "."@ + radix_text(o[1] as nat, 10) + "."@ + radix_text(o[2] as nat, 10)
        + "."@ + radix_text(o[3] as nat, 10)
}

/// IPv6 groups in lower-case hexadecimal, separated by colons.
pub open spec fn hex_groups(g: Seq<u16>) -> Seq<char>
    decreases g.len(),
{
    if g.len() == 0 {
        Seq::empty()
    } else if g.len() == 1 {
        radix_text(g[0] as nat, 16)
    } else {
        hex_groups(g.drop_last()) + ":"@ + radix_text(g.last() as nat, 16)
    }
}

/// The number of zero groups in a row from position `i`.
pub open spec fn zero_run(g: Seq<u16>, i: int) -> nat
    decreases g.len() - i,
{
    if i < 0 || i >= g.len() || g[i] != 0 {
        0
    } else {
        1 + zero_run(g, i + 1)
    }
}

/// The longest run of zero groups that starts at or after `i`.
pub open spec fn longest_zero_run(g: Seq<u16>, i: int) -> nat
    decreases g.len() - i,
{
    if i < 0 || i >= g.len() {
        0
    } else {
        let rest = longest_zero_run(g, i + 1);
        if zero_run(g, i) > rest {
            zero_run(g, i)
        } else {
            rest
        }
    }
}

/// The first position at or after `i` where a run of `len` zero groups starts.
pub open spec fn first_run_of(g: Seq<u16>, len: nat, i: int) -> int
    decreases g.len() - i,
{
    if i < 0 || i >= g.len() || zero_run(g, i) == len {
        i
    } else {
        first_run_of(g, len, i + 1)
    }
}

/// An IPv6 address that maps an IPv4 address (`::ffff:a.b.c.d`).
pub open spec fn is_v4_mapped(g: Seq<u16>) -> bool {
    g.len() == 8 && g[0] == 0 && g[1] == 0 && g[2] == 0 && g[3] == 0 && g[4] == 0 && g[5] == 0xffff
}

/// The IPv4 address inside an IPv4-mapped IPv6 address.
pub open spec fn mapped_octets(g: Seq<u16>) -> Seq<u8> {
    seq![(g[6] / 256) as u8, (g[6] % 256) as u8, (g[7] / 256) as u8, (g[7] % 256) as u8]
}

/// Text of an IPv6 address: an IPv4-mapped address as `::ffff:` and the
/// dotted IPv4 address; otherwise the groups in hexadecimal, with the
/// first of the longest runs of two or more zero groups written as `::`.
pub open spec fn v6_text(g: Seq<u16>) -> Seq<char> {
    if is_v4_mapped(g) {
        "::ffff:"@ + v4_text(mapped_octets(g))
    } else {
        let len = longest_zero_run(g, 0);
        if len > 1 {
            let start = first_run_of(g, len, 0);
            hex_groups(g.take(start)) + "::"@ + hex_groups(g.skip(start + len))
        } else {
            hex_groups(g)
        }
    }
}

/// An IP address.
#[derive(Clone, Copy, Debug, PartialEq, Eq)]
pub enum IpAddress {
    /// Four octets, most significant first.
    V4([u8; 4]),
    /// Eight 16-bit groups, most significant first.
    V6([u16; 8]),
}

/// The text of an address.
pub open spec fn ip_text(ip: IpAddress) -> Seq<char> {
    match ip {
        IpAddress::V4(o) => v4_text(o@),
        IpAddress::V6(g) => v6_text(g@),
    }
}

/// Appends `n` in base `base` to `out`.
fn push_radix(out: &mut String, n: u16, base: u16)
    requires
        2 <= base <= 16,
    ensures
        final(out)@ == old(out)@ + radix_text(n as nat, base as nat),
    decreases n,
{
    if n >= base {
        assert(n / base < n) by (nonlinear_arith)
            requires
                base >= 2,
                n >= base,
        ;
        push_radix(out, n / base, base);
    }
    let d = (n % base) as usize;
    let digits = "0123456789abcdef";
    proof {
        reveal_strlit("0123456789abcdef");
    }
    let piece = digits.substring_char(d, d + 1);
    proof {
        assert(piece@ =~= seq![digit_chars()[d as int]]);
    }
    out.append(piece);
    proof {
        if n >= base {
            assert(final(out)@ =~= old(out)@ + radix_text(n as nat, base as nat));
        }
    }
}

/// Appends `n` in decimal to `out`.
pub(crate) fn push_decimal(out: &mut String, n: u16)
    ensures
        final(out)@ == old(out)@ + radix_text(n as nat, 10),
{
    push_radix(out, n, 10);
}

/// Appends the dotted decimal text of `o` to `out`.
fn push_v4(out: &mut String, o: &[u8; 4])
    ensures
        final(out)@ == old(out)@ + v4_text(o@),
{
    let ghost start = out@;
    push_radix(out, o[0] as u16, 10);
    out.append(".");
    push_radix(out, o[1] as u16, 10);
    out.append(".");
    push_radix(out, o[2] as u16, 10);
    out.append(".");
    push_radix(out, o[3] as u16, 10);
    proof {
        assert(out@ =~= start + v4_text(o@));
    }
}

/// Appends the groups `from..to` of `g` in hexadecimal, separated by colons.
fn push_groups(out: &mut String, g: &[u16; 8], from: usize, to: usize)
    requires
        from <= to <= 8,
    ensures
        final(out)@ == old(out)@ + hex_groups(g@.subrange(from as int, to as int)),
{
    let ghost start = out@;
    let mut k = from;
    proof {
        assert(g@.subrange(from as int, from as int) =~= Seq::<u16>::empty());
        assert(out@ =~= start + hex_groups(g@.subrange(from as int, from as int)));
    }
    while k < to
        invariant
            from <= k <= to <= 8,
            g@.len() == 8,
            out@ == start + hex_groups(g@.subrange(from as int, k as int)),
        decreases to - k,
    {
        let ghost before = out@;
        let ghost sub = g@.subrange(from as int, k + 1);
        assert(sub.drop_last() =~= g@.subrange(from as int, k as int));
        if k > from {
            out.append(":");
        }
        push_radix(out, g[k], 16);
        proof {
            if k == from {
                assert(sub.len() == 1);
                assert(out@ =~= start + hex_groups(sub));
            } else {
                assert(out@ =~= start + hex_groups(sub));
            }
        }
        k = k + 1;
    }
}

/// The number of zero groups in a row from position `i`.
fn zero_run_at(g: &[u16; 8], i: usize) -> (r: usize)
    requires
        i <= 8,
    ensures
        r == zero_run(g@, i as int),
{
    let mut j = i;
    while j < 8 && g[j] == 0
        invariant
            i <= j <= 8,
            g@.len() == 8,
            zero_run(g@, i as int) == (j - i) + zero_run(g@, j as int),
        decreases 8 - j,
    {
        j = j + 1;
    }
    j - i
}

/// The longest run of zero groups in `g`.
fn longest_run(g: &[u16; 8]) -> (r: usize)
    ensures
        r == longest_zero_run(g@, 0),
{
    let mut best: usize = 0;
    let mut i: usize = 8;
    while i > 0
        invariant
            i <= 8,
            g@.len() == 8,
            best == longest_zero_run(g@, i as int),
            best <= 8,
        decreases i,
    {
        i = i - 1;
        let r = zero_run_at(g, i);
        proof {
            lemma_zero_run_bound(g@, i as int);
        }
        if r > best {
            best = r;
        }
    }
    best
}

/// A run of zero groups does not run past the end.
proof fn lemma_zero_run_bound(g: Seq<u16>, i: int)
    requires
        0 <= i <= g.len(),
    ensures
        zero_run(g, i) <= g.len() - i,
    decreases g.len() - i,
{
    if i < g.len() {
        lemma_zero_run_bound(g, i + 1);
    }
}

/// The first position where a run of `len` zero groups starts, or 8.
fn first_run(g: &[u16; 8], len: usize) -> (r: usize)
    ensures
        r == first_run_of(g@, len as nat, 0),
        r <= 8,
{
    let mut i: usize = 0;
    while i < 8 && zero_run_at(g, i) != len
        invariant
            i <= 8,
            g@.len() == 8,
            first_run_of(g@, len as nat, 0) == first_run_of(g@, len as nat, i as int),
        decreases 8 - i,
    {
        i = i + 1;
    }
    i
}

/// Appends the text of the IPv6 address `g` to `out`.
fn push_v6(out: &mut String, g: &[u16; 8])
    ensures
        final(out)@ == old(out)@ + v6_text(g@),
{
    let ghost start = out@;
    if g[0] == 0 && g[1] == 0 && g[2] == 0 && g[3] == 0 && g[4] == 0 && g[5] == 0xffff {
        out.append("::ffff:");
        let o: [u8; 4] = [(g[6] / 256) as u8, (g[6] % 256) as u8, (g[7] / 256) as u8, (g[7] % 256) as u8];
        proof {
            assert(o@ =~= mapped_octets(g@));
        }
        push_v4(out, &o);
        proof {
            assert(out@ =~= start + v6_text(g@));
        }
    } else {
        let len = longest_run(g);
        if len > 1 {
            let s = first_run(g, len);
            proof {
                lemma_longest_attained(g@, 0);
                lemma_first_run_fits(g@, len as nat, 0);
            }
            push_groups(out, g, 0, s);
            out.append("::");
            push_groups(out, g, s + len, 8);
            proof {
                assert(g@.take(s as int) =~= g@.subrange(0, s as int));
                assert(g@.skip(s + len) =~= g@.subrange(s + len, 8));
                assert(out@ =~= start + v6_text(g@));
            }
        } else {
            push_groups(out, g, 0, 8);
            proof {
                assert(g@.subrange(0, 8) =~= g@);
            }
        }
    }
}

/// A longest run of zero groups that is not empty starts somewhere.
proof fn lemma_longest_attained(g: Seq<u16>, i: int)
    requires
        0 <= i <= g.len(),
        longest_zero_run(g, i) > 0,
    ensures
        exists|j: int| i <= j < g.len() && zero_run(g, j) == longest_zero_run(g, i),
    decreases g.len() - i,
{
    if zero_run(g, i) > longest_zero_run(g, i + 1) {
        assert(zero_run(g, i) == longest_zero_run(g, i));
    } else {
        lemma_longest_attained(g, i + 1);
    }
}

/// The longest run of zero groups is attained somewhere, and the run found
/// there fits inside the address.
proof fn lemma_first_run_fits(g: Seq<u16>, len: nat, i: int)
    requires
        0 <= i <= g.len(),
        len > 0,
        len == longest_zero_run(g, 0),
        exists|j: int| i <= j < g.len() && zero_run(g, j) == len,
    ensures
        first_run_of(g, len, i) + len <= g.len(),
    decreases g.len() - i,
{
    if zero_run(g, i) == len {
        lemma_zero_run_bound(g, i);
    } else {
        let j = choose|j: int| i <= j < g.len() && zero_run(g, j) == len;
        assert(j != i);
        lemma_first_run_fits(g, len, i + 1);
    }
}

/// The value of a digit character: `0`-`9` and `a`-`f`; -1 for any other.
pub open spec fn digit_value(c: char) -> int {
    if '0' <= c && c <= '9' {
        c as int - '0' as int
    } else if 'a' <= c && c <= 'f' {
        c as int - 'a' as int + 10
    } else {
        -1
    }
}

/// The number that the digits `s` write in base `base`, most significant
/// first.
pub open spec fn digits_value(s: Seq<char>, base: int) -> int
    decreases s.len(),
{
    if s.len() == 0 {
        0
    } else {
        digits_value(s.drop_last(), base) * base + digit_value(s.last())
    }
}

/// Each digit character stands for its own value.
proof fn lemma_digit_chars()
    ensures
        forall|d: int| 0 <= d < 16 ==> #[trigger] digit_value(digit_chars()[d]) == d,
{
    reveal_strlit("0123456789abcdef");
    assert(digit_value(digit_chars()[0]) == 0);
    assert(digit_value(digit_chars()[1]) == 1);
    assert(digit_value(digit_chars()[2]) == 2);
    assert(digit_value(digit_chars()[3]) == 3);
    assert(digit_value(digit_chars()[4]) == 4);
    assert(digit_value(digit_chars()[5]) == 5);
    assert(digit_value(digit_chars()[6]) == 6);
    assert(digit_value(digit_chars()[7]) == 7);
    assert(digit_value(digit_chars()[8]) == 8);
    assert(digit_value(digit_chars()[9]) == 9);
    assert(digit_value(digit_chars()[10]) == 10);
    assert(digit_value(digit_chars()[11]) == 11);
    assert(digit_value(digit_chars()[12]) == 12);
    assert(digit_value(digit_chars()[13]) == 13);
    assert(digit_value(digit_chars()[14]) == 14);
    assert(digit_value(digit_chars()[15]) == 15);
}

/// The text of a number in base 2 to 16 reads back as that number: every
/// character is a digit of the base, and the first is not a zero unless
/// the number is zero.
pub proof fn lemma_radix_text_reads_back(n: nat, base: nat)
    requires
        2 <= base <= 16,
    ensures
        digits_value(radix_text(n, base), base as int) == n,
        radix_text(n, base).len() > 0,
        forall|i: int| 0 <= i < radix_text(n, base).len() ==> 0 <= #[trigger] digit_value(radix_text(n, base)[i]) < base,
        n > 0 ==> digit_value(radix_text(n, base)[0]) != 0,
    decreases n,
{
    lemma_digit_chars();
    if n < base {
        let t = radix_text(n, base);
        assert(t.drop_last() =~= Seq::<char>::empty());
        assert(digit_value(t.last()) == n);
        assert(digits_value(t.drop_last(), base as int) == 0);
        assert(0 * (base as int) == 0);
        assert(digits_value(t, base as int) == 0 * (base as int) + digit_value(t.last()));
    } else {
        assert(n / base < n) by (nonlinear_arith)
            requires
                base >= 2,
                n >= base,
        ;
        assert(n / base > 0) by (nonlinear_arith)
            requires
                base >= 2,
                n >= base,
        ;
        assert(n % base < base) by (nonlinear_arith)
            requires
                base >= 2,
        ;
        lemma_radix_text_reads_back(n / base, base);
        let t = radix_text(n, base);
        let h = radix_text(n / base, base);
        assert(t == h.push(digit_chars()[(n % base) as int]));
        assert(t.drop_last() =~= h);
        assert(digit_value(t.last()) == n % base);
        assert((n / base) * base + n % base == n) by (nonlinear_arith)
            requires
                base >= 2,
        ;
        assert(digits_value(t, base as int) == digits_value(h, base as int) * (base as int) + digit_value(t.last()));
        assert(digits_value(h, base as int) == n / base);
        assert forall|i: int| 0 <= i < t.len() implies 0 <= #[trigger] digit_value(t[i]) < base by {
            if i < h.len() {
                assert(t[i] == h[i]);
            }
        }
        assert(t[0] == h[0]);
    }
}

/// An IPv4 address is written as its four octets, first to last, each in
/// decimal, separated by dots.
pub proof fn lemma_v4_text(o: [u8; 4])
    ensures
        ip_text(IpAddress::V4(o)) == radix_text(o[0] as nat, 10) + seq!['.'] + radix_text(o[1] as nat, 10)
            + seq!['.'] + radix_text(o[2] as nat, 10) + seq!['.'] + radix_text(o[3] as nat, 10),
{
    reveal_strlit(".");
    assert("."@ =~= seq!['.']);
}

/// Every group in positions `i..j` is zero.
pub open spec fn zeros_between(g: Seq<u16>, i: int, j: int) -> bool {
    forall|k: int| i <= k < j ==> g[k] == 0
}

/// A stretch of zero groups makes the run from its start at least as long.
proof fn lemma_zero_run_covers(g: Seq<u16>, i: int, n: int)
    requires
        0 <= i,
        0 <= n,
        i + n <= g.len(),
        zeros_between(g, i, i + n),
    ensures
        zero_run(g, i) >= n,
    decreases n,
{
    if n > 0 {
        lemma_zero_run_covers(g, i + 1, n - 1);
    }
}

/// The run from `i` is a stretch of zero groups inside the address.
proof fn lemma_zero_run_is_zeros(g: Seq<u16>, i: int)
    requires
        0 <= i <= g.len(),
    ensures
        i + zero_run(g, i) <= g.len(),
        zeros_between(g, i, i + zero_run(g, i)),
    decreases g.len() - i,
{
    if i < g.len() && g[i] == 0 {
        lemma_zero_run_is_zeros(g, i + 1);
    }
}

/// No run starting at or after `i` is longer than the longest one.
proof fn lemma_longest_bounds(g: Seq<u16>, i: int, j: int)
    requires
        0 <= i <= j < g.len(),
    ensures
        zero_run(g, j) <= longest_zero_run(g, i),
    decreases j - i,
{
    if i < j {
        lemma_longest_bounds(g, i + 1, j);
    }
}

/// Before `s`, no run has length `len`, and one starts at `s`: the first
/// run of that length starts at `s`.
proof fn lemma_first_run_at(g: Seq<u16>, len: nat, i: int, s: int)
    requires
        0 <= i <= s < g.len(),
        zero_run(g, s) == len,
        forall|k: int| i <= k < s ==> zero_run(g, k) != len,
    ensures
        first_run_of(g, len, i) == s,
    decreases s - i,
{
    if i < s {
        lemma_first_run_at(g, len, i + 1, s);
    }
}

/// An IPv6 address that does not map an IPv4 address, whose longest run of
/// zero groups has length `len` (two or more) and first starts at `s`, is
/// written as its groups before the run, `::`, and its groups after the
/// run, wherever the run lies.
pub proof fn lemma_v6_compresses_first_longest_run(g: [u16; 8], s: int, len: int)
    requires
        !(g[0] == 0 && g[1] == 0 && g[2] == 0 && g[3] == 0 && g[4] == 0 && g[5] == 0xffff),
        len > 1,
        0 <= s,
        s + len <= 8,
        zeros_between(g@, s, s + len),
        forall|i: int, n: int|
            0 <= i && 0 <= n && i + n <= 8 && #[trigger] zeros_between(g@, i, i + n) ==> n <= len && (i < s
                ==> n < len),
    ensures
        ip_text(IpAddress::V6(g)) == hex_groups(g@.take(s)) + "::"@ + hex_groups(g@.skip(s + len)),
{
    let q = g@;
    lemma_zero_run_covers(q, s, len);
    lemma_zero_run_is_zeros(q, s);
    assert(zero_run(q, s) == len);
    lemma_longest_bounds(q, 0, s);
    lemma_longest_attained(q, 0);
    let j = choose|j: int| 0 <= j < q.len() && zero_run(q, j) == longest_zero_run(q, 0);
    lemma_zero_run_is_zeros(q, j);
    assert(zeros_between(q, j, j + zero_run(q, j)));
    assert(longest_zero_run(q, 0) == len);
    assert forall|k: int| 0 <= k < s implies zero_run(q, k) != len by {
        lemma_zero_run_is_zeros(q, k);
        assert(zeros_between(q, k, k + zero_run(q, k)));
    }
    lemma_first_run_at(q, len as nat, 0, s);
    assert(!is_v4_mapped(q));
}

/// An IPv6 address that does not map an IPv4 address and has no two zero
/// groups in a row is written as all of its groups, without `::`.
pub proof fn lemma_v6_without_zero_pair(g: [u16; 8])
    requires
        !(g[0] == 0 && g[1] == 0 && g[2] == 0 && g[3] == 0 && g[4] == 0 && g[5] == 0xffff),
        forall|i: int| 0 <= i < 7 ==> !(#[trigger] g@[i] == 0 && g@[i + 1] == 0),
    ensures
        ip_text(IpAddress::V6(g)) == hex_groups(g@),
{
    let q = g@;
    assert(!is_v4_mapped(q));
    if longest_zero_run(q, 0) > 1 {
        lemma_longest_attained(q, 0);
        let j = choose|j: int| 0 <= j < q.len() && zero_run(q, j) == longest_zero_run(q, 0);
        lemma_zero_run_is_zeros(q, j);
        assert(q[j] == 0 && q[j + 1] == 0);
    }
}

/// An IPv4-mapped IPv6 address is written as `::ffff:` followed by the
/// dotted IPv4 address that its last two groups hold.
pub proof fn lemma_v6_mapped(g: [u16; 8])
    requires
        g[0] == 0 && g[1] == 0 && g[2] == 0 && g[3] == 0 && g[4] == 0 && g[5] == 0xffff,
    ensures
        ip_text(IpAddress::V6(g)) == "::ffff:"@ + v4_text(
            seq![(g[6] / 256) as u8, (g[6] % 256) as u8, (g[7] / 256) as u8, (g[7] % 256) as u8],
        ),
{
}

impl IpAddress {
    /// The address as text, as the standard library writes it.
    pub fn text(&self) -> (t: String)
        ensures
            t@ == ip_text(*self),
    {
        let mut out = String::new();
        match self {
            IpAddress::V4(o) => push_v4(&mut out, o),
            IpAddress::V6(g) => push_v6(&mut out, g),
        }
        proof {
            assert(out@ =~= ip_text(*self));
        }
        out
    }
}

} // verus!
