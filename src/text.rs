use vstd::prelude::*;
use vstd::utf8::{decode_utf8, valid_utf8};

verus! {

/// The ASCII digit for a value below 16, with lower-case letters above 9.
pub open spec fn digit_char(d: nat) -> char {
    if d < 10 {
        (d + 48) as char
    } else {
        (d + 87) as char
    }
}

/// Decimal text of `n`, without leading zeros.
pub open spec fn decimal(n: nat) -> Seq<char>
    decreases n,
{
    if n < 10 {
        seq![digit_char(n)]
    } else {
        decimal(n / 10) + seq![digit_char(n % 10)]
    }
}

/// Lower-case hexadecimal text of `n`, without leading zeros.
pub open spec fn hex(n: nat) -> Seq<char>
    decreases n,
{
    if n < 16 {
        seq![digit_char(n)]
    } else {
        hex(n / 16) + seq![digit_char(n % 16)]
    }
}

/// Dotted-quad text of four address bytes.
pub open spec fn ipv4_text(a: Seq<u8>) -> Seq<char>
    recommends
        a.len() == 4,
{
    decimal(a[0] as nat) + seq!['.'] + decimal(a[1] as nat) + seq!['.'] + decimal(a[2] as nat)
        + seq!['.'] + decimal(a[3] as nat)
}

/// The 16-bit words, in hexadecimal, separated by colons.
pub open spec fn hex_words(w: Seq<u16>) -> Seq<char>
    decreases w.len(),
{
    if w.len() == 0 {
        seq![]
    } else if w.len() == 1 {
        hex(w[0] as nat)
    } else {
        hex_words(w.drop_last()) + seq![':'] + hex(w.last() as nat)
    }
}

/// Number of consecutive zero words starting at index `i`.
pub open spec fn zeros_from(w: Seq<u16>, i: int) -> nat
    decreases w.len() - i,
{
    if 0 <= i < w.len() && w[i] == 0 {
        1 + zeros_from(w, i + 1)
    } else {
        0
    }
}

/// Start and length of the longest run of zero words that starts before index `k`;
/// of several runs of that length, the first.
pub open spec fn longest_zeros(w: Seq<u16>, k: int) -> (int, nat)
    decreases k,
{
    if k <= 0 {
        (0, 0)
    } else {
        let (s, l) = longest_zeros(w, k - 1);
        if zeros_from(w, k - 1) > l {
            (k - 1, zeros_from(w, k - 1))
        } else {
            (s, l)
        }
    }
}

/// True for an IPv4-mapped address `::ffff:a.b.c.d`.
pub open spec fn is_ipv4_mapped(w: Seq<u16>) -> bool {
    w[0] == 0 && w[1] == 0 && w[2] == 0 && w[3] == 0 && w[4] == 0 && w[5] == 0xffff
}

/// Standard text form of an IPv6 address given as eight words: an IPv4-mapped
/// address ends in dotted-quad form; otherwise the first longest run of two or more
/// zero words is written `::`.
pub open spec fn ipv6_text(w: Seq<u16>) -> Seq<char>
    recommends
        w.len() == 8,
{
    if is_ipv4_mapped(w) {
        seq![':', ':', 'f', 'f', 'f', 'f', ':'] + ipv4_text(
            seq![(w[6] / 256) as u8, (w[6] % 256) as u8, (w[7] / 256) as u8, (w[7] % 256) as u8],
        )
    } else {
        let (s, l) = longest_zeros(w, 8);
        if l > 1 {
            hex_words(w.subrange(0, s)) + seq![':', ':'] + hex_words(w.subrange(s + l, 8))
        } else {
            hex_words(w)
        }
    }
}

/// What `String::from_utf8_lossy` makes of a byte sequence.
pub uninterp spec fn lossy_utf8(b: Seq<u8>) -> Seq<char>;

/// Relies on `String::push`: the character is appended at the end.
#[verifier::external_body]
pub(crate) fn push_char(s: &mut String, c: char)
    ensures
        final(s)@ == old(s)@.push(c),
{
    s.push(c)
}

/// Relies on `String::from_utf8_lossy`: valid UTF-8 is decoded as it is, and the
/// result depends on the bytes alone.
#[verifier::external_body]
pub(crate) fn utf8_lossy(b: &[u8]) -> (r: String)
    ensures
        r@ == lossy_utf8(b@),
        valid_utf8(b@) ==> r@ == decode_utf8(b@),
{
    String::from_utf8_lossy(b).into_owned()
}

fn digit(d: u16) -> (c: char)
    requires
        d < 16,
    ensures
        c == digit_char(d as nat),
{
    if d < 10 {
        ((d as u8) + 48u8) as char
    } else {
        ((d as u8) + 87u8) as char
    }
}

/// Appends the decimal text of `n` to `s`.
pub fn push_decimal(s: &mut String, n: u16)
    ensures
        final(s)@ == old(s)@ + decimal(n as nat),
    decreases n,
{
    if n >= 10 {
        push_decimal(s, n / 10);
    }
    push_char(s, digit(n % 10));
    assert(s@ =~= old(s)@ + decimal(n as nat));
}

/// Appends the lower-case hexadecimal text of `n` to `s`.
pub fn push_hex(s: &mut String, n: u16)
    ensures
        final(s)@ == old(s)@ + hex(n as nat),
    decreases n,
{
    if n >= 16 {
        push_hex(s, n / 16);
    }
    push_char(s, digit(n % 16));
    assert(s@ =~= old(s)@ + hex(n as nat));
}

fn push_ipv4(s: &mut String, a0: u8, a1: u8, a2: u8, a3: u8)
    ensures
        final(s)@ == old(s)@ + ipv4_text(seq![a0, a1, a2, a3]),
{
    push_decimal(s, a0 as u16);
    push_char(s, '.');
    push_decimal(s, a1 as u16);
    push_char(s, '.');
    push_decimal(s, a2 as u16);
    push_char(s, '.');
    push_decimal(s, a3 as u16);
    assert(s@ =~= old(s)@ + ipv4_text(seq![a0, a1, a2, a3]));
}

/// Dotted-quad text of an IPv4 address.
pub fn format_ipv4(a: &[u8]) -> (r: String)
    requires
        a@.len() == 4,
    ensures
        r@ == ipv4_text(a@),
{
    let mut s = String::new();
    push_ipv4(&mut s, a[0], a[1], a[2], a[3]);
    assert(a@ =~= seq![a[0], a[1], a[2], a[3]]);
    s
}

/// Appends the words `w[lo..hi]` in hexadecimal, separated by colons.
fn push_hex_words(s: &mut String, w: &[u16], lo: usize, hi: usize)
    requires
        lo <= hi <= w@.len(),
    ensures
        final(s)@ == old(s)@ + hex_words(w@.subrange(lo as int, hi as int)),
{
    let mut i: usize = lo;
    assert(w@.subrange(lo as int, lo as int) =~= Seq::<u16>::empty());
    assert(s@ =~= old(s)@ + hex_words(w@.subrange(lo as int, lo as int)));
    while i < hi
        invariant
            lo <= i <= hi <= w@.len(),
            s@ == old(s)@ + hex_words(w@.subrange(lo as int, i as int)),
        decreases hi - i,
    {
        let ghost done = w@.subrange(lo as int, i as int);
        let ghost next = w@.subrange(lo as int, i + 1);
        assert(next.drop_last() =~= done);
        if i > lo {
            push_char(s, ':');
        }
        push_hex(s, w[i]);
        assert(s@ =~= old(s)@ + hex_words(next));
        i = i + 1;
    }
}

/// Number of consecutive zero words of `w` from index `i` on.
fn zero_run(w: &[u16], i: usize) -> (r: usize)
    requires
        i <= w@.len(),
    ensures
        r as nat == zeros_from(w@, i as int),
{
    let mut j: usize = i;
    while j < w.len() && w[j] == 0
        invariant
            i <= j <= w@.len(),
            zeros_from(w@, i as int) == (j - i) + zeros_from(w@, j as int),
        decreases w@.len() - j,
    {
        j = j + 1;
    }
    j - i
}

/// Start and length of the first longest run of zero words in an address.
fn longest_zero_run(w: &[u16]) -> (r: (usize, usize))
    requires
        w@.len() == 8,
    ensures
        r.0 as int == longest_zeros(w@, 8).0,
        r.1 as nat == longest_zeros(w@, 8).1,
        r.0 + r.1 <= 8,
{
    let mut best_start: usize = 0;
    let mut best_len: usize = 0;
    let mut i: usize = 0;
    while i < 8
        invariant
            i <= 8,
            w@.len() == 8,
            best_start as int == longest_zeros(w@, i as int).0,
            best_len as nat == longest_zeros(w@, i as int).1,
            best_start + best_len <= 8,
        decreases 8 - i,
    {
        let z = zero_run(w, i);
        proof {
            lemma_zeros_bound(w@, i as int);
        }
        if z > best_len {
            best_start = i;
            best_len = z;
        }
        i = i + 1;
    }
    (best_start, best_len)
}

proof fn lemma_zeros_bound(w: Seq<u16>, i: int)
    requires
        0 <= i <= w.len(),
    ensures
        i + zeros_from(w, i) <= w.len(),
    decreases w.len() - i,
{
    if i < w.len() {
        lemma_zeros_bound(w, i + 1);
    }
}

/// Standard text form of an IPv6 address given as eight 16-bit words.
pub fn format_ipv6(w: &[u16]) -> (r: String)
    requires
        w@.len() == 8,
    ensures
        r@ == ipv6_text(w@),
{
    let mut s = String::new();
    if w[0] == 0 && w[1] == 0 && w[2] == 0 && w[3] == 0 && w[4] == 0 && w[5] == 0xffff {
        push_char(&mut s, ':');
        push_char(&mut s, ':');
        push_char(&mut s, 'f');
        push_char(&mut s, 'f');
        push_char(&mut s, 'f');
        push_char(&mut s, 'f');
        push_char(&mut s, ':');
        push_ipv4(
            &mut s,
            (w[6] / 256) as u8,
            (w[6] % 256) as u8,
            (w[7] / 256) as u8,
            (w[7] % 256) as u8,
        );
        assert(s@ =~= ipv6_text(w@));
    } else {
        let (start, len) = longest_zero_run(w);
        if len > 1 {
            push_hex_words(&mut s, w, 0, start);
            push_char(&mut s, ':');
            push_char(&mut s, ':');
            push_hex_words(&mut s, w, start + len, 8);
            assert(s@ =~= ipv6_text(w@));
        } else {
            push_hex_words(&mut s, w, 0, 8);
            assert(w@.subrange(0, 8) =~= w@);
        }
    }
    s
}

} // verus!
