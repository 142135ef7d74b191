//! Checksum and CRC engine plus the sequence-number generator: the Internet
//! 16-bit ones'-complement checksum over discontiguous byte spans, the
//! reflected CRC-32 used for the Ethernet frame check sequence, a xorshift
//! pseudo-random generator, and small decimal-formatting helpers.

use vstd::prelude::*;

verus! {

/// Sum of the big-endian 16-bit words of `b`; an odd trailing byte counts as
/// the high byte of a zero-padded word.
pub open spec fn word_sum(b: Seq<u8>) -> int
    decreases b.len(),
{
    if b.len() == 0 {
        0
    } else if b.len() == 1 {
        b[0] * 256
    } else {
        b[0] * 256 + b[1] + word_sum(b.skip(2))
    }
}

/// End-around-carry folding of a non-negative word sum down to 16 bits:
/// congruent to `x` modulo 0xffff, in `[0, 0xffff]`, and zero only for zero.
pub open spec fn fold_carry(x: int) -> int {
    if x % 0xffff == 0 {
        if x == 0 {
            0
        } else {
            0xffff
        }
    } else {
        x % 0xffff
    }
}

/// The Internet checksum of `b`: the ones' complement of the folded word sum.
pub open spec fn checksum_spec(b: Seq<u8>) -> u16 {
    (0xffff - fold_carry(word_sum(b))) as u16
}

/// Concatenation of a sequence of byte spans.
pub open spec fn spans_bytes(spans: Seq<Seq<u8>>) -> Seq<u8>
    decreases spans.len(),
{
    if spans.len() == 0 {
        Seq::empty()
    } else {
        spans[0] + spans_bytes(spans.drop_first())
    }
}

pub proof fn lemma_word_sum_nonneg(b: Seq<u8>)
    ensures
        word_sum(b) >= 0,
    decreases b.len(),
{
    if b.len() >= 2 {
        lemma_word_sum_nonneg(b.skip(2));
    }
}

/// Word sums add across a split whose left part is word-aligned.
pub proof fn lemma_word_sum_append(a: Seq<u8>, b: Seq<u8>)
    requires
        a.len() % 2 == 0,
    ensures
        word_sum(a + b) == word_sum(a) + word_sum(b),
    decreases a.len(),
{
    if a.len() == 0 {
        assert(a + b =~= b);
    } else {
        assert((a + b).skip(2) =~= a.skip(2) + b);
        lemma_word_sum_append(a.skip(2), b);
    }
}

proof fn lemma_spans_bytes_take_succ(spans: Seq<Seq<u8>>, j: int)
    requires
        0 <= j < spans.len(),
    ensures
        spans_bytes(spans.take(j + 1)) == spans_bytes(spans.take(j)) + spans[j],
    decreases j,
{
    if j == 0 {
        assert(spans.take(1).drop_first() =~= spans.take(0));
        assert(spans_bytes(spans.take(0)) + spans[0] =~= spans[0]);
        assert(spans.take(1)[0] == spans[0]);
    } else {
        lemma_spans_bytes_take_succ(spans.drop_first(), j - 1);
        assert(spans.take(j + 1).drop_first() =~= spans.drop_first().take(j));
        assert(spans.take(j).drop_first() =~= spans.drop_first().take(j - 1));
        assert(spans.take(j + 1)[0] == spans[0]);
        assert(spans.take(j)[0] == spans[0]);
        assert(spans_bytes(spans.take(j + 1)) == spans[0] + spans_bytes(spans.drop_first().take(j)));
        assert(spans[0] + (spans_bytes(spans.drop_first().take(j - 1)) + spans.drop_first()[j - 1])
            =~= (spans[0] + spans_bytes(spans.drop_first().take(j - 1))) + spans[j]);
    }
}

proof fn lemma_word_sum_pair(a: u8, b: u8)
    ensures
        word_sum(seq![a, b]) == a * 256 + b,
{
    reveal_with_fuel(word_sum, 2);
    assert(seq![a, b].skip(2) =~= Seq::<u8>::empty());
}

proof fn lemma_word_sum_single(a: u8)
    ensures
        word_sum(seq![a]) == a * 256,
{
    reveal_with_fuel(word_sum, 2);
}

proof fn lemma_even_spans_even(spans: Seq<Seq<u8>>)
    requires
        forall|i: int| 0 <= i < spans.len() ==> (#[trigger] spans[i]).len() % 2 == 0,
    ensures
        spans_bytes(spans).len() % 2 == 0,
    decreases spans.len(),
{
    if spans.len() > 0 {
        lemma_even_spans_even(spans.drop_first());
    }
}

/// Folding a running sum before adding more words does not change the final
/// folded value: end-around-carry folding commutes with addition.
pub proof fn lemma_fold_carry_add(a: int, b: int)
    requires
        a >= 0,
        b >= 0,
    ensures
        fold_carry(fold_carry(a) + b) == fold_carry(a + b),
{
    vstd::arithmetic::div_mod::lemma_add_mod_noop_right(b, a, 0xffff);
    vstd::arithmetic::div_mod::lemma_mod_bound(a, 0xffff);
    vstd::arithmetic::div_mod::lemma_mod_bound(b, 0xffff);
    vstd::arithmetic::div_mod::lemma_mod_bound(a + b, 0xffff);
    if a == 0 {
    } else if a % 0xffff == 0 {
        assert((0xffff + b) % 0xffff == (0 + b) % 0xffff) by {
            vstd::arithmetic::div_mod::lemma_add_mod_noop(0xffff, b, 0xffff);
            vstd::arithmetic::div_mod::lemma_add_mod_noop(0, b, 0xffff);
        }
        assert((0xffff + b) % 0xffff == (a + b) % 0xffff);
    } else {
        assert(fold_carry(a) == a % 0xffff);
        assert((a % 0xffff + b) % 0xffff == (a + b) % 0xffff);
        assert(a % 0xffff + b > 0);
        assert(a + b > 0);
    }
}

/// One exec folding step, kept in lockstep with `fold_carry`.
fn fold_step(accum: u64, w: u64) -> (r: u64)
    requires
        accum <= 0xffff,
        w <= 0xffff,
    ensures
        r == fold_carry(accum + w),
        r <= 0xffff,
{
    let sum = accum + w;
    if sum == 0 {
        0
    } else {
        let m = sum % 0xffff;
        if m == 0 {
            0xffff
        } else {
            m
        }
    }
}

/// Internet checksum across the concatenation of `spans`, as if the spans were
/// one contiguous buffer. Every span but the last must hold a whole number of
/// 16-bit words, so that no word straddles a span boundary.
pub fn checksum(spans: &[&[u8]]) -> (r: u16)
    requires
        forall|i: int| 0 <= i < spans@.len() - 1 ==> (#[trigger] spans@[i]@).len() % 2 == 0,
    ensures
        r == checksum_spec(spans_bytes(spans.deep_view())),
{
    let ghost all = spans.deep_view();
    proof {
        assert(forall|i: int| 0 <= i < all.len() ==> all[i] =~= spans@[i]@);
    }
    let mut accum: u64 = 0;
    let n = spans.len();
    let mut j: usize = 0;
    while j < n
        invariant
            j <= n,
            n == all.len(),
            forall|i: int| 0 <= i < all.len() - 1 ==> (#[trigger] all[i]).len() % 2 == 0,
            forall|i: int| 0 <= i < all.len() ==> all[i] == spans@[i]@,
            n == spans@.len(),
            accum == fold_carry(word_sum(spans_bytes(all.take(j as int)))),
            accum <= 0xffff,
            j < n ==> spans_bytes(all.take(j as int)).len() % 2 == 0,
        decreases n - j,
    {
        let s: &[u8] = spans[j];
        proof {
            assert(s@ == all[j as int]);
        }
        let ghost prefix = spans_bytes(all.take(j as int));
        let ghost sv = s@;
        proof {
            lemma_word_sum_nonneg(prefix);
        }
        let len = s.len();
        let mut i: usize = 0;
        while i + 1 < len
            invariant
                i <= len,
                len == sv.len(),
                sv == s@,
                i % 2 == 0,
                accum == fold_carry(word_sum(prefix) + word_sum(sv.take(i as int))),
                accum <= 0xffff,
                word_sum(prefix) >= 0,
            decreases len - i,
        {
            proof {
                lemma_word_sum_nonneg(sv.take(i as int));
                assert(sv.take(i + 2) =~= sv.take(i as int) + seq![sv[i as int], sv[(i + 1) as int]]);
                lemma_word_sum_append(sv.take(i as int), seq![sv[i as int], sv[(i + 1) as int]]);
                lemma_word_sum_pair(sv[i as int], sv[(i + 1) as int]);
                lemma_fold_carry_add(
                    word_sum(prefix) + word_sum(sv.take(i as int)),
                    sv[i as int] * 256 + sv[(i + 1) as int],
                );
            }
            let w: u64 = (s[i] as u64) * 256 + (s[i + 1] as u64);
            accum = fold_step(accum, w);
            i = i + 2;
        }
        if i < len {
            proof {
                lemma_word_sum_nonneg(sv.take(i as int));
                assert(sv.take(i + 1) =~= sv.take(i as int) + seq![sv[i as int]]);
                lemma_word_sum_append(sv.take(i as int), seq![sv[i as int]]);
                lemma_word_sum_single(sv[i as int]);
                lemma_fold_carry_add(
                    word_sum(prefix) + word_sum(sv.take(i as int)),
                    sv[i as int] * 256,
                );
            }
            let w: u64 = (s[i] as u64) * 256;
            accum = fold_step(accum, w);
            i = i + 1;
        }
        proof {
            assert(sv.take(i as int) =~= sv);
            lemma_spans_bytes_take_succ(all, j as int);
            lemma_word_sum_append(prefix, sv);
            if j + 1 < n {
                assert(forall|k: int|
                    0 <= k < all.take(j + 1).len() ==> (#[trigger] all.take(j + 1)[k]).len() % 2
                        == 0);
                lemma_even_spans_even(all.take(j + 1));
            }
        }
        j = j + 1;
    }
    proof {
        assert(all.take(n as int) =~= all);
        lemma_word_sum_nonneg(spans_bytes(all));
    }
    0xffffu16 - (accum as u16)
}

/// A six-span family (as the pseudo-header checksums build) concatenates to
/// the six spans in order.
pub proof fn lemma_spans_bytes6(spans: Seq<Seq<u8>>)
    requires
        spans.len() == 6,
    ensures
        spans_bytes(spans) == spans[0] + spans[1] + spans[2] + spans[3] + spans[4] + spans[5],
{
    let s1 = spans.drop_first();
    let s2 = s1.drop_first();
    let s3 = s2.drop_first();
    let s4 = s3.drop_first();
    lemma_spans_bytes_first(spans);
    lemma_spans_bytes_first(s1);
    lemma_spans_bytes_first(s2);
    lemma_spans_bytes_first(s3);
    lemma_spans_bytes2(s4);
    assert(spans[0] + (spans[1] + (spans[2] + (spans[3] + (spans[4] + spans[5])))) =~= spans[0]
        + spans[1] + spans[2] + spans[3] + spans[4] + spans[5]);
}

/// Adding the complement of a folded sum back onto the sum folds to 0xffff:
/// the arithmetic core of checksum validation.
proof fn lemma_fold_carry_complement(s: int)
    requires
        s >= 0,
    ensures
        fold_carry(s + 0xffff - fold_carry(s)) == 0xffff,
{
    let total = s + 0xffff - fold_carry(s);
    if s == 0 {
        assert(fold_carry(total) == 0xffff);
    } else if s % 0xffff == 0 {
        assert(fold_carry(s) == 0xffff);
        assert(total == s);
        assert(fold_carry(total) == 0xffff);
    } else {
        let m = s % 0xffff;
        vstd::arithmetic::div_mod::lemma_fundamental_div_mod(s, 0xffff);
        assert(total == 0xffff * (s / 0xffff + 1)) by (nonlinear_arith)
            requires
                s == 0xffff * (s / 0xffff) + s % 0xffff,
                total == s + 0xffff - s % 0xffff,
        ;
        vstd::arithmetic::div_mod::lemma_mod_multiples_basic(s / 0xffff + 1, 0xffff);
        assert(total % 0xffff == 0);
        assert(s / 0xffff >= 0) by (nonlinear_arith)
            requires
                s >= 0,
        ;
        assert(total > 0);
        assert(fold_carry(total) == 0xffff);
    }
}

/// The Internet checksum is self-inverting: a buffer followed by its own
/// checksum word sums (with end-around carry) to 0xffff, so the checksum of
/// the whole is zero. This is the standard receive-side validation identity.
pub proof fn lemma_checksum_self_inverting(data: Seq<u8>)
    requires
        data.len() % 2 == 0,
    ensures
        ({
            let c = checksum_spec(data);
            checksum_spec(data + seq![(c / 256) as u8, (c % 256) as u8]) == 0
        }),
{
    let s = word_sum(data);
    lemma_word_sum_nonneg(data);
    let c = checksum_spec(data);
    let hi = (c / 256) as u8;
    let lo = (c % 256) as u8;
    lemma_word_sum_append(data, seq![hi, lo]);
    lemma_word_sum_pair(hi, lo);
    assert(hi * 256 + lo == c);
    assert(word_sum(data + seq![hi, lo]) == s + 0xffff - fold_carry(s));
    lemma_fold_carry_complement(s);
}

/// The same validation identity with the checksum word written back into the
/// middle of the message, where the wire format keeps it: a header whose
/// checksum field holds the checksum of the rest sums to zero overall.
pub proof fn lemma_checksum_insert_middle(pre: Seq<u8>, post: Seq<u8>)
    requires
        pre.len() % 2 == 0,
    ensures
        ({
            let c = checksum_spec(pre + post);
            checksum_spec(pre + seq![(c / 256) as u8, (c % 256) as u8] + post) == 0
        }),
{
    let s = word_sum(pre + post);
    lemma_word_sum_nonneg(pre + post);
    let c = checksum_spec(pre + post);
    let hi = (c / 256) as u8;
    let lo = (c % 256) as u8;
    let cb = seq![hi, lo];
    lemma_word_sum_pair(hi, lo);
    assert(hi * 256 + lo == c);
    lemma_word_sum_append(pre, post);
    lemma_word_sum_append(pre, cb);
    assert((pre + cb).len() % 2 == 0);
    lemma_word_sum_append(pre + cb, post);
    assert(word_sum(pre + cb + post) == s + 0xffff - fold_carry(s));
    lemma_fold_carry_complement(s);
}

/// Unfolding step for span concatenation.
pub proof fn lemma_spans_bytes_first(spans: Seq<Seq<u8>>)
    requires
        spans.len() > 0,
    ensures
        spans_bytes(spans) == spans[0] + spans_bytes(spans.drop_first()),
{
}

/// Span concatenation of an empty family is empty.
pub proof fn lemma_spans_bytes_empty(spans: Seq<Seq<u8>>)
    requires
        spans.len() == 0,
    ensures
        spans_bytes(spans) == Seq::<u8>::empty(),
{
}

/// A two-span family concatenates to the two spans in order.
pub proof fn lemma_spans_bytes2(spans: Seq<Seq<u8>>)
    requires
        spans.len() == 2,
    ensures
        spans_bytes(spans) == spans[0] + spans[1],
{
    lemma_spans_bytes_first(spans);
    lemma_spans_bytes_first(spans.drop_first());
    lemma_spans_bytes_empty(spans.drop_first().drop_first());
    assert(spans[0] + (spans[1] + Seq::<u8>::empty()) =~= spans[0] + spans[1]);
}

/// One step of the CRC-32 bit loop over the reversed polynomial 0xEDB88320.
pub open spec fn crc_shift(c: u32) -> u32 {
    if c & 1 == 1 {
        (c >> 1) ^ 0xEDB88320u32
    } else {
        c >> 1
    }
}

/// `crc_shift` applied `n` times.
pub open spec fn crc_rounds(c: u32, n: nat) -> u32
    decreases n,
{
    if n == 0 {
        c
    } else {
        crc_shift(crc_rounds(c, (n - 1) as nat))
    }
}

/// One byte folded into a running CRC-32: xor into the low byte, then eight
/// bit rounds.
pub open spec fn crc_byte(c: u32, b: u8) -> u32 {
    crc_rounds(c ^ (b as u32), 8)
}

/// Running CRC-32 state after folding in all of `s`, starting from `c`.
pub open spec fn crc_fold(c: u32, s: Seq<u8>) -> u32
    decreases s.len(),
{
    if s.len() == 0 {
        c
    } else {
        crc_byte(crc_fold(c, s.drop_last()), s.last())
    }
}

/// Standard reflected CRC-32: all-ones initial value, final inversion.
pub open spec fn crc32_spec(s: Seq<u8>) -> u32 {
    crc_fold(0xFFFFFFFFu32, s) ^ 0xFFFFFFFFu32
}

/// CRC-32 of `data` with the reversed polynomial 0xEDB88320, byte at a time,
/// eight shifts per byte, initial value all-ones, output inverted.
pub fn crc32(data: &[u8]) -> (r: u32)
    ensures
        r == crc32_spec(data@),
{
    let mut crc: u32 = 0xFFFFFFFF;
    let mut i: usize = 0;
    let len = data.len();
    while i < len
        invariant
            i <= len,
            len == data@.len(),
            crc == crc_fold(0xFFFFFFFFu32, data@.take(i as int)),
        decreases len - i,
    {
        let mut c: u32 = crc ^ (data[i] as u32);
        let ghost start = c;
        let mut k: usize = 0;
        while k < 8
            invariant
                k <= 8,
                c == crc_rounds(start, k as nat),
            decreases 8 - k,
        {
            if c & 1 == 1 {
                c = (c >> 1) ^ 0xEDB88320;
            } else {
                c = c >> 1;
            }
            k = k + 1;
        }
        proof {
            assert(data@.take(i + 1).drop_last() =~= data@.take(i as int));
            assert(data@.take(i + 1).last() == data@[i as int]);
        }
        crc = c;
        i = i + 1;
    }
    proof {
        assert(data@.take(len as int) =~= data@);
    }
    crc ^ 0xFFFFFFFF
}

/// Successor state of the xorshift generator: three xor-shift rounds.
pub open spec fn xorshift_step(s: u32) -> u32 {
    let a = s ^ (s << 13);
    let b = a ^ (a >> 17);
    b ^ (b << 5)
}

/// A xorshift pseudo-random generator, seeded once at startup; used only as a
/// source of TCP initial sequence numbers, with no security claim.
pub struct Xorshift32 {
    state: u32,
}

impl Xorshift32 {
    /// The current generator state.
    pub closed spec fn spec_state(&self) -> u32 {
        self.state
    }

    pub fn new(seed: u32) -> (r: Xorshift32)
        ensures
            r.spec_state() == seed,
    {
        Xorshift32 { state: seed }
    }

    /// Advances the state by one xorshift step and returns it.
    pub fn gen(&mut self) -> (r: u32)
        ensures
            final(self).spec_state() == xorshift_step(old(self).spec_state()),
            r == final(self).spec_state(),
    {
        self.state = self.state ^ (self.state << 13);
        self.state = self.state ^ (self.state >> 17);
        self.state = self.state ^ (self.state << 5);
        self.state
    }
}

/// Number of decimal digits of `v`, with zero digits for zero.
pub open spec fn decimal_digits(v: nat) -> nat
    decreases v,
{
    if v == 0 {
        0
    } else {
        1 + decimal_digits(v / 10)
    }
}

/// Count of decimal digits, as printed by `usize_to_bytes`; zero has no
/// digits.
pub fn get_digit_from_usize(val: usize) -> (r: u8)
    requires
        val <= 9999,
    ensures
        r == decimal_digits(val as nat),
        r <= 4,
{
    proof {
        lemma_digits_small(val as nat);
    }
    let mut num = val;
    let mut digit: u8 = 0;
    while num != 0
        invariant
            digit + decimal_digits(num as nat) == decimal_digits(val as nat),
            decimal_digits(val as nat) <= 4,
        decreases num,
    {
        num = num / 10;
        digit = digit + 1;
    }
    digit
}

/// A value of at most four digits prints at most four digits.
pub proof fn lemma_digits_small(v: nat)
    requires
        v <= 9999,
    ensures
        decimal_digits(v) <= 4,
{
    reveal_with_fuel(decimal_digits, 6);
    assert(v / 10 / 10 / 10 / 10 == 0);
}

/// The four low decimal digits of `val` as ASCII, most significant first,
/// zero-padded on the left.
pub fn usize_to_bytes(val: usize) -> (r: [u8; 4])
    requires
        val <= 9999,
    ensures
        r@.len() == 4,
        r@[0] == 48 + (val as int) / 1000 % 10,
        r@[1] == 48 + (val as int) / 100 % 10,
        r@[2] == 48 + (val as int) / 10 % 10,
        r@[3] == 48 + (val as int) % 10,
{
    let b0: u8 = 48 + (val / 1000 % 10) as u8;
    let b1: u8 = 48 + (val / 100 % 10) as u8;
    let b2: u8 = 48 + (val / 10 % 10) as u8;
    let b3: u8 = 48 + (val % 10) as u8;
    [b0, b1, b2, b3]
}

} // verus!
