//! A fixed-capacity decimal digit display with a scroll cursor.

use crate::glyph::Glyph;
use vstd::prelude::*;

verus! {

/// Character code of the digit zero; the other digits follow it.
pub const ASCII_ZERO: u8 = 48;

/// Number of decimal digits needed to write `n`; zero takes one digit.
pub open spec fn decimal_len(n: nat) -> nat
    decreases n,
{
    if n < 10 {
        1
    } else {
        1 + decimal_len(n / 10)
    }
}

/// The decimal digits of `n`, most significant first.
pub open spec fn decimal(n: nat) -> Seq<u8>
    decreases n,
{
    if n < 10 {
        seq![n as u8]
    } else {
        decimal(n / 10).push((n % 10) as u8)
    }
}

/// The number that a sequence of decimal digits, most significant first, writes.
pub open spec fn decimal_value(d: Seq<u8>) -> nat
    decreases d.len(),
{
    if d.len() == 0 {
        0
    } else {
        decimal_value(d.drop_last()) * 10 + d.last() as nat
    }
}

/// Ten to the power `k`.
pub open spec fn pow10(k: nat) -> nat
    decreases k,
{
    if k == 0 {
        1
    } else {
        10 * pow10((k - 1) as nat)
    }
}

/// The digits of `n` that are still to be written once the lower ones have
/// been peeled off: nothing is left of zero.
spec fn leading(n: nat) -> Seq<u8> {
    if n == 0 {
        Seq::empty()
    } else {
        decimal(n)
    }
}

/// `decimal(n)` has `decimal_len(n)` digits, each below ten, and its first
/// digit is zero only for `n == 0`.
pub proof fn lemma_decimal_shape(n: nat)
    ensures
        decimal(n).len() == decimal_len(n),
        decimal_len(n) >= 1,
        forall|i: int| 0 <= i < decimal(n).len() ==> #[trigger] decimal(n)[i] < 10,
        n > 0 ==> decimal(n)[0] != 0,
        n == 0 ==> decimal(n) =~= seq![0u8],
    decreases n,
{
    if n >= 10 {
        lemma_decimal_shape(n / 10);
    }
}

/// Reading the digits of `n` back as a number gives `n`.
pub proof fn lemma_decimal_round_trip(n: nat)
    ensures
        decimal_value(decimal(n)) == n,
    decreases n,
{
    if n < 10 {
        let d = decimal(n);
        assert(d.drop_last().len() == 0);
        assert(decimal_value(d.drop_last()) == 0);
        assert(d.last() == n as u8);
    } else {
        lemma_decimal_round_trip(n / 10);
        let d = decimal(n);
        assert(d.drop_last() =~= decimal(n / 10));
        assert(d.last() == (n % 10) as u8);
    }
}

/// A number takes at most `k` digits exactly when it is below `10^k`.
pub proof fn lemma_decimal_len_bound(n: nat, k: nat)
    requires
        k >= 1,
    ensures
        decimal_len(n) <= k <==> n < pow10(k),
    decreases k,
{
    reveal_with_fuel(pow10, 2);
    if k == 1 {
        if n >= 10 {
            assert(decimal_len(n / 10) >= 1) by {
                lemma_decimal_shape(n / 10);
            }
        }
    } else {
        if n < 10 {
            lemma_pow10_grows((k - 1) as nat);
        } else {
            lemma_decimal_len_bound(n / 10, (k - 1) as nat);
        }
    }
}

/// Every power of ten is at least one.
pub proof fn lemma_pow10_grows(k: nat)
    ensures
        pow10(k) >= 1,
    decreases k,
{
    if k > 0 {
        lemma_pow10_grows((k - 1) as nat);
    }
}

/// A 64-bit number has at most twenty decimal digits.
pub proof fn lemma_u64_decimal_len(n: u64)
    ensures
        decimal_len(n as nat) <= 20,
{
    reveal_with_fuel(pow10, 21);
    assert(pow10(20) == 100000000000000000000);
    lemma_decimal_len_bound(n as nat, 20);
}

/// The value does not fit the display's digit capacity.
#[derive(Clone, Copy, Debug, PartialEq, Eq, Structural)]
pub struct CapacityExceeded;

/// What a digit display shows: its significant digits, most significant
/// first, the scroll cursor, and the capacity. A cursor equal to the capacity
/// means the display is hidden.
pub struct DigitView {
    pub shown: Seq<u8>,
    pub cursor: nat,
    pub capacity: nat,
}

impl DigitView {
    /// The digits are decimal, fit the capacity, are not empty unless the
    /// capacity is zero, and the cursor is on a digit or hidden.
    pub open spec fn wf(self) -> bool {
        &&& self.shown.len() <= self.capacity
        &&& (self.capacity > 0 ==> self.shown.len() >= 1)
        &&& (forall|i: int| 0 <= i < self.shown.len() ==> #[trigger] self.shown[i] < 10)
        &&& (self.cursor < self.shown.len() || self.cursor == self.capacity)
    }

    /// Whether the cursor is within the capacity.
    pub open spec fn visible(self) -> bool {
        self.cursor < self.capacity
    }

    /// Whether moving the cursor on from here ends a pass over the digits.
    pub open spec fn completes(self) -> bool {
        self.cursor + 1 >= self.shown.len()
    }

    /// The display after moving the cursor on by one digit, back to the
    /// first digit after the last.
    pub open spec fn advanced(self) -> DigitView {
        DigitView {
            shown: self.shown,
            cursor: if self.completes() {
                0
            } else {
                self.cursor + 1
            },
            capacity: self.capacity,
        }
    }

    /// The display after moving the cursor on `k` times.
    pub open spec fn advanced_by(self, k: nat) -> DigitView
        decreases k,
    {
        if k == 0 {
            self
        } else {
            self.advanced_by((k - 1) as nat).advanced()
        }
    }

    /// The display with the cursor on the first digit.
    pub open spec fn rewound(self) -> DigitView {
        DigitView { shown: self.shown, cursor: 0, capacity: self.capacity }
    }

    /// The display with the cursor at the hidden position.
    pub open spec fn hidden(self) -> DigitView {
        DigitView { shown: self.shown, cursor: self.capacity, capacity: self.capacity }
    }
}

/// Moving the cursor on `k` times from the first digit, with `k` less than
/// the number of digits, puts it on digit `k`; the move from there ends the
/// pass exactly when digit `k` is the last.
pub proof fn lemma_advance_within_pass(v: DigitView, k: nat)
    requires
        v.wf(),
        v.cursor == 0,
        k < v.shown.len(),
    ensures
        v.advanced_by(k).shown == v.shown,
        v.advanced_by(k).capacity == v.capacity,
        v.advanced_by(k).cursor == k,
        v.advanced_by(k).wf(),
        v.advanced_by(k).visible(),
        v.advanced_by(k).completes() <==> k + 1 == v.shown.len(),
    decreases k,
{
    if k > 0 {
        lemma_advance_within_pass(v, (k - 1) as nat);
    }
}

/// Moving the cursor on once for every digit, starting at the first, ends
/// the pass on the last move and on no earlier one, and leaves the display
/// as it was, with the cursor on the first digit.
pub proof fn lemma_full_pass(v: DigitView)
    requires
        v.wf(),
        v.cursor == 0,
        v.shown.len() >= 1,
    ensures
        forall|k: nat|
            k < v.shown.len() ==> (#[trigger] v.advanced_by(k).completes() <==> k + 1
                == v.shown.len()),
        v.advanced_by(v.shown.len()) == v,
{
    assert forall|k: nat| k < v.shown.len() implies (#[trigger] v.advanced_by(k).completes() <==> k
        + 1 == v.shown.len()) by {
        lemma_advance_within_pass(v, k);
    }
    let last = (v.shown.len() - 1) as nat;
    lemma_advance_within_pass(v, last);
    assert(v.advanced_by(v.shown.len()) == v.advanced_by(last).advanced());
}

/// Every number below `10^capacity` fits a display of that capacity. Once
/// the display is set to such an `n`, it shows after `k` moves of the cursor
/// the digit of `n` at position `k`, counted from the most significant; the
/// digits read back this way are as many as `n` has, and they write `n`.
pub proof fn lemma_set_reads_back(n: nat, capacity: nat, k: nat)
    requires
        capacity >= 1,
        n < pow10(capacity),
        k < decimal_len(n),
    ensures
        decimal_len(n) <= capacity,
        ({
            let v = (DigitView { shown: decimal(n), cursor: 0, capacity }).advanced_by(k);
            &&& v.visible()
            &&& v.cursor == k
            &&& v.shown[v.cursor as int] == decimal(n)[k as int]
            &&& v.shown.len() == decimal_len(n)
        }),
        decimal_value(decimal(n)) == n,
{
    lemma_decimal_shape(n);
    lemma_decimal_round_trip(n);
    lemma_decimal_len_bound(n, capacity);
    let v = DigitView { shown: decimal(n), cursor: 0, capacity };
    lemma_advance_within_pass(v, k);
}

/// Up to `N` decimal digits of a counter, with a cursor on the digit that is
/// currently shown.
pub struct DigitDisplay<const N: usize> {
    digits: [u8; N],
    count: usize,
    current_digit: usize,
}

impl<const N: usize> DigitDisplay<N> {
    /// The significant digits, the cursor and the capacity `N`.
    pub closed spec fn view(&self) -> DigitView {
        DigitView {
            shown: self.digits@.take(self.count as int),
            cursor: self.current_digit as nat,
            capacity: N as nat,
        }
    }

    /// At most `N` digits are significant, and the view is well formed.
    pub closed spec fn wf(&self) -> bool {
        &&& self.count <= N
        &&& self@.wf()
    }

    /// A well-formed display has a well-formed view of capacity `N`.
    pub proof fn lemma_wf_view(&self)
        requires
            self.wf(),
        ensures
            self@.wf(),
            self@.capacity == N,
    {
    }

    /// A hidden display that holds the single digit zero.
    pub fn new() -> (d: Self)
        ensures
            d.wf(),
            d@.capacity == N,
            d@.cursor == N,
            !d@.visible(),
            d@.shown =~= (if N == 0 {
                Seq::<u8>::empty()
            } else {
                seq![0u8]
            }),
    {
        let d = Self { digits: [0u8; N], count: if N == 0 { 0 } else { 1 }, current_digit: N };
        assert(d.digits@.len() == N);
        d
    }

    /// The number of decimal digits of `n`.
    pub fn num_digits(n: u64) -> (k: usize)
        ensures
            k == decimal_len(n as nat),
            1 <= k <= 20,
    {
        proof {
            lemma_u64_decimal_len(n);
            lemma_decimal_shape(n as nat);
        }
        if n == 0 {
            return 1;
        }
        let mut m: u64 = n;
        let mut i: usize = 0;
        while m > 0
            invariant
                decimal_len(n as nat) <= 20,
                m > 0 ==> i + decimal_len(m as nat) == decimal_len(n as nat),
                m == 0 ==> i == decimal_len(n as nat),
            decreases m,
        {
            proof {
                lemma_decimal_shape(m as nat);
            }
            m /= 10;
            i += 1;
        }
        i
    }

    /// Stores the decimal digits of `n`, most significant first, and puts the
    /// cursor on the first of them. A number with more than `N` digits is
    /// refused and the display stays as it was.
    pub fn set(&mut self, n: u64) -> (r: Result<(), CapacityExceeded>)
        requires
            old(self).wf(),
        ensures
            final(self).wf(),
            r is Ok <==> decimal_len(n as nat) <= N,
            r is Ok ==> final(self)@ == (DigitView {
                shown: decimal(n as nat),
                cursor: 0,
                capacity: N as nat,
            }),
            r is Err ==> *final(self) == *old(self),
    {
        let k = Self::num_digits(n);
        if k > N {
            return Err(CapacityExceeded);
        }
        proof {
            lemma_decimal_shape(n as nat);
        }
        let mut m: u64 = n;
        let mut i: usize = k;
        if n == 0 {
            self.digits[0] = 0;
            i = 0;
        }
        while m > 0
            invariant
                i <= k <= N,
                k == decimal(n as nat).len(),
                i == leading(m as nat).len(),
                decimal(n as nat) =~= leading(m as nat) + self.digits@.subrange(i as int, k as int),
                self.count == old(self).count,
                self.current_digit == old(self).current_digit,
            decreases m,
        {
            proof {
                lemma_decimal_shape(m as nat);
                lemma_decimal_shape((m / 10) as nat);
                assert(decimal(m as nat) =~= leading((m / 10) as nat).push((m % 10) as u8));
            }
            i -= 1;
            self.digits[i] = (m % 10) as u8;
            m /= 10;
        }
        self.count = k;
        self.current_digit = 0;
        proof {
            assert(self.digits@.take(k as int) =~= decimal(n as nat));
        }
        Ok(())
    }

    /// Puts the cursor on the first digit, which makes the display visible
    /// when it has any capacity.
    pub fn show(&mut self)
        requires
            old(self).wf(),
        ensures
            final(self).wf(),
            final(self)@ == old(self)@.rewound(),
            final(self)@.cursor == 0,
            final(self)@.visible() <==> N > 0,
    {
        self.current_digit = 0;
    }

    /// Moves the cursor to the hidden position.
    pub fn conceal(&mut self)
        requires
            old(self).wf(),
        ensures
            final(self).wf(),
            final(self)@ == old(self)@.hidden(),
            !final(self)@.visible(),
    {
        self.current_digit = N;
    }

    /// Whether the cursor is within the capacity.
    pub fn is_visible(&self) -> (v: bool)
        ensures
            v == self@.visible(),
    {
        self.current_digit < N
    }

    /// Moves the cursor on by one digit and says whether that ended a pass
    /// over the digits, in which case the cursor is back on the first digit.
    pub fn next(&mut self) -> (complete: bool)
        requires
            old(self).wf(),
        ensures
            final(self).wf(),
            complete == old(self)@.completes(),
            final(self)@ == old(self)@.advanced(),
    {
        if self.current_digit >= self.count || self.current_digit + 1 >= self.count {
            self.current_digit = 0;
            true
        } else {
            self.current_digit += 1;
            false
        }
    }

    /// The glyph of the digit under the cursor. The display must be visible.
    pub fn render(&self) -> (g: Glyph)
        requires
            self.wf(),
            self@.visible(),
        ensures
            g.is_character((ASCII_ZERO + self@.shown[self@.cursor as int]) as u8),
    {
        proof {
            assert(self@.shown[self.current_digit as int] == self.digits@[self.current_digit as int]);
        }
        Glyph::character(self.digits[self.current_digit] + ASCII_ZERO)
    }

    /// How many digits are significant.
    pub fn count(&self) -> (c: usize)
        requires
            self.wf(),
        ensures
            c == self@.shown.len(),
    {
        self.count
    }

    /// The cursor: the position of the current digit, or `N` when hidden.
    pub fn cursor(&self) -> (c: usize)
        ensures
            c == self@.cursor,
    {
        self.current_digit
    }

    /// The significant digit at position `i`, counted from the most
    /// significant, if there is one.
    pub fn digit(&self, i: usize) -> (d: Option<u8>)
        requires
            self.wf(),
        ensures
            d == (if i < self@.shown.len() {
                Some(self@.shown[i as int])
            } else {
                None
            }),
    {
        if i < self.count {
            Some(self.digits[i])
        } else {
            None
        }
    }

    /// The digit under the cursor, if the display is visible.
    pub fn current(&self) -> (d: Option<u8>)
        requires
            self.wf(),
        ensures
            d == (if self@.visible() {
                Some(self@.shown[self@.cursor as int])
            } else {
                None
            }),
    {
        if self.current_digit < N {
            Some(self.digits[self.current_digit])
        } else {
            None
        }
    }
}

} // verus!
