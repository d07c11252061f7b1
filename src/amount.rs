//! Numbers, amounts and per-currency balances.

use vstd::prelude::*;

use crate::keyed::{
    entries_view, find_key, index_of_key, keys_unique, lemma_index_of_key_bounds, lemma_set_key_unique,
    set_key,
};
use crate::text::{digits, pad_zeros, push_digits, push_repeated};

verus! {

/// A decimal number: `mantissa` divided by ten to the power `scale`.
#[derive(Debug, Clone, Copy, PartialEq, Eq, Structural)]
pub struct Decimal {
    pub mantissa: i64,
    pub scale: u8,
}

/// `a` over ten to the `s`, with trailing fractional zeros taken off.
pub open spec fn strip_zeros(a: nat, s: nat) -> (nat, nat)
    decreases s,
{
    if s > 0 && a % 10 == 0 {
        strip_zeros(a / 10, (s - 1) as nat)
    } else {
        (a, s)
    }
}

/// The text of `a` over ten to the `s`: the digits, with a point before the last `s` of
/// them when `s` is positive.
pub open spec fn unsigned_text(a: nat, s: nat) -> Seq<char> {
    if s == 0 {
        digits(a)
    } else {
        let d = pad_zeros(digits(a), s + 1);
        d.subrange(0, d.len() - s) + seq!['.'] + d.subrange(d.len() - s, d.len() as int)
    }
}

/// The absolute value of an integer.
pub open spec fn abs(m: int) -> nat {
    if m < 0 {
        (-m) as nat
    } else {
        m as nat
    }
}

/// The shortest text of the decimal `m` over ten to the `s`: a minus sign when negative,
/// no trailing fractional zeros, no point when nothing follows it.
pub open spec fn decimal_text(m: int, s: nat) -> Seq<char> {
    let (a, t) = strip_zeros(abs(m), s);
    if m < 0 {
        seq!['-'] + unsigned_text(a, t)
    } else {
        unsigned_text(a, t)
    }
}

impl Decimal {
    /// The decimal `mantissa` over ten to the `scale`.
    pub fn new(mantissa: i64, scale: u8) -> (r: Decimal)
        ensures
            r.mantissa == mantissa,
            r.scale == scale,
    {
        Decimal { mantissa, scale }
    }

    /// The whole number `n`.
    pub fn from_int(n: i64) -> (r: Decimal)
        ensures
            r.mantissa == n,
            r.scale == 0,
    {
        Decimal { mantissa: n, scale: 0 }
    }

    pub open spec fn text(&self) -> Seq<char> {
        decimal_text(self.mantissa as int, self.scale as nat)
    }

    /// Appends the shortest text of this number to `out`.
    pub fn push_text(&self, out: &mut String)
        ensures
            final(out)@ == old(out)@ + self.text(),
    {
        let m = self.mantissa;
        let mut a: u64 = if m < 0 {
            (0i128 - (m as i128)) as u64
        } else {
            m as u64
        };
        let mut s: u8 = self.scale;
        assert(a as nat == abs(m as int));
        while s > 0 && a % 10 == 0
            invariant
                strip_zeros(a as nat, s as nat) == strip_zeros(abs(m as int), self.scale as nat),
            decreases s,
        {
            a = a / 10;
            s = s - 1;
        }
        assert(strip_zeros(a as nat, s as nat) == (a as nat, s as nat));
        if m < 0 {
            proof {
                reveal_strlit("-");
            }
            out.append("-");
        }
        let ghost mid = out@;
        if s == 0 {
            push_digits(out, a);
        } else {
            let mut ds = String::new();
            push_digits(&mut ds, a);
            let len = ds.as_str().unicode_len();
            let width: usize = (s as usize) + 1;
            let mut padded = String::new();
            if len < width {
                proof {
                    reveal_strlit("0");
                }
                push_repeated(&mut padded, "0", width - len);
            }
            padded.append(ds.as_str());
            assert(padded@ =~= pad_zeros(digits(a as nat), width as nat));
            let plen = padded.as_str().unicode_len();
            let cut: usize = plen - (s as usize);
            out.append(padded.as_str().substring_char(0, cut));
            proof {
                reveal_strlit(".");
            }
            out.append(".");
            out.append(padded.as_str().substring_char(cut, plen));
        }
        assert(out@ =~= mid + unsigned_text(a as nat, s as nat));
        assert(out@ =~= old(out)@ + self.text());
    }
}

/// Whether an integer fits in 64 signed bits.
pub open spec fn fits_i64(x: int) -> bool {
    i64::MIN <= x <= i64::MAX
}

/// Ten to the power `n`.
pub open spec fn pow10(n: nat) -> int
    decreases n,
{
    if n == 0 {
        1
    } else {
        10 * pow10((n - 1) as nat)
    }
}

proof fn lemma_pow10_monotone(a: nat, b: nat)
    requires
        a <= b,
    ensures
        0 < pow10(a) <= pow10(b),
    decreases b,
{
    if b > 0 {
        if a < b {
            lemma_pow10_monotone(a, (b - 1) as nat);
        } else {
            lemma_pow10_monotone((a - 1) as nat, (b - 1) as nat);
        }
    }
}

/// The sum of two decimals, at the larger of their scales, if the mantissas at that
/// scale and their sum fit in 64 bits.
pub open spec fn decimal_sum(a: Decimal, b: Decimal) -> Option<Decimal> {
    let s: u8 = if a.scale >= b.scale { a.scale } else { b.scale };
    let x = a.mantissa * pow10((s - a.scale) as nat);
    let y = b.mantissa * pow10((s - b.scale) as nat);
    if fits_i64(x) && fits_i64(y) && fits_i64(x + y) {
        Some(Decimal { mantissa: (x + y) as i64, scale: s })
    } else {
        None
    }
}

/// `m` times ten to the `k`, if it fits in 64 bits.
fn scale_mantissa(m: i64, k: u8) -> (r: Option<i64>)
    ensures
        r is Some <==> fits_i64(m * pow10(k as nat)),
        r matches Some(x) ==> x == m * pow10(k as nat),
{
    let mut x: i64 = m;
    let mut j: u8 = 0;
    while j < k
        invariant
            j <= k,
            x as int == m * pow10(j as nat),
        decreases k - j,
    {
        match x.checked_mul(10) {
            Some(y) => {
                assert(pow10((j + 1) as nat) == 10 * pow10(j as nat));
                assert(y == m * pow10((j + 1) as nat)) by (nonlinear_arith)
                    requires
                        y == x * 10,
                        x == m * pow10(j as nat),
                        pow10((j + 1) as nat) == 10 * pow10(j as nat),
                ;
                x = y;
                j = j + 1;
            },
            None => {
                proof {
                    let p = pow10((j + 1) as nat);
                    let q = pow10(k as nat);
                    lemma_pow10_monotone((j + 1) as nat, k as nat);
                    assert(p == 10 * pow10(j as nat));
                    assert(!fits_i64(m * p)) by (nonlinear_arith)
                        requires
                            x == m * pow10(j as nat),
                            p == 10 * pow10(j as nat),
                            !fits_i64(x * 10),
                    ;
                    assert(!fits_i64(m * q)) by (nonlinear_arith)
                        requires
                            0 < p <= q,
                            !fits_i64(m * p),
                    ;
                }
                return None;
            },
        }
    }
    Some(x)
}

impl Decimal {
    /// The sum of two decimals, at the larger scale; `None` where it does not fit.
    pub fn checked_add(&self, other: Decimal) -> (r: Option<Decimal>)
        ensures
            r == decimal_sum(*self, other),
    {
        let s: u8 = if self.scale >= other.scale { self.scale } else { other.scale };
        let x = match scale_mantissa(self.mantissa, s - self.scale) {
            Some(x) => x,
            None => return None,
        };
        let y = match scale_mantissa(other.mantissa, s - other.scale) {
            Some(y) => y,
            None => return None,
        };
        match x.checked_add(y) {
            Some(m) => Some(Decimal { mantissa: m, scale: s }),
            None => None,
        }
    }
}

/// An amount: a number of units of a currency.
#[derive(Debug, PartialEq)]
pub struct AAmount(pub Decimal, pub String);

impl AAmount {
    /// Number of units in the amount.
    pub fn get_value(&self) -> (r: Decimal)
        ensures
            r == self.0,
    {
        self.0
    }

    /// The currency of the amount.
    pub fn get_currency(&self) -> (r: &str)
        ensures
            r@ == self.1@,
    {
        self.1.as_str()
    }
}

/// `inv` with `number` added to the entry of `currency`, or with a new entry for it
/// at the end; `None` where the sum does not fit.
pub open spec fn add_to(inv: Seq<(Seq<char>, Decimal)>, currency: Seq<char>, number: Decimal) -> Option<
    Seq<(Seq<char>, Decimal)>,
> {
    let i = index_of_key(inv, currency);
    if i >= 0 {
        match decimal_sum(inv[i].1, number) {
            Some(t) => Some(inv.update(i, (currency, t))),
            None => None,
        }
    } else {
        Some(inv.push((currency, number)))
    }
}

/// `acc` with each entry of `inv` added in turn; `None` where a sum does not fit.
pub open spec fn add_all(acc: Seq<(Seq<char>, Decimal)>, inv: Seq<(Seq<char>, Decimal)>) -> Option<
    Seq<(Seq<char>, Decimal)>,
>
    decreases inv.len(),
{
    if inv.len() == 0 {
        Some(acc)
    } else {
        match add_all(acc, inv.drop_last()) {
            Some(a) => add_to(a, inv.last().0, inv.last().1),
            None => None,
        }
    }
}

proof fn lemma_add_to_unique(inv: Seq<(Seq<char>, Decimal)>, currency: Seq<char>, number: Decimal)
    requires
        keys_unique(inv),
    ensures
        add_to(inv, currency, number) matches Some(v) ==> keys_unique(v),
{
    lemma_index_of_key_bounds(inv, currency);
    if let Some(v) = add_to(inv, currency, number) {
        let i = index_of_key(inv, currency);
        if i >= 0 {
            assert forall|a: int, b: int| 0 <= a < b < v.len() implies v[a].0 != v[b].0 by {
                assert(inv[a].0 != inv[b].0);
            }
        } else {
            assert forall|a: int, b: int| 0 <= a < b < v.len() implies v[a].0 != v[b].0 by {
                if b < inv.len() {
                    assert(inv[a].0 != inv[b].0);
                }
            }
        }
    }
}

/// A lightweight inventory: a number per currency, each currency at most once.
#[derive(Debug)]
pub struct CounterInventory {
    entries: Vec<(String, Decimal)>,
}

impl View for CounterInventory {
    type V = Seq<(Seq<char>, Decimal)>;

    closed spec fn view(&self) -> Seq<(Seq<char>, Decimal)> {
        entries_view(self.entries@)
    }
}

impl CounterInventory {
    /// Each currency holds one entry.
    pub closed spec fn wf(&self) -> bool {
        keys_unique(self@)
    }

    /// An inventory without currencies.
    pub fn new() -> (r: CounterInventory)
        ensures
            r@ == Seq::<(Seq<char>, Decimal)>::empty(),
            r.wf(),
    {
        let r = CounterInventory { entries: Vec::new() };
        assert(r@ =~= Seq::<(Seq<char>, Decimal)>::empty());
        r
    }

    /// Sets the number of `currency` to `number`: the entry keeps its place, or a new one
    /// comes last.
    pub fn insert(&mut self, currency: String, number: Decimal)
        requires
            old(self).wf(),
        ensures
            final(self).wf(),
            final(self)@ == set_key(old(self)@, currency@, number),
    {
        let ghost k = currency@;
        let found = find_key(&self.entries, currency.as_str());
        match found {
            Some(i) => {
                self.entries.set(i, (currency, number));
            },
            None => {
                self.entries.push((currency, number));
            },
        }
        proof {
            lemma_set_key_unique(old(self)@, k, number);
        }
        assert(self@ =~= set_key(old(self)@, k, number));
    }

    /// The number of `currency`, if the inventory holds it.
    pub fn get(&self, currency: &str) -> (r: Option<Decimal>)
        ensures
            r == (if index_of_key(self@, currency@) >= 0 {
                Some(self@[index_of_key(self@, currency@)].1)
            } else {
                None
            }),
    {
        match find_key(&self.entries, currency) {
            Some(i) => Some(self.entries[i].1),
            None => None,
        }
    }

    /// The number of currencies held.
    pub fn len(&self) -> (r: usize)
        ensures
            r == self@.len(),
    {
        self.entries.len()
    }

    /// The entry at `i`: a currency and its number.
    pub fn entry(&self, i: usize) -> (r: (&str, Decimal))
        requires
            i < self@.len(),
        ensures
            r.0@ == self@[i as int].0,
            r.1 == self@[i as int].1,
    {
        (self.entries[i].0.as_str(), self.entries[i].1)
    }
}

impl CounterInventory {
    /// Adds `number` to the entry of `currency`, or adds an entry for it at the end.
    /// Where the sum does not fit, returns false and leaves the inventory as it was.
    pub fn add(&mut self, currency: &str, number: Decimal) -> (r: bool)
        requires
            old(self).wf(),
        ensures
            final(self).wf(),
            match add_to(old(self)@, currency@, number) {
                Some(v) => r && final(self)@ == v,
                None => !r && final(self)@ == old(self)@,
            },
    {
        proof {
            lemma_add_to_unique(self@, currency@, number);
        }
        match find_key(&self.entries, currency) {
            Some(i) => {
                match self.entries[i].1.checked_add(number) {
                    Some(t) => {
                        self.entries.set(i, (currency.to_owned(), t));
                        assert(self@ =~= old(self)@.update(i as int, (currency@, t)));
                        true
                    },
                    None => false,
                }
            },
            None => {
                self.entries.push((currency.to_owned(), number));
                assert(self@ =~= old(self)@.push((currency@, number)));
                true
            },
        }
    }

    /// Adds each entry of `other` in turn. Where a sum does not fit, returns false, and
    /// what the inventory then holds is left open.
    pub fn add_inventory(&mut self, other: &CounterInventory) -> (r: bool)
        requires
            old(self).wf(),
        ensures
            final(self).wf(),
            match add_all(old(self)@, other@) {
                Some(v) => r && final(self)@ == v,
                None => !r,
            },
    {
        let n = other.len();
        let mut i: usize = 0;
        while i < n
            invariant
                n == other@.len(),
                i <= n,
                self.wf(),
                add_all(old(self)@, other@.take(i as int)) == Some(self@),
            decreases n - i,
        {
            let (currency, number) = other.entry(i);
            assert(other@.take(i + 1).drop_last() =~= other@.take(i as int));
            if !self.add(currency, number) {
                proof {
                    lemma_add_all_none_extends(old(self)@, other@, (i + 1) as int);
                }
                return false;
            }
            i = i + 1;
        }
        assert(other@.take(n as int) =~= other@);
        true
    }
}

/// Once a sum does not fit, adding more entries does not help.
proof fn lemma_add_all_none_extends(acc: Seq<(Seq<char>, Decimal)>, inv: Seq<(Seq<char>, Decimal)>, k: int)
    requires
        0 <= k <= inv.len(),
        add_all(acc, inv.take(k)) is None,
    ensures
        add_all(acc, inv) is None,
    decreases inv.len() - k,
{
    if k < inv.len() {
        assert(inv.take(k + 1).drop_last() =~= inv.take(k));
        lemma_add_all_none_extends(acc, inv, k + 1);
    } else {
        assert(inv.take(k) =~= inv);
    }
}

} // verus!
