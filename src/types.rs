use vstd::prelude::*;

use crate::errors::{CoreError, LedgerError};

verus! {

pub type ClientId = u16;

pub type TxId = u32;

/// A fixed-point amount of money, counted in units of 1/10000.
#[derive(Debug, Clone, Copy, PartialEq, Eq, Structural, PartialOrd, Ord, Default)]
pub struct Amount(pub i64);

impl View for Amount {
    type V = int;

    open spec fn view(&self) -> int {
        self.0 as int
    }
}

pub open spec fn fits_i64(v: int) -> bool {
    i64::MIN <= v <= i64::MAX
}

impl Amount {
    /// Number of internal units in one whole unit of money (four decimal places).
    pub const SCALE: i64 = 10_000;

    pub fn zero() -> (r: Amount)
        ensures
            r@ == 0,
    {
        Amount(0)
    }

    pub fn as_i64(self) -> (r: i64)
        ensures
            r == self.0,
    {
        self.0
    }

    /// Adds two amounts, failing instead of wrapping around.
    pub fn checked_add(self, rhs: Amount) -> (r: Result<Amount, LedgerError>)
        ensures
            fits_i64(self@ + rhs@) ==> r == Ok::<Amount, LedgerError>(Amount((self@ + rhs@) as i64)),
            !fits_i64(self@ + rhs@) ==> r == Err::<Amount, LedgerError>(LedgerError::Overflow),
    {
        match self.0.checked_add(rhs.0) {
            Some(v) => Ok(Amount(v)),
            None => Err(LedgerError::Overflow),
        }
    }

    /// Subtracts `rhs`, failing instead of wrapping around.
    pub fn checked_sub(self, rhs: Amount) -> (r: Result<Amount, LedgerError>)
        ensures
            fits_i64(self@ - rhs@) ==> r == Ok::<Amount, LedgerError>(Amount((self@ - rhs@) as i64)),
            !fits_i64(self@ - rhs@) ==> r == Err::<Amount, LedgerError>(LedgerError::Overflow),
    {
        match self.0.checked_sub(rhs.0) {
            Some(v) => Ok(Amount(v)),
            None => Err(LedgerError::Overflow),
        }
    }
}


// ---------------------------------------------------------------------------
// Text form of an amount.
// ---------------------------------------------------------------------------
pub open spec fn is_digit(c: char) -> bool {
    '0' <= c && c <= '9'
}

pub open spec fn all_digits(s: Seq<char>) -> bool {
    forall|i: int| 0 <= i < s.len() ==> is_digit(#[trigger] s[i])
}

pub open spec fn digit_value(c: char) -> nat {
    (c as u32 - '0' as u32) as nat
}

/// The number written by a string of decimal digits (most significant first).
pub open spec fn digits_value(s: Seq<char>) -> nat
    decreases s.len(),
{
    if s.len() == 0 {
        0
    } else {
        digits_value(s.subrange(0, s.len() - 1)) * 10 + digit_value(s[s.len() - 1])
    }
}

pub open spec fn has_dot(t: Seq<char>) -> bool {
    exists|k: int| 0 <= k < t.len() && t[k] == '.'
}

pub open spec fn dot_at(t: Seq<char>) -> int {
    choose|k: int| 0 <= k < t.len() && t[k] == '.'
}

/// The text before the decimal separator (all of it when there is none).
pub open spec fn whole_text(t: Seq<char>) -> Seq<char> {
    if has_dot(t) {
        t.subrange(0, dot_at(t))
    } else {
        t
    }
}

/// The text after the decimal separator (empty when there is none).
pub open spec fn frac_text(t: Seq<char>) -> Seq<char> {
    if has_dot(t) {
        t.subrange(dot_at(t) + 1, t.len() as int)
    } else {
        Seq::empty()
    }
}

/// Internal units per unit of the last written fractional digit.
pub open spec fn frac_scale(len: int) -> nat {
    if len <= 0 {
        10000
    } else if len == 1 {
        1000
    } else if len == 2 {
        100
    } else if len == 3 {
        10
    } else {
        1
    }
}

/// Digits, optionally followed by one separator and at most four digits.
pub open spec fn amount_text_ok(t: Seq<char>) -> bool {
    &&& whole_text(t).len() > 0
    &&& all_digits(whole_text(t))
    &&& all_digits(frac_text(t))
    &&& frac_text(t).len() <= 4
}

/// The amount, in internal units, that a well-formed text denotes.
pub open spec fn amount_text_value(t: Seq<char>) -> nat {
    digits_value(whole_text(t)) * 10000 + digits_value(frac_text(t)) * frac_scale(
        frac_text(t).len() as int,
    )
}

/// What parsing an already trimmed text gives.
pub open spec fn parse_amount_text(t: Seq<char>) -> Result<Amount, CoreError> {
    if t.len() == 0 {
        Err(CoreError::ParseAmount)
    } else if t[0] == '-' {
        Err(CoreError::NegativeAmount)
    } else if amount_text_ok(t) && amount_text_value(t) <= i64::MAX {
        Ok(Amount(amount_text_value(t) as i64))
    } else {
        Err(CoreError::ParseAmount)
    }
}

/// What `str::trim` returns for a text.
pub uninterp spec fn trimmed(s: Seq<char>) -> Seq<char>;

/// Relies on `str::trim`: leading and trailing whitespace is removed.
#[verifier::external_body]
pub(crate) fn trim_text<'a>(s: &'a str) -> (r: &'a str)
    ensures
        r@ == trimmed(s@),
{
    s.trim()
}

/// Largest whole part whose scaled value can still fit in an `i64`.
pub const MAX_WHOLE: u64 = 922_337_203_685_477;

proof fn lemma_digits_prefix_le(s: Seq<char>, j: int)
    requires
        0 <= j <= s.len(),
    ensures
        digits_value(s.subrange(0, j)) <= digits_value(s),
    decreases s.len(),
{
    if j < s.len() {
        let p = s.subrange(0, s.len() - 1);
        lemma_digits_prefix_le(p, j);
        assert(p.subrange(0, j) =~= s.subrange(0, j));
    } else {
        assert(s.subrange(0, j) =~= s);
    }
}

/// Where the first '.' stands decides the split of a well-formed text.
proof fn lemma_first_dot(t: Seq<char>, k: int)
    requires
        0 <= k <= t.len(),
        forall|j: int| 0 <= j < k ==> t[j] != '.',
        k < t.len() ==> t[k] == '.',
    ensures
        ({
            let w = t.subrange(0, k);
            let f = if k < t.len() {
                t.subrange(k + 1, t.len() as int)
            } else {
                Seq::<char>::empty()
            };
            &&& amount_text_ok(t) <==> (w.len() > 0 && all_digits(w) && all_digits(f) && f.len()
                <= 4)
            &&& amount_text_ok(t) ==> whole_text(t) == w && frac_text(t) == f
        }),
{
    let w = t.subrange(0, k);
    if k == t.len() {
        assert(w =~= t);
        assert(!has_dot(t));
    } else {
        assert(has_dot(t));
        let d = dot_at(t);
        assert(t[d] == '.');
        if d != k {
            assert(d > k);
            assert(whole_text(t)[k] == '.');
            assert(!all_digits(whole_text(t)));
            let f = t.subrange(k + 1, t.len() as int);
            assert(f[d - k - 1] == '.');
        }
    }
}

impl Amount {
    /// Parses a decimal amount with at most four fractional digits,
    /// ignoring surrounding whitespace.
    pub fn from_str_4dp(s: &str) -> (r: Result<Amount, CoreError>)
        ensures
            r == parse_amount_text(trimmed(s@)),
    {
        let t = trim_text(s);
        Amount::from_trimmed_4dp(t)
    }

    /// Parses a decimal amount that carries no surrounding whitespace.
    pub fn from_trimmed_4dp(t: &str) -> (r: Result<Amount, CoreError>)
        ensures
            r == parse_amount_text(t@),
    {
        let n = t.unicode_len();
        if n == 0 {
            return Err(CoreError::ParseAmount);
        }
        if t.get_char(0) == '-' {
            return Err(CoreError::NegativeAmount);
        }
        let k = find_dot(t);
        proof {
            lemma_first_dot(t@, k as int);
        }
        let frac_start: usize = if k < n { k + 1 } else { n };
        assert(frac_start == n ==> t@.subrange(frac_start as int, n as int) =~= Seq::<char>::empty());
        if k == 0 || n - frac_start > 4 {
            return Err(CoreError::ParseAmount);
        }
        if !digits_between(t, 0, k) || !digits_between(t, frac_start, n) {
            return Err(CoreError::ParseAmount);
        }
        let whole = match read_digits(t, 0, k) {
            Some(w) => w,
            None => {
                assert(digits_value(whole_text(t@)) * 10000 > i64::MAX) by (nonlinear_arith)
                    requires
                        digits_value(whole_text(t@)) > MAX_WHOLE,
                ;
                return Err(CoreError::ParseAmount);
            },
        };
        let frac = match read_digits(t, frac_start, n) {
            Some(f) => f,
            None => {
                proof {
                    lemma_digits_prefix_le(frac_text(t@), frac_text(t@).len() as int);
                    lemma_four_digits_small(frac_text(t@));
                }
                return Err(CoreError::ParseAmount);
            },
        };
        proof {
            lemma_four_digits_small(frac_text(t@));
        }
        let flen = n - frac_start;
        let scale: u64 = if flen == 0 {
            10000
        } else if flen == 1 {
            1000
        } else if flen == 2 {
            100
        } else if flen == 3 {
            10
        } else {
            1
        };
        assert(whole * 10000 <= 9_223_372_036_854_770_000) by (nonlinear_arith)
            requires
                whole <= MAX_WHOLE,
        ;
        assert(frac * scale <= 9999);
        let v: u64 = whole * 10000 + frac * scale;
        if v > i64::MAX as u64 {
            return Err(CoreError::ParseAmount);
        }
        Ok(Amount(v as i64))
    }
}

/// Index of the first '.' in the text, or its length when there is none.
fn find_dot(t: &str) -> (k: usize)
    requires
        t@.len() <= usize::MAX,
    ensures
        k <= t@.len(),
        forall|j: int| 0 <= j < k ==> t@[j] != '.',
        k < t@.len() ==> t@[k as int] == '.',
{
    let n = t.unicode_len();
    let mut i: usize = 0;
    while i < n
        invariant
            n == t@.len(),
            i <= n,
            forall|j: int| 0 <= j < i ==> t@[j] != '.',
        decreases n - i,
    {
        if t.get_char(i) == '.' {
            return i;
        }
        i += 1;
    }
    n
}

/// Whether every character in `t[lo..hi]` is a decimal digit.
fn digits_between(t: &str, lo: usize, hi: usize) -> (r: bool)
    requires
        lo <= hi <= t@.len(),
    ensures
        r == all_digits(t@.subrange(lo as int, hi as int)),
{
    let mut i: usize = lo;
    while i < hi
        invariant
            lo <= i <= hi,
            hi <= t@.len(),
            all_digits(t@.subrange(lo as int, i as int)),
        decreases hi - i,
    {
        let c = t.get_char(i);
        if !('0' <= c && c <= '9') {
            assert(t@.subrange(lo as int, hi as int)[i - lo] == c);
            return false;
        }
        assert forall|j: int| 0 <= j < i + 1 - lo implies is_digit(
            #[trigger] t@.subrange(lo as int, i + 1)[j],
        ) by {
            if j < i - lo {
                assert(t@.subrange(lo as int, i + 1)[j] == t@.subrange(lo as int, i as int)[j]);
            }
        }
        i += 1;
    }
    true
}

/// The value of the digits `t[lo..hi]`, or `None` when it exceeds `MAX_WHOLE`.
fn read_digits(t: &str, lo: usize, hi: usize) -> (r: Option<u64>)
    requires
        lo <= hi <= t@.len(),
        all_digits(t@.subrange(lo as int, hi as int)),
    ensures
        match r {
            Some(v) => v == digits_value(t@.subrange(lo as int, hi as int)) && v <= MAX_WHOLE,
            None => digits_value(t@.subrange(lo as int, hi as int)) > MAX_WHOLE,
        },
{
    let ghost s = t@.subrange(lo as int, hi as int);
    let mut v: u64 = 0;
    let mut i: usize = lo;
    assert(s.subrange(0, 0) =~= Seq::<char>::empty());
    while i < hi
        invariant
            lo <= i <= hi,
            hi <= t@.len(),
            s == t@.subrange(lo as int, hi as int),
            all_digits(s),
            v == digits_value(s.subrange(0, i - lo)),
            v <= MAX_WHOLE,
        decreases hi - i,
    {
        let c = t.get_char(i);
        assert(s[i - lo] == c);
        assert(is_digit(c));
        let d: u64 = (c as u32 - '0' as u32) as u64;
        let ghost p = s.subrange(0, i + 1 - lo);
        assert(p.subrange(0, p.len() - 1) =~= s.subrange(0, i - lo));
        assert(p[p.len() - 1] == c);
        if v > (MAX_WHOLE - d) / 10 {
            proof {
                lemma_digits_prefix_le(s, i + 1 - lo);
            }
            return None;
        }
        v = v * 10 + d;
        i += 1;
    }
    assert(s.subrange(0, hi - lo) =~= s);
    Some(v)
}

proof fn lemma_four_digits_small(s: Seq<char>)
    requires
        all_digits(s),
        s.len() <= 4,
    ensures
        digits_value(s) * frac_scale(s.len() as int) <= 9999,
        digits_value(s) <= 9999,
    decreases s.len(),
{
    if s.len() > 0 {
        let p = s.subrange(0, s.len() - 1);
        assert(all_digits(p)) by {
            assert forall|i: int| 0 <= i < p.len() implies is_digit(#[trigger] p[i]) by {
                assert(p[i] == s[i]);
            }
        }
        lemma_four_digits_small(p);
        assert(is_digit(s[s.len() - 1]));
        let d = digit_value(s[s.len() - 1]);
        assert(d <= 9);
        let pv = digits_value(p);
        assert(pv * frac_scale(p.len() as int) <= 9999);
        assert(frac_scale(p.len() as int) == frac_scale(s.len() as int) * 10);
        assert((pv * 10 + d) * frac_scale(s.len() as int) <= 9999) by (nonlinear_arith)
            requires
                pv * (frac_scale(s.len() as int) * 10) <= 9999,
                d <= 9,
                frac_scale(s.len() as int) >= 1,
                frac_scale(s.len() as int) * 10 <= 10000,
        ;
    }
}

// ---------------------------------------------------------------------------
// Canonical rendering.
// ---------------------------------------------------------------------------
pub open spec fn digit_char(d: nat) -> char {
    seq!['0', '1', '2', '3', '4', '5', '6', '7', '8', '9'][d as int]
}

/// Decimal digits of a number, most significant first, without leading zeros.
pub open spec fn decimal_text(n: nat) -> Seq<char>
    decreases n,
{
    if n < 10 {
        seq![digit_char(n)]
    } else {
        decimal_text(n / 10) + seq![digit_char(n % 10)]
    }
}

/// Exactly four digits of a number below 10000, zero-padded on the left.
pub open spec fn four_digits(f: nat) -> Seq<char> {
    seq![digit_char(f / 1000), digit_char(f / 100 % 10), digit_char(f / 10 % 10), digit_char(f % 10)]
}

pub open spec fn magnitude(v: int) -> nat {
    if v < 0 {
        (-v) as nat
    } else {
        v as nat
    }
}

/// The canonical text of an amount: sign for negative values, the whole part,
/// a '.', and always four fractional digits.
pub open spec fn render_text(v: int) -> Seq<char> {
    let sign = if v < 0 {
        seq!['-']
    } else {
        Seq::<char>::empty()
    };
    sign + decimal_text(magnitude(v) / 10000) + seq!['.'] + four_digits(magnitude(v) % 10000)
}

fn digit_str(d: u64) -> (r: &'static str)
    requires
        d < 10,
    ensures
        r@ == seq![digit_char(d as nat)],
{
    proof {
        reveal_strlit("0");
        reveal_strlit("1");
        reveal_strlit("2");
        reveal_strlit("3");
        reveal_strlit("4");
        reveal_strlit("5");
        reveal_strlit("6");
        reveal_strlit("7");
        reveal_strlit("8");
        reveal_strlit("9");
    }
    let r = if d == 0 {
        "0"
    } else if d == 1 {
        "1"
    } else if d == 2 {
        "2"
    } else if d == 3 {
        "3"
    } else if d == 4 {
        "4"
    } else if d == 5 {
        "5"
    } else if d == 6 {
        "6"
    } else if d == 7 {
        "7"
    } else if d == 8 {
        "8"
    } else {
        "9"
    };
    assert(r@ =~= seq![digit_char(d as nat)]);
    r
}

fn push_decimal(out: &mut String, n: u64)
    ensures
        final(out)@ == old(out)@ + decimal_text(n as nat),
    decreases n,
{
    if n >= 10 {
        push_decimal(out, n / 10);
    }
    out.append(digit_str(n % 10));
    proof {
        if n >= 10 {
            assert(old(out)@ + decimal_text(n as nat) =~= old(out)@ + decimal_text((n / 10) as nat)
                + seq![digit_char((n % 10) as nat)]);
        }
    }
}

impl Amount {
    /// The canonical text of the amount, e.g. `12345` gives `"1.2345"`.
    pub fn to_string(&self) -> (r: String)
        ensures
            r@ == render_text(self@),
    {
        let m: u64 = if self.0 < 0 {
            (0i128 - self.0 as i128) as u64
        } else {
            self.0 as u64
        };
        let mut out = String::new();
        if self.0 < 0 {
            proof {
                reveal_strlit("-");
            }
            out.append("-");
        }
        push_decimal(&mut out, m / 10000);
        proof {
            reveal_strlit(".");
        }
        out.append(".");
        let f = m % 10000;
        out.append(digit_str(f / 1000));
        out.append(digit_str(f / 100 % 10));
        out.append(digit_str(f / 10 % 10));
        out.append(digit_str(f % 10));
        assert(out@ =~= render_text(self@));
        out
    }
}

// ---------------------------------------------------------------------------
// Transaction requests and output rows.
// ---------------------------------------------------------------------------
/// The five kinds of transaction request.
#[derive(Debug, Clone, Copy, PartialEq, Eq, Structural)]
pub enum TransactionType {
    Deposit,
    Withdrawal,
    Dispute,
    Resolve,
    Chargeback,
}

/// One well-formed transaction request. Only deposits and withdrawals carry
/// an amount; the others name the transaction they refer to by `tx`.
#[derive(Debug, Clone, Copy, PartialEq, Eq, Structural)]
pub struct Transaction {
    pub kind: TransactionType,
    pub client: ClientId,
    pub tx: TxId,
    pub amount: Option<Amount>,
}

/// One line of the final account snapshot.
#[derive(Debug, Clone, Copy, PartialEq, Eq, Structural)]
pub struct AccountRow {
    pub client: ClientId,
    pub available: Amount,
    pub held: Amount,
    pub total: Amount,
    pub locked: bool,
}

} // verus!
