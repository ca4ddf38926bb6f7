use vstd::prelude::*;
use vstd::string::StrSliceExecFns;
use crate::account::AccountError;
use crate::auto_transfer::AutoTransferError;
use crate::limit::LimitError;
use crate::session::SessionError;
use crate::transfer::TransferError;
use crate::user::{clone_user_error, UserError};

verus! {

#[derive(Debug, PartialEq, Eq, Clone, Copy)]
pub enum PlutusError {
    Success,
    /// A required argument is missing from the query.
    InvalidArguments,
    /// An argument does not match its required format.
    InvalidFormat,
}

/// The outcome of an operation, as handed to the request layer.
#[derive(Debug, PartialEq, Eq)]
pub enum Outcome {
    Success,
    Data(String),
    Account(AccountError),
    Limit(LimitError),
    Session(SessionError),
    AutoTransfer(AutoTransferError),
    Transfer(TransferError),
    User(UserError),
    Plutus(PlutusError),
    Unspecified,
}

pub fn clone_outcome(o: &Outcome) -> (r: Outcome)
    ensures
        r == *o,
{
    match o {
        Outcome::Success => Outcome::Success,
        Outcome::Data(s) => Outcome::Data(s.clone()),
        Outcome::Account(e) => Outcome::Account(*e),
        Outcome::Limit(e) => Outcome::Limit(*e),
        Outcome::Session(e) => Outcome::Session(*e),
        Outcome::AutoTransfer(e) => Outcome::AutoTransfer(*e),
        Outcome::Transfer(e) => Outcome::Transfer(*e),
        Outcome::User(e) => Outcome::User(clone_user_error(e)),
        Outcome::Plutus(e) => Outcome::Plutus(*e),
        Outcome::Unspecified => Outcome::Unspecified,
    }
}

/// The format a query argument must match.
#[derive(Debug, PartialEq, Eq, Clone, Copy)]
pub enum PlutusFormat {
    /// Anything goes.
    Unspecified,
    /// A plain decimal amount, with an optional sign and fraction part.
    Float,
    /// A decimal number that fits 32 bits.
    Number,
    /// A decimal number that fits 64 bits.
    BigNumber,
    /// Lowercase letters, digits and underscores only.
    Key,
    /// Not validated beyond presence.
    FlexibleKey,
}

// ---------------------------------------------------------------------------
// What each format means, over the argument's characters.
// ---------------------------------------------------------------------------

pub open spec fn is_digit(c: char) -> bool {
    48 <= c as int <= 57
}

pub open spec fn digit_val(c: char) -> int {
    c as int - 48
}

pub open spec fn all_digits(s: Seq<char>) -> bool {
    forall|i: int| 0 <= i < s.len() ==> is_digit(#[trigger] s[i])
}

/// The value of a digit string, folded from the left.
pub open spec fn dec_value(s: Seq<char>) -> int
    decreases s.len(),
{
    if s.len() == 0 {
        0
    } else {
        dec_value(s.drop_last()) * 10 + digit_val(s.last())
    }
}

pub open spec fn strip_sign(s: Seq<char>) -> Seq<char> {
    if s.len() > 0 && (s[0] == '+' || s[0] == '-') {
        s.drop_first()
    } else {
        s
    }
}

pub open spec fn is_negative(s: Seq<char>) -> bool {
    s.len() > 0 && s[0] == '-'
}

/// What a decimal integer argument decodes to: an optional sign, then one or
/// more digits; anything else is malformed.
pub open spec fn parse_decimal(s: Seq<char>) -> Option<int> {
    let t = strip_sign(s);
    if t.len() == 0 || !all_digits(t) {
        None
    } else if is_negative(s) {
        Some(-dec_value(t))
    } else {
        Some(dec_value(t))
    }
}

/// A decimal integer that fits 32 bits.
pub open spec fn is_number_str(s: Seq<char>) -> bool {
    parse_decimal(s) matches Some(v) && i32::MIN <= v <= i32::MAX
}

/// A decimal integer that fits 64 bits.
pub open spec fn is_bignumber_str(s: Seq<char>) -> bool {
    parse_decimal(s) matches Some(v) && i64::MIN <= v <= i64::MAX
}

pub open spec fn is_float_char(c: char) -> bool {
    is_digit(c) || c as int == 46
}

pub open spec fn count_dots(s: Seq<char>) -> int
    decreases s.len(),
{
    if s.len() == 0 {
        0
    } else {
        count_dots(s.drop_last()) + (if s.last() as int == 46 {
            1int
        } else {
            0int
        })
    }
}

/// A plain decimal amount: an optional sign, digits with at most one decimal
/// point among them, and at least one digit.
pub open spec fn is_float_str(s: Seq<char>) -> bool {
    let t = strip_sign(s);
    &&& t.len() > 0
    &&& forall|i: int| 0 <= i < t.len() ==> is_float_char(#[trigger] t[i])
    &&& count_dots(t) <= 1
    &&& exists|i: int| 0 <= i < t.len() && is_digit(#[trigger] t[i])
}

pub open spec fn is_key_char(c: char) -> bool {
    ||| 97 <= c as int <= 122
    ||| 48 <= c as int <= 57
    ||| c as int == 95
}

/// Lowercase letters, digits and underscores only.
pub open spec fn is_key_str(s: Seq<char>) -> bool {
    forall|i: int| 0 <= i < s.len() ==> is_key_char(#[trigger] s[i])
}

pub open spec fn format_ok(f: PlutusFormat, v: Seq<char>) -> bool {
    match f {
        PlutusFormat::Unspecified => true,
        PlutusFormat::Float => is_float_str(v),
        PlutusFormat::Number => is_number_str(v),
        PlutusFormat::BigNumber => is_bignumber_str(v),
        PlutusFormat::Key => is_key_str(v),
        PlutusFormat::FlexibleKey => true,
    }
}

/// The first value stored under the key, if any.
pub open spec fn lookup(q: Seq<(String, String)>, k: Seq<char>) -> Option<Seq<char>>
    decreases q.len(),
{
    if q.len() == 0 {
        None
    } else if q[0].0@ == k {
        Some(q[0].1@)
    } else {
        lookup(q.drop_first(), k)
    }
}

/// What the whole validation resolves to: the first missing argument wins as
/// InvalidArguments, the first present argument of the wrong shape as
/// InvalidFormat, and a query that passes every check is a success.
pub open spec fn check_spec(q: Seq<(String, String)>, t: Seq<(&str, PlutusFormat)>) -> PlutusError
    decreases t.len(),
{
    if t.len() == 0 {
        PlutusError::Success
    } else {
        match lookup(q, t[0].0@) {
            None => PlutusError::InvalidArguments,
            Some(v) => if !format_ok(t[0].1, v) {
                PlutusError::InvalidFormat
            } else {
                check_spec(q, t.drop_first())
            },
        }
    }
}

/// All prefixes of a digit string have values no greater than the whole, and
/// never negative.
proof fn lemma_dec_value_prefix(t: Seq<char>, k: int)
    requires
        all_digits(t),
        0 <= k <= t.len(),
    ensures
        0 <= dec_value(t.take(k)) <= dec_value(t),
    decreases t.len() - k,
{
    if k == t.len() {
        assert(t.take(k) =~= t);
        lemma_dec_value_nonneg(t);
    } else {
        assert(t.take(k + 1).drop_last() =~= t.take(k));
        assert(t.take(k + 1).last() == t[k]);
        lemma_dec_value_prefix(t, k + 1);
    }
}

proof fn lemma_dec_value_nonneg(t: Seq<char>)
    requires
        all_digits(t),
    ensures
        0 <= dec_value(t),
    decreases t.len(),
{
    if t.len() > 0 {
        assert(all_digits(t.drop_last())) by {
            assert(forall|i: int| 0 <= i < t.len() - 1 ==> t.drop_last()[i] == t[i]);
        }
        lemma_dec_value_nonneg(t.drop_last());
        assert(is_digit(t.last()));
    }
}

/// Scans an argument as a signed decimal and checks that its magnitude stays
/// within the given bound; the bound is the widest magnitude either sign
/// admits, so the callers decide the exact sign-dependent range.
fn scan_decimal(v: &String, bound: u64) -> (r: Option<(bool, u64)>)
    requires
        10 <= bound <= 0x8000_0000_0000_0000,
    ensures
        r is None <==> (parse_decimal(v@) is None || dec_value(strip_sign(v@)) > bound),
        r matches Some(p) ==> parse_decimal(v@) is Some && p.1 == dec_value(strip_sign(v@))
            && p.0 == is_negative(v@),
{
    let s = v.as_str();
    let n = s.unicode_len();
    let (start, neg): (usize, bool) = if n > 0 {
        let c0 = s.get_char(0);
        if c0 == '-' {
            (1, true)
        } else if c0 == '+' {
            (1, false)
        } else {
            (0, false)
        }
    } else {
        (0, false)
    };
    let ghost t = strip_sign(s@);
    proof {
        assert(t =~= s@.subrange(start as int, n as int));
    }
    if n == start {
        return None;
    }
    let mut m: u64 = 0;
    let mut k: usize = start;
    while k < n
        invariant
            start <= k <= n == s@.len(),
            t == s@.subrange(start as int, n as int),
            t == strip_sign(v@),
            s@ == v@,
            all_digits(t.take(k - start)),
            m == dec_value(t.take(k - start)),
            0 <= m <= bound,
            10 <= bound <= 0x8000_0000_0000_0000,
        decreases n - k,
    {
        proof {
            assert(t.take(k - start + 1).drop_last() =~= t.take(k - start));
            assert(t.take(k - start + 1).last() == t[k - start]);
        }
        let c = s.get_char(k);
        let u = c as u32;
        proof {
            vstd::utf8::char_u32_cast(c, u);
        }
        if u < 48 || u > 57 {
            proof {
                assert(!is_digit(t[k - start]));
            }
            return None;
        }
        let d = (u - 48) as u64;
        if m > (bound - d) / 10 {
            proof {
                assert(10 * ((bound - d) / 10) + (bound - d) % 10 == bound - d);
                assert(dec_value(t.take(k - start + 1)) == m * 10 + d);
                assert(dec_value(t.take(k - start + 1)) > bound);
                if all_digits(t) {
                    lemma_dec_value_prefix(t, k - start + 1);
                }
            }
            return None;
        }
        m = m * 10 + d;
        k = k + 1;
    }
    proof {
        assert(t.take(n - start) =~= t);
    }
    Some((neg, m))
}

fn check_number(v: &String) -> (r: bool)
    ensures
        r == is_number_str(v@),
{
    match scan_decimal(v, 0x8000_0000) {
        None => false,
        Some((neg, m)) => neg || m <= 0x7fff_ffff,
    }
}

fn check_bignumber(v: &String) -> (r: bool)
    ensures
        r == is_bignumber_str(v@),
{
    match scan_decimal(v, 0x8000_0000_0000_0000) {
        None => false,
        Some((neg, m)) => neg || m <= 0x7fff_ffff_ffff_ffff,
    }
}

fn check_float(v: &String) -> (r: bool)
    ensures
        r == is_float_str(v@),
{
    let s = v.as_str();
    let n = s.unicode_len();
    let start: usize = if n > 0 {
        let c0 = s.get_char(0);
        if c0 == '-' || c0 == '+' {
            1
        } else {
            0
        }
    } else {
        0
    };
    let ghost t = strip_sign(s@);
    proof {
        assert(t =~= s@.subrange(start as int, n as int));
    }
    if n == start {
        return false;
    }
    let mut dots: usize = 0;
    let mut has_digit: bool = false;
    let mut k: usize = start;
    while k < n
        invariant
            start <= k <= n == s@.len(),
            t == s@.subrange(start as int, n as int),
            t == strip_sign(v@),
            s@ == v@,
            forall|i: int| 0 <= i < k - start ==> is_float_char(#[trigger] t[i]),
            dots == count_dots(t.take(k - start)),
            has_digit == exists|i: int| 0 <= i < k - start && is_digit(#[trigger] t[i]),
            dots <= k - start,
        decreases n - k,
    {
        proof {
            assert(t.take(k - start + 1).drop_last() =~= t.take(k - start));
            assert(t.take(k - start + 1).last() == t[k - start]);
        }
        let c = s.get_char(k);
        let u = c as u32;
        proof {
            vstd::utf8::char_u32_cast(c, u);
        }
        if u >= 48 && u <= 57 {
            has_digit = true;
        } else if u == 46 {
            dots = dots + 1;
        } else {
            proof {
                assert(!is_float_char(t[k - start]));
            }
            return false;
        }
        k = k + 1;
    }
    proof {
        assert(t.take(n - start) =~= t);
    }
    has_digit && dots <= 1
}

fn check_key(v: &String) -> (r: bool)
    ensures
        r == is_key_str(v@),
{
    let s = v.as_str();
    let n = s.unicode_len();
    let mut k: usize = 0;
    while k < n
        invariant
            0 <= k <= n == s@.len(),
            s@ == v@,
            forall|i: int| 0 <= i < k ==> is_key_char(#[trigger] s@[i]),
        decreases n - k,
    {
        let c = s.get_char(k);
        let u = c as u32;
        proof {
            vstd::utf8::char_u32_cast(c, u);
        }
        if !((u >= 97 && u <= 122) || (u >= 48 && u <= 57) || u == 95) {
            proof {
                assert(!is_key_char(s@[k as int]));
            }
            return false;
        }
        k = k + 1;
    }
    true
}

fn format_ok_exec(f: PlutusFormat, v: &String) -> (r: bool)
    ensures
        r == format_ok(f, v@),
{
    match f {
        PlutusFormat::Unspecified => true,
        PlutusFormat::Float => check_float(v),
        PlutusFormat::Number => check_number(v),
        PlutusFormat::BigNumber => check_bignumber(v),
        PlutusFormat::Key => check_key(v),
        PlutusFormat::FlexibleKey => true,
    }
}

fn lookup_exec<'a>(q: &'a Vec<(String, String)>, k: &String) -> (r: Option<&'a String>)
    ensures
        r is Some <==> lookup(q@, k@) is Some,
        r matches Some(v) ==> lookup(q@, k@) == Some(v@),
{
    let n = q.len();
    proof {
        assert(q@.skip(0) =~= q@);
    }
    let mut i: usize = 0;
    while i < n
        invariant
            0 <= i <= n == q@.len(),
            lookup(q@, k@) == lookup(q@.skip(i as int), k@),
        decreases n - i,
    {
        proof {
            assert(q@.skip(i as int).drop_first() =~= q@.skip(i + 1));
            assert(q@.skip(i as int)[0] == q@[i as int]);
        }
        if q[i].0 == *k {
            return Some(&q[i].1);
        }
        i = i + 1;
    }
    proof {
        assert(q@.skip(n as int) =~= Seq::<(String, String)>::empty());
    }
    None
}

/// Validates a query against the required arguments and their formats: the
/// first missing argument is reported as InvalidArguments, the first present
/// argument of the wrong shape as InvalidFormat.
pub fn check(c: &Vec<(String, String)>, t: Vec<(&str, PlutusFormat)>) -> (r: PlutusError)
    ensures
        r == check_spec(c@, t@),
{
    let n = t.len();
    proof {
        assert(t@.skip(0) =~= t@);
    }
    let mut i: usize = 0;
    while i < n
        invariant
            0 <= i <= n == t@.len(),
            check_spec(c@, t@) == check_spec(c@, t@.skip(i as int)),
        decreases n - i,
    {
        proof {
            assert(t@.skip(i as int).drop_first() =~= t@.skip(i + 1));
            assert(t@.skip(i as int)[0] == t@[i as int]);
        }
        let key = t[i].0.to_owned();
        match lookup_exec(c, &key) {
            None => {
                return PlutusError::InvalidArguments;
            },
            Some(v) => {
                if !format_ok_exec(t[i].1, v) {
                    return PlutusError::InvalidFormat;
                }
            },
        }
        i = i + 1;
    }
    proof {
        assert(t@.skip(n as int) =~= Seq::<(&str, PlutusFormat)>::empty());
    }
    PlutusError::Success
}

} // verus!
