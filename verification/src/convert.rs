//! Typed reading of stored option text: which texts denote a value of a
//! given type, and which value they denote.

use vstd::prelude::*;
use vstd::string::StrSliceExecFns;
use vstd::string::StringExecFns;

verus! {

/// A type whose values can be read back from the text an option stores.
///
/// `text_parses` says which texts denote a value of the type at all, and
/// `text_holds` says which value a given text denotes. Each implementation
/// follows the type's standard text form.
pub trait FromText: Sized {
    /// Whether `s` denotes a value of this type.
    spec fn text_parses(s: Seq<char>) -> bool;

    /// Whether `s` denotes exactly the value `v`.
    spec fn text_holds(s: Seq<char>, v: Self) -> bool;

    /// Read a value of this type out of `s`.
    fn from_text(s: &str) -> (r: Option<Self>)
        ensures
            r is Some <==> Self::text_parses(s@),
            r matches Some(v) ==> Self::text_holds(s@, v),
    ;
}

/// Whether two string slices hold the same characters.
pub fn str_eq(a: &str, b: &str) -> (r: bool)
    ensures
        r == (a@ == b@),
{
    let n = a.unicode_len();
    if n != b.unicode_len() {
        return false;
    }
    let mut i: usize = 0;
    while i < n
        invariant
            i <= n,
            n == a@.len(),
            n == b@.len(),
            forall|j: int| 0 <= j < i ==> a@[j] == b@[j],
        decreases n - i,
    {
        if a.get_char(i) != b.get_char(i) {
            return false;
        }
        i += 1;
    }
    proof {
        assert(a@ =~= b@);
    }
    true
}

/// Whether `c` is a decimal digit.
pub open spec fn is_dec_digit(c: char) -> bool {
    '0' as u32 <= c as u32 && c as u32 <= '9' as u32
}

/// Whether every character of `s` is a decimal digit.
pub open spec fn all_dec_digits(s: Seq<char>) -> bool {
    forall|i: int| 0 <= i < s.len() ==> is_dec_digit(s[i])
}

/// The number that the digits of `s` write in base ten.
pub open spec fn digits_value(s: Seq<char>) -> int
    decreases s.len(),
{
    if s.len() == 0 {
        0
    } else {
        digits_value(s.drop_last()) * 10 + (s.last() as u32 - '0' as u32)
    }
}

/// The digits of a number's text: a single leading `+` sign is not one of
/// them.
pub open spec fn unsigned_digits(s: Seq<char>) -> Seq<char> {
    if s.len() > 0 && s[0] == '+' {
        s.skip(1)
    } else {
        s
    }
}

/// Whether `s` is the standard text form of a `usize`: an optional `+`
/// sign, then at least one decimal digit, writing a value that fits.
pub open spec fn usize_parses(s: Seq<char>) -> bool {
    let d = unsigned_digits(s);
    d.len() > 0 && all_dec_digits(d) && digits_value(d) <= usize::MAX
}

proof fn lemma_digits_value_nonneg(s: Seq<char>)
    requires
        all_dec_digits(s),
    ensures
        digits_value(s) >= 0,
    decreases s.len(),
{
    if s.len() > 0 {
        assert(all_dec_digits(s.drop_last()));
        lemma_digits_value_nonneg(s.drop_last());
    }
}

proof fn lemma_digits_value_prefix(s: Seq<char>, j: int)
    requires
        all_dec_digits(s),
        0 <= j <= s.len(),
    ensures
        digits_value(s.take(j)) <= digits_value(s),
    decreases s.len(),
{
    if j == s.len() {
        assert(s.take(j) =~= s);
    } else {
        assert(all_dec_digits(s.drop_last()));
        lemma_digits_value_nonneg(s.drop_last());
        lemma_digits_value_prefix(s.drop_last(), j);
        assert(s.take(j) =~= s.drop_last().take(j));
    }
}

proof fn lemma_digits_value_step(s: Seq<char>, j: int)
    requires
        0 <= j < s.len(),
    ensures
        digits_value(s.take(j + 1)) == digits_value(s.take(j)) * 10 + (s[j] as u32 - '0' as u32),
{
    assert(s.take(j + 1).drop_last() =~= s.take(j));
    assert(s.take(j + 1).last() == s[j]);
}

/// Read a `usize` out of its standard text form: an optional `+` sign and
/// then at least one decimal digit. Any other text, and any value that does
/// not fit in a `usize`, yields `None`.
pub fn parse_usize(s: &str) -> (r: Option<usize>)
    ensures
        r is Some <==> usize_parses(s@),
        r matches Some(v) ==> v == digits_value(unsigned_digits(s@)),
{
    let n = s.unicode_len();
    let start: usize = if n > 0 && s.get_char(0) == '+' {
        1
    } else {
        0
    };
    let ghost d = unsigned_digits(s@);
    proof {
        assert(d =~= s@.skip(start as int));
    }
    if start >= n {
        return None;
    }
    let mut value: usize = 0;
    let mut i: usize = start;
    while i < n
        invariant
            start <= i <= n,
            start < n,
            n == s@.len(),
            d == unsigned_digits(s@),
            d =~= s@.skip(start as int),
            all_dec_digits(d.take(i - start)),
            value == digits_value(d.take(i - start)),
        decreases n - i,
    {
        let c = s.get_char(i);
        let cv = c as u32;
        let zero = '0' as u32;
        let nine = '9' as u32;
        if cv < zero || cv > nine {
            proof {
                assert(d[i - start] == s@[i as int]);
                assert(!is_dec_digit(d[i - start]));
            }
            return None;
        }
        let digit = (cv - zero) as usize;
        if value > (usize::MAX - digit) / 10 {
            proof {
                let k = i - start;
                lemma_digits_value_step(d, k);
                assert(d[k] == s@[i as int]);
                assert(digits_value(d.take(k + 1)) == value * 10 + digit);
                assert(value * 10 + digit > usize::MAX) by {
                    let m = (usize::MAX - digit) as int;
                    assert(m == 10 * (m / 10) + m % 10) by {
                        vstd::arithmetic::div_mod::lemma_fundamental_div_mod(m, 10);
                    }
                    assert(value >= m / 10 + 1);
                    assert(value * 10 >= (m / 10 + 1) * 10) by (nonlinear_arith)
                        requires value >= m / 10 + 1;
                    assert((m / 10 + 1) * 10 == 10 * (m / 10) + 10);
                }
                if all_dec_digits(d) {
                    lemma_digits_value_prefix(d, k + 1);
                }
            }
            return None;
        }
        proof {
            let k = i - start;
            lemma_digits_value_step(d, k);
            assert(d[k] == s@[i as int]);
            assert(value * 10 + digit <= usize::MAX) by {
                let m = (usize::MAX - digit) as int;
                assert(m == 10 * (m / 10) + m % 10) by {
                    vstd::arithmetic::div_mod::lemma_fundamental_div_mod(m, 10);
                }
                assert(value <= m / 10);
                assert(value * 10 <= (m / 10) * 10) by (nonlinear_arith)
                    requires value <= m / 10;
            }
            assert(d.take(k + 1) =~= d.take(k).push(d[k]));
            assert(all_dec_digits(d.take(k + 1)));
        }
        value = value * 10 + digit;
        i += 1;
    }
    proof {
        assert(d.take(n - start) =~= d);
    }
    Some(value)
}

impl FromText for bool {
    /// A `bool` is written `true` or `false` and nothing else.
    open spec fn text_parses(s: Seq<char>) -> bool {
        s == "true"@ || s == "false"@
    }

    open spec fn text_holds(s: Seq<char>, v: bool) -> bool {
        (s == "true"@ && v) || (s == "false"@ && !v)
    }

    fn from_text(s: &str) -> (r: Option<bool>) {
        if str_eq(s, "true") {
            Some(true)
        } else if str_eq(s, "false") {
            Some(false)
        } else {
            None
        }
    }
}

impl FromText for String {
    /// Any text denotes itself.
    open spec fn text_parses(s: Seq<char>) -> bool {
        true
    }

    open spec fn text_holds(s: Seq<char>, v: String) -> bool {
        v@ == s
    }

    fn from_text(s: &str) -> (r: Option<String>) {
        Some(String::from_str(s))
    }
}

impl FromText for usize {
    /// A `usize` is written as an optional `+` sign and decimal digits.
    open spec fn text_parses(s: Seq<char>) -> bool {
        usize_parses(s)
    }

    open spec fn text_holds(s: Seq<char>, v: usize) -> bool {
        usize_parses(s) && v == digits_value(unsigned_digits(s))
    }

    fn from_text(s: &str) -> (r: Option<usize>) {
        parse_usize(s)
    }
}

} // verus!
