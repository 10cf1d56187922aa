//! Decimal text for signed 64-bit counters.
//!
//! The read-modify-write operators of every backend store counters as text.
//! This module fixes that text form: `spec_format_i64` says what an integer
//! looks like when stored, `spec_parse_i64` says which strings read back as
//! integers (the grammar of `i64` text: an optional sign, then decimal
//! digits, within the 64-bit range), and the executable functions implement
//! both with proofs. The round-trip lemma ties them together.

use vstd::prelude::*;

verus! {

/// A decimal digit character.
pub open spec fn is_digit(c: char) -> bool {
    48 <= c as u32 <= 57
}

/// Numeric value of a digit character.
pub open spec fn digit_val(c: char) -> int {
    c as u32 - 48
}

/// The digit character for a value below ten.
pub open spec fn digit_char(d: int) -> char {
    ((d + 48) as u8) as char
}

/// Every character of `s` is a decimal digit.
pub open spec fn all_digits(s: Seq<char>) -> bool {
    forall|i: int| 0 <= i < s.len() ==> is_digit(#[trigger] s[i])
}

/// The number that a digit string denotes, most significant digit first.
pub open spec fn digits_val(s: Seq<char>) -> int
    decreases s.len(),
{
    if s.len() == 0 {
        0
    } else {
        digits_val(s.drop_last()) * 10 + digit_val(s.last())
    }
}

/// The digit string of a natural number, without sign and without leading
/// zeros (except for zero itself).
pub open spec fn spec_digits(n: nat) -> Seq<char>
    decreases n,
{
    if n < 10 {
        seq![digit_char(n as int)]
    } else {
        spec_digits(n / 10).push(digit_char((n % 10) as int))
    }
}

/// The stored text of a signed 64-bit counter value.
pub open spec fn spec_format_i64(n: int) -> Seq<char> {
    if n < 0 {
        seq!['-'] + spec_digits((-n) as nat)
    } else {
        spec_digits(n as nat)
    }
}

/// The value a string reads back as, following the `i64` text grammar: an
/// optional `+` or `-`, then one or more decimal digits, denoting a value
/// within the signed 64-bit range; anything else reads back as nothing.
pub open spec fn spec_parse_i64(s: Seq<char>) -> Option<int> {
    let neg = s.len() > 0 && s[0] == '-';
    let ds = if s.len() > 0 && (s[0] == '-' || s[0] == '+') {
        s.drop_first()
    } else {
        s
    };
    if ds.len() > 0 && all_digits(ds) {
        let v = if neg {
            -digits_val(ds)
        } else {
            digits_val(ds)
        };
        if i64::MIN <= v <= i64::MAX {
            Some(v)
        } else {
            None
        }
    } else {
        None
    }
}

/// A digit string denotes a non-negative number.
pub proof fn lemma_digits_val_nonneg(s: Seq<char>)
    requires
        all_digits(s),
    ensures
        digits_val(s) >= 0,
    decreases s.len(),
{
    if s.len() > 0 {
        lemma_digits_val_nonneg(s.drop_last());
    }
}

/// Extending a digit string multiplies its value by ten and adds the digit,
/// so a prefix never denotes more than the whole string.
pub proof fn lemma_digits_val_prefix_bound(s: Seq<char>, i: int)
    requires
        all_digits(s),
        0 <= i <= s.len(),
    ensures
        digits_val(s) >= digits_val(s.subrange(0, i)),
    decreases s.len() - i,
{
    if i == s.len() {
        assert(s.subrange(0, i) =~= s);
    } else {
        let p = s.subrange(0, i);
        let q = s.subrange(0, i + 1);
        assert(q.drop_last() =~= p);
        assert(forall|j: int| 0 <= j < p.len() ==> is_digit(#[trigger] p[j]));
        lemma_digits_val_nonneg(p);
        assert(digits_val(q) == digits_val(p) * 10 + digit_val(s[i]));
        lemma_digits_val_prefix_bound(s, i + 1);
    }
}

/// The digit string of a number is made of digits, is never empty, and
/// denotes that number.
pub proof fn lemma_digits_roundtrip(n: nat)
    ensures
        all_digits(spec_digits(n)),
        spec_digits(n).len() >= 1,
        digits_val(spec_digits(n)) == n,
    decreases n,
{
    if n < 10 {
        let s = spec_digits(n);
        assert(s =~= seq![digit_char(n as int)]);
        assert(is_digit(digit_char(n as int)));
        assert(s.len() == 1 && s.last() == digit_char(n as int));
        assert(s.drop_last() =~= Seq::<char>::empty());
        assert(digits_val(s.drop_last()) == 0);
        assert(digits_val(s) == digit_val(digit_char(n as int)));
    } else {
        lemma_digits_roundtrip(n / 10);
        let s = spec_digits(n);
        let head = spec_digits(n / 10);
        let d = digit_char((n % 10) as int);
        assert(s == head.push(d));
        assert(s.drop_last() =~= head);
        assert(s.last() == d);
        assert(is_digit(d));
        assert(forall|i: int| 0 <= i < s.len() ==> is_digit(#[trigger] s[i])) by {
            assert(forall|i: int| 0 <= i < head.len() ==> s[i] == #[trigger] head[i]);
        }
        assert(digits_val(s) == digits_val(head) * 10 + digit_val(d));
        assert(digits_val(s) == (n / 10) * 10 + n % 10);
    }
}

/// Storing a counter and reading it back yields the same value: the stored
/// text of any signed 64-bit integer parses to that integer.
pub proof fn lemma_format_parse_roundtrip(n: int)
    requires
        i64::MIN <= n <= i64::MAX,
    ensures
        spec_parse_i64(spec_format_i64(n)) == Some(n),
{
    if n >= 0 {
        let s = spec_format_i64(n);
        lemma_digits_roundtrip(n as nat);
        assert(is_digit(s[0]));
        assert(s[0] as u32 != 45 && s[0] as u32 != 43) by {
            assert(48 <= s[0] as u32 <= 57);
        }
        assert(s[0] != '-' && s[0] != '+');
    } else {
        let m = (-n) as nat;
        lemma_digits_roundtrip(m);
        let s = spec_format_i64(n);
        let ds = spec_digits(m);
        assert(s == seq!['-'] + ds);
        assert(s[0] == '-');
        assert(s.drop_first() =~= ds);
        assert(-digits_val(ds) == n);
    }
}

/// Collecting characters into a `String`.
///
/// Relies on `String`'s `FromIterator` implementation: collecting characters
/// yields the string of exactly those characters, in order.
#[verifier::external_body]
fn chars_to_string(cs: &Vec<char>) -> (r: String)
    ensures
        r@ == cs@,
{
    cs.iter().collect()
}

/// The digit characters of an unsigned number, most significant first.
fn u64_digits(n: u64) -> (r: Vec<char>)
    ensures
        r@ == spec_digits(n as nat),
{
    let mut acc: Vec<char> = Vec::new();
    let mut cur: u64 = n;
    let mut done: bool = false;
    while !done
        invariant
            !done ==> spec_digits(n as nat) == spec_digits(cur as nat) + acc@,
            done ==> acc@ == spec_digits(n as nat),
        decreases (if done {
            0int
        } else {
            cur as int + 1
        }),
    {
        let d: u8 = (cur % 10) as u8;
        let c: char = (d + 48) as char;
        acc.insert(0, c);
        if cur < 10 {
            proof {
                assert(spec_digits(cur as nat) =~= seq![digit_char(cur as int)]);
                assert(acc@ =~= spec_digits(cur as nat) + acc@.drop_first());
            }
            done = true;
        } else {
            let ghost prev = cur as nat;
            cur = cur / 10;
            proof {
                assert(spec_digits(prev) == spec_digits(prev / 10).push(digit_char(
                    (prev % 10) as int,
                )));
                assert(spec_digits(prev) + acc@.drop_first() =~= spec_digits(cur as nat) + acc@);
            }
        }
    }
    acc
}

/// The decimal text of an unsigned 64-bit count.
pub fn format_u64(n: u64) -> (r: String)
    ensures
        r@ == spec_digits(n as nat),
{
    let digits = u64_digits(n);
    chars_to_string(&digits)
}

/// The stored text of a signed 64-bit counter value.
pub fn format_i64(n: i64) -> (r: String)
    ensures
        r@ == spec_format_i64(n as int),
{
    if n >= 0 {
        let digits = u64_digits(n as u64);
        chars_to_string(&digits)
    } else {
        let mag: u64 = ((-(n + 1)) as u64) + 1;
        assert(mag as int == -(n as int));
        let digits = u64_digits(mag);
        let tail = chars_to_string(&digits);
        let head = String::from_str("-");
        let r = head.concat(tail.as_str());
        proof {
            reveal_strlit("-");
            assert(r@ =~= seq!['-'] + spec_digits((-(n as int)) as nat));
        }
        r
    }
}

/// Reads a string back as a signed 64-bit counter value, following the
/// `i64` text grammar; yields nothing on any other string.
pub fn parse_i64(s: &str) -> (r: Option<i64>)
    ensures
        r matches Some(n) ==> spec_parse_i64(s@) == Some(n as int),
        r is None ==> spec_parse_i64(s@) is None,
{
    let len = s.unicode_len();
    if len == 0 {
        return None;
    }
    let first = s.get_char(0);
    let neg = first == '-';
    let has_sign = first == '-' || first == '+';
    let start: usize = if has_sign {
        1
    } else {
        0
    };
    if start == len {
        return None;
    }
    let ghost ds = if has_sign {
        s@.drop_first()
    } else {
        s@
    };
    let limit: u64 = if neg {
        9223372036854775808
    } else {
        9223372036854775807
    };
    let mut acc: u64 = 0;
    let mut i: usize = start;
    while i < len
        invariant
            start <= i <= len,
            len == s@.len(),
            start == (if has_sign {
                1int
            } else {
                0int
            }),
            has_sign == (s@[0] == '-' || s@[0] == '+'),
            neg == (s@[0] == '-'),
            ds == (if has_sign {
                s@.drop_first()
            } else {
                s@
            }),
            ds.len() == len - start,
            all_digits(ds.subrange(0, i - start)),
            acc == digits_val(ds.subrange(0, i - start)),
            acc <= limit,
            limit == (if neg {
                9223372036854775808u64
            } else {
                9223372036854775807u64
            }),
        decreases len - i,
    {
        let c = s.get_char(i);
        proof {
            assert(c == ds[i - start]);
        }
        let cv = c as u32;
        if cv < 48 || cv > 57 {
            proof {
                assert(!is_digit(ds[i - start]));
                assert(!all_digits(ds));
            }
            return None;
        }
        let d: u64 = (cv - 48) as u64;
        let ghost pre = ds.subrange(0, i - start);
        let ghost ext = ds.subrange(0, i - start + 1);
        proof {
            assert(ext.drop_last() =~= pre);
            assert(ext.last() == ds[i - start]);
            assert(digits_val(ext) == acc * 10 + d);
            assert(all_digits(ext));
        }
        if acc > (limit - d) / 10 {
            proof {
                assert(acc * 10 + d > limit) by {
                    assert(acc >= (limit - d) / 10 + 1);
                    assert(((limit - d) / 10 + 1) * 10 > limit - d) by (nonlinear_arith);
                    assert(acc * 10 >= ((limit - d) / 10 + 1) * 10) by (nonlinear_arith)
                        requires
                            acc >= (limit - d) / 10 + 1,
                    ;
                }
                if all_digits(ds) {
                    lemma_digits_val_prefix_bound(ds, i - start + 1);
                    assert(digits_val(ds) > limit);
                }
            }
            return None;
        }
        proof {
            assert(acc * 10 + d <= limit) by {
                assert(acc <= (limit - d) / 10);
                assert((limit - d) / 10 * 10 <= limit - d) by (nonlinear_arith);
                assert(acc * 10 <= (limit - d) / 10 * 10) by (nonlinear_arith)
                    requires
                        acc <= (limit - d) / 10,
                ;
            }
        }
        acc = acc * 10 + d;
        i = i + 1;
    }
    proof {
        assert(ds.subrange(0, len - start) =~= ds);
    }
    if neg {
        if acc == 0 {
            assert(spec_parse_i64(s@) == Some(0int));
            Some(0)
        } else {
            let v: i64 = -((acc - 1) as i64) - 1;
            assert(v as int == -(acc as int));
            Some(v)
        }
    } else {
        Some(acc as i64)
    }
}

} // verus!
