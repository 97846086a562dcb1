use vstd::prelude::*;

verus! {

broadcast use vstd::string::group_string_axioms;

/// An ASCII decimal digit.
pub open spec fn is_digit(c: char) -> bool {
    '0' <= c && c <= '9'
}

/// Every character of `d` is an ASCII decimal digit.
pub open spec fn all_digits(d: Seq<char>) -> bool {
    forall|i: int| 0 <= i < d.len() ==> is_digit(#[trigger] d[i])
}

/// The number that the digit string `d` writes in base ten
/// (leading zeros allowed; the empty string is 0).
pub open spec fn digits_value(d: Seq<char>) -> nat
    decreases d.len(),
{
    if d.len() == 0 {
        0
    } else {
        digits_value(d.drop_last()) * 10 + ((d.last() as int) - ('0' as int)) as nat
    }
}

/// `d` is a nonempty string of decimal digits whose value is at most `bound`.
pub open spec fn decimal_within(d: Seq<char>, bound: nat) -> bool {
    d.len() > 0 && all_digits(d) && digits_value(d) <= bound
}

/// How `u64::from_str` reads `s`: an optional `+`, then one or more
/// ASCII digits whose value fits in a `u64`; anything else is refused.
pub open spec fn spec_parse_u64(s: Seq<char>) -> Option<u64> {
    let d = if s.len() > 0 && s[0] == '+' { s.skip(1) } else { s };
    if decimal_within(d, u64::MAX as nat) {
        Some(digits_value(d) as u64)
    } else {
        None
    }
}

/// A longer digit string never has a smaller value than its prefixes.
proof fn lemma_digits_value_prefix(d: Seq<char>, k: int)
    requires
        0 <= k <= d.len(),
        all_digits(d),
    ensures
        digits_value(d.take(k)) <= digits_value(d),
    decreases d.len(),
{
    if k < d.len() {
        let p = d.drop_last();
        assert(all_digits(p));
        lemma_digits_value_prefix(p, k);
        assert(p.take(k) =~= d.take(k));
    } else {
        assert(d.take(k) =~= d);
    }
}

/// The value of the digits of `s` from index `start` on, if they are one or
/// more ASCII digits with a value of at most `bound`.
pub(crate) fn decimal_from(s: &str, start: usize, bound: u64) -> (r: Option<u64>)
    requires
        start <= s@.len(),
    ensures
        r == (if decimal_within(s@.skip(start as int), bound as nat) {
            Some(digits_value(s@.skip(start as int)) as u64)
        } else {
            None
        }),
{
    let ghost d = s@.skip(start as int);
    let n = s.unicode_len();
    let mut value: u64 = 0;
    let mut idx: usize = 0;
    for c in it: s.chars()
        invariant
            it.seq() == s@,
            idx == it.index(),
            d == s@.skip(start as int),
            start <= s@.len(),
            n == s@.len(),
            idx > start ==> all_digits(s@.subrange(start as int, idx as int)),
            idx > start ==> value == digits_value(s@.subrange(start as int, idx as int)),
            idx <= start ==> value == 0,
            value <= bound,
    {
        if idx >= start {
            let ghost p = s@.subrange(start as int, idx as int);
            let ghost q = s@.subrange(start as int, idx + 1);
            assert(q.drop_last() =~= p);
            assert(q.last() == c);
            if !('0' <= c && c <= '9') {
                assert(!all_digits(d)) by {
                    assert(d[idx - start] == c);
                }
                return None;
            }
            let digit = (c as u32 - '0' as u32) as u64;
            assert(digit == (q.last() as int) - ('0' as int));
            assert(idx == start ==> digits_value(p) == 0);
            let next = match value.checked_mul(10) {
                Some(v) => v.checked_add(digit),
                None => None,
            };
            match next {
                Some(v) if v <= bound => {
                    assert(v == digits_value(q));
                    value = v;
                }
                _ => {
                    assert(digits_value(q) > bound);
                    proof {
                        if all_digits(d) {
                            assert(q =~= d.take(idx + 1 - start));
                            lemma_digits_value_prefix(d, idx + 1 - start);
                        }
                    }
                    return None;
                }
            }
        }
        assert(idx < n);
        idx = idx + 1;
    }
    if idx <= start {
        assert(d.len() == 0);
        return None;
    }
    assert(s@.subrange(start as int, idx as int) =~= d);
    Some(value)
}

/// `u64::from_str` as the multipart form fields are read: an optional `+`
/// followed by decimal digits, refusing overflow.
pub fn parse_u64(s: &str) -> (r: Option<u64>)
    ensures
        r == spec_parse_u64(s@),
{
    let start: usize = if s.unicode_len() > 0 && s.get_char(0) == '+' { 1 } else { 0 };
    assert(s@.skip(0) =~= s@);
    decimal_from(s, start, u64::MAX)
}

/// Whether `a` and `b` hold the same characters.
pub(crate) fn same_text(a: &str, b: &str) -> (r: bool)
    ensures
        r == (a@ == b@),
{
    let n = a.unicode_len();
    if n != b.unicode_len() {
        return false;
    }
    let mut i: usize = 0;
    while i < n
        invariant
            n == a@.len(),
            n == b@.len(),
            i <= n,
            forall|j: int| 0 <= j < i ==> a@[j] == b@[j],
        decreases n - i,
    {
        if a.get_char(i) != b.get_char(i) {
            return false;
        }
        i = i + 1;
    }
    assert(a@ =~= b@);
    true
}

} // verus!
