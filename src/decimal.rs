use vstd::prelude::*;

verus! {

/// A decimal digit `0`..`9`.
pub open spec fn is_digit(c: char) -> bool {
    '0' <= c && c <= '9'
}

pub open spec fn digit_value(c: char) -> int {
    c as int - '0' as int
}

pub open spec fn all_digits(s: Seq<char>) -> bool {
    forall|i: int| 0 <= i < s.len() ==> #[trigger] is_digit(s[i])
}

/// The number written by a string of decimal digits (zero for the empty string).
pub open spec fn digits_value(s: Seq<char>) -> int
    decreases s.len(),
{
    if s.len() == 0 {
        0
    } else {
        digits_value(s.drop_last()) * 10 + digit_value(s.last())
    }
}

/// The integer written by `s`: an optional `+` or `-` followed by at least one digit.
pub open spec fn integer_value(s: Seq<char>) -> Option<int> {
    if s.len() > 0 && (s[0] == '-' || s[0] == '+') {
        let d = s.drop_first();
        if d.len() > 0 && all_digits(d) {
            Some(if s[0] == '-' { -digits_value(d) } else { digits_value(d) })
        } else {
            None
        }
    } else if s.len() > 0 && all_digits(s) {
        Some(digits_value(s))
    } else {
        None
    }
}

pub open spec fn fits_i32(v: int) -> bool {
    i32::MIN <= v && v <= i32::MAX
}

/// The value of `s` as an `i32`, when `s` is an integer in range.
pub open spec fn i32_value(s: Seq<char>) -> Option<int> {
    match integer_value(s) {
        Some(v) => if fits_i32(v) { Some(v) } else { None },
        None => None,
    }
}

/// Hundredths given by the first two digits of a fraction; later digits are dropped.
pub open spec fn hundredths(f: Seq<char>) -> int {
    (if f.len() >= 1 { digit_value(f[0]) * 10 } else { 0 }) + (if f.len() >= 2 {
        digit_value(f[1])
    } else {
        0
    })
}

/// `s` splits at position `k` into digits, a point and digits, not both empty.
pub open spec fn point_at(s: Seq<char>, k: int) -> bool {
    &&& 0 <= k < s.len()
    &&& s[k] == '.'
    &&& all_digits(s.take(k))
    &&& all_digits(s.skip(k + 1))
    &&& s.len() >= 2
}

/// A non-negative decimal number, with at most one point, counted in hundredths
/// (digits past the second after the point are dropped).
pub open spec fn scaled_value(s: Seq<char>) -> Option<int> {
    if s.len() > 0 && all_digits(s) {
        Some(digits_value(s) * 100)
    } else if exists|k: int| point_at(s, k) {
        let k = choose|k: int| point_at(s, k);
        Some(digits_value(s.take(k)) * 100 + hundredths(s.skip(k + 1)))
    } else {
        None
    }
}

/// `scaled_value` when it fits an `i32`.
pub open spec fn scaled_i32(s: Seq<char>) -> Option<int> {
    match scaled_value(s) {
        Some(v) => if v <= i32::MAX { Some(v) } else { None },
        None => None,
    }
}

proof fn lemma_digits_nonneg(s: Seq<char>)
    requires
        all_digits(s),
    ensures
        digits_value(s) >= 0,
    decreases s.len(),
{
    if s.len() > 0 {
        assert(all_digits(s.drop_last())) by {
            assert forall|i: int| 0 <= i < s.drop_last().len() implies is_digit(
                #[trigger] s.drop_last()[i],
            ) by {
                assert(is_digit(s[i]));
            }
        }
        lemma_digits_nonneg(s.drop_last());
        assert(is_digit(s[s.len() - 1]));
    }
}

/// A longer string of digits never writes a smaller number than its prefix.
proof fn lemma_digits_prefix_le(s: Seq<char>, i: int)
    requires
        all_digits(s),
        0 <= i <= s.len(),
    ensures
        digits_value(s.take(i)) <= digits_value(s),
    decreases s.len(),
{
    if i == s.len() {
        assert(s.take(i) =~= s);
    } else {
        let d = s.drop_last();
        assert(all_digits(d)) by {
            assert forall|j: int| 0 <= j < d.len() implies is_digit(#[trigger] d[j]) by {
                assert(is_digit(s[j]));
            }
        }
        lemma_digits_prefix_le(d, i);
        assert(d.take(i) =~= s.take(i));
        lemma_digits_nonneg(d);
        assert(is_digit(s[s.len() - 1]));
    }
}

proof fn lemma_take_step(s: Seq<char>, i: int)
    requires
        0 <= i < s.len(),
    ensures
        digits_value(s.take(i + 1)) == digits_value(s.take(i)) * 10 + digit_value(s[i]),
{
    assert(s.take(i + 1).drop_last() =~= s.take(i));
}

/// Reads the digits `s[from..to]`; `None` when one is not a digit or when the
/// number exceeds `cap`.
fn read_digits(s: &Vec<char>, from: usize, to: usize, cap: u64) -> (r: Option<u64>)
    requires
        from <= to <= s@.len(),
        cap <= u32::MAX,
    ensures
        r is Some <==> (all_digits(s@.subrange(from as int, to as int)) && digits_value(
            s@.subrange(from as int, to as int),
        ) <= cap),
        r is Some ==> r->0 == digits_value(s@.subrange(from as int, to as int)),
{
    let ghost t = s@.subrange(from as int, to as int);
    let mut acc: u64 = 0;
    let mut i: usize = from;
    while i < to
        invariant
            from <= i <= to <= s@.len(),
            t == s@.subrange(from as int, to as int),
            all_digits(t.take(i - from)),
            acc == digits_value(t.take(i - from)),
            acc <= cap,
            cap <= u32::MAX,
        decreases to - i,
    {
        let c = s[i];
        proof {
            lemma_take_step(t, i - from);
        }
        if !('0' <= c && c <= '9') {
            assert(!is_digit(t[i - from]));
            return None;
        }
        let d = (c as u32 - '0' as u32) as u64;
        acc = acc * 10 + d;
        assert(all_digits(t.take(i + 1 - from))) by {
            assert forall|j: int| 0 <= j < t.take(i + 1 - from).len() implies is_digit(
                #[trigger] t.take(i + 1 - from)[j],
            ) by {
                if j < i - from {
                    assert(t.take(i + 1 - from)[j] == t.take(i - from)[j]);
                }
            }
        }
        if acc > cap {
            proof {
                if all_digits(t) {
                    lemma_digits_prefix_le(t, i + 1 - from);
                }
            }
            return None;
        }
        i = i + 1;
    }
    assert(t.take(i - from) =~= t);
    Some(acc)
}

/// Whether `s[from..to]` holds digits only.
fn only_digits(s: &Vec<char>, from: usize, to: usize) -> (r: bool)
    requires
        from <= to <= s@.len(),
    ensures
        r == all_digits(s@.subrange(from as int, to as int)),
{
    let mut i: usize = from;
    while i < to
        invariant
            from <= i <= to <= s@.len(),
            forall|j: int| from <= j < i ==> is_digit(#[trigger] s@[j]),
        decreases to - i,
    {
        if !('0' <= s[i] && s[i] <= '9') {
            assert(!is_digit(s@.subrange(from as int, to as int)[i - from]));
            return false;
        }
        i = i + 1;
    }
    assert forall|j: int| 0 <= j < to - from implies is_digit(
        #[trigger] s@.subrange(from as int, to as int)[j],
    ) by {
        assert(is_digit(s@[from + j]));
    }
    true
}

/// Parses an `i32` written in decimal with an optional sign.
pub fn parse_i32(s: &Vec<char>) -> (r: Option<i32>)
    ensures
        r is Some <==> i32_value(s@) is Some,
        r is Some ==> r->0 as int == i32_value(s@)->0,
{
    if s.len() == 0 {
        return None;
    }
    let neg = s[0] == '-';
    let signed = neg || s[0] == '+';
    let from: usize = if signed { 1 } else { 0 };
    if from == s.len() {
        assert(s@.drop_first().len() == 0);
        return None;
    }
    proof {
        if signed {
            assert(s@.skip(1) =~= s@.drop_first());
        } else {
            assert(s@.skip(0) =~= s@);
        }
    }
    let cap: u64 = if neg { 2147483648 } else { 2147483647 };
    assert(s@.subrange(from as int, s@.len() as int) =~= s@.skip(from as int));
    match read_digits(s, from, s.len(), cap) {
        Some(v) => {
            if neg {
                Some((0 - (v as i64)) as i32)
            } else {
                Some(v as i32)
            }
        },
        None => {
            proof {
                if signed {
                    assert(s[0] != '-' ==> s[0] == '+');
                }
            }
            None
        },
    }
}

/// Parses a non-negative decimal number with an optional fraction, in
/// hundredths (`"52.3"` gives 5230); digits past the second after the point
/// are dropped.
pub fn parse_scaled(s: &Vec<char>) -> (r: Option<i32>)
    ensures
        r is Some <==> scaled_i32(s@) is Some,
        r is Some ==> r->0 as int == scaled_i32(s@)->0,
{
    let n = s.len();
    let mut k: usize = 0;
    while k < n && s[k] != '.'
        invariant
            k <= n == s@.len(),
            forall|j: int| 0 <= j < k ==> s@[j] != '.',
        decreases n - k,
    {
        k = k + 1;
    }
    if k == n {
        if n == 0 {
            return None;
        }
        assert(s@.subrange(0, n as int) =~= s@);
        assert forall|j: int| !point_at(s@, j) by {
            if 0 <= j < n {
                assert(s@[j] != '.');
            }
        }
        match read_digits(s, 0, n, 21474836) {
            Some(v) => {
                assert(scaled_value(s@) == Some(digits_value(s@) * 100));
                Some((v * 100) as i32)
            },
            None => None,
        }
    } else {
        assert(!is_digit(s@[k as int]));
        assert(!all_digits(s@));
        assert forall|j: int| #[trigger] point_at(s@, j) implies j == k by {
            if j < k {
                assert(s@[j] != '.');
            } else if j > k {
                assert(is_digit(s@.take(j)[k as int]));
            }
        }
        if n < 2 {
            return None;
        }
        assert(s@.take(k as int) =~= s@.subrange(0, k as int));
        assert(s@.skip(k + 1) =~= s@.subrange(k + 1, n as int));
        if !only_digits(s, k + 1, n) {
            return None;
        }
        match read_digits(s, 0, k, 21474836) {
            Some(v) => {
                assert(point_at(s@, k as int));
                let ghost f = s@.skip(k + 1);
                let mut h: u64 = 0;
                if k + 1 < n {
                    assert(is_digit(f[0]));
                    h = (s[k + 1] as u32 - '0' as u32) as u64 * 10;
                }
                if n - k > 2 {
                    assert(is_digit(f[1]));
                    h = h + (s[k + 2] as u32 - '0' as u32) as u64;
                }
                assert(h == hundredths(f));
                let total = v * 100 + h;
                if total > 2147483647 {
                    None
                } else {
                    Some(total as i32)
                }
            },
            None => {
                proof {
                    if all_digits(s@.take(k as int)) {
                        assert(digits_value(s@.take(k as int)) > 21474836);
                        assert(hundredths(s@.skip(k + 1)) >= 0) by {
                            let ghost f = s@.skip(k + 1);
                            if f.len() >= 1 {
                                assert(is_digit(f[0]));
                            }
                            if f.len() >= 2 {
                                assert(is_digit(f[1]));
                            }
                        }
                    }
                }
                None
            },
        }
    }
}

} // verus!
