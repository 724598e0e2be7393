//! Character scanning and number reading for the markup parser: finding a
//! character, and reading decimal runs with exact overflow behaviour.

use vstd::prelude::*;

verus! {

/// The first index at or after `from` where `c` occurs in `s`.
pub open spec fn spec_find(s: Seq<char>, from: int, c: char) -> Option<int>
    decreases s.len() - from,
{
    if from < 0 || from >= s.len() {
        None
    } else if s[from] == c {
        Some(from)
    } else {
        spec_find(s, from + 1, c)
    }
}

/// What a successful or failed find means for the characters of `s`.
pub proof fn lemma_spec_find(s: Seq<char>, from: int, c: char)
    requires
        0 <= from <= s.len(),
    ensures
        match spec_find(s, from, c) {
            Some(i) => {
                &&& from <= i < s.len()
                &&& s[i] == c
                &&& forall|j: int| from <= j < i ==> s[j] != c
            },
            None => forall|j: int| from <= j < s.len() ==> s[j] != c,
        },
    decreases s.len() - from,
{
    if from < s.len() && s[from] != c {
        lemma_spec_find(s, from + 1, c);
    }
}

/// Scans `s` from `from` for the character `c`.
pub fn find_char(s: &str, from: usize, c: char) -> (r: Option<usize>)
    requires
        from <= s@.len(),
    ensures
        match r {
            Some(i) => Some(i as int) == spec_find(s@, from as int, c),
            None => spec_find(s@, from as int, c) is None,
        },
{
    let len = s.unicode_len();
    let mut i = from;
    while i < len
        invariant
            from <= i <= len,
            len == s@.len(),
            spec_find(s@, from as int, c) == spec_find(s@, i as int, c),
        decreases len - i,
    {
        if s.get_char(i) == c {
            return Some(i);
        }
        i += 1;
    }
    None
}

/// Whether `s` is a non-empty run of decimal digits.
pub open spec fn spec_all_digits(s: Seq<char>) -> bool {
    s.len() > 0 && forall|i: int| 0 <= i < s.len() ==> '0' <= #[trigger] s[i] <= '9'
}

/// The number a digit run denotes, most significant digit first.
pub open spec fn spec_dec_value(s: Seq<char>) -> int
    decreases s,
{
    if s.len() == 0 {
        0
    } else {
        spec_dec_value(s.drop_last()) * 10 + (s.last() as int - '0' as int)
    }
}

/// A digit run denotes a non-negative number.
pub proof fn lemma_dec_value_nonneg(s: Seq<char>)
    requires
        forall|i: int| 0 <= i < s.len() ==> '0' <= #[trigger] s[i] <= '9',
    ensures
        spec_dec_value(s) >= 0,
    decreases s,
{
    if s.len() > 0 {
        lemma_dec_value_nonneg(s.drop_last());
    }
}

/// `s` read as a number of at most `u32` size: `None` when `s` is empty,
/// holds a non-digit, or denotes more than `u32::MAX`.
pub open spec fn spec_parse_u32(s: Seq<char>) -> Option<u32> {
    if spec_all_digits(s) && spec_dec_value(s) <= u32::MAX {
        Some(spec_dec_value(s) as u32)
    } else {
        None
    }
}

/// `s` read as a signed number: an optional leading `-`, then a digit run.
/// `None` when the digits are missing or malformed, or the value leaves
/// the `i64` range.
pub open spec fn spec_parse_i64(s: Seq<char>) -> Option<i64> {
    if s.len() > 0 && s[0] == '-' {
        let digits = s.skip(1);
        if spec_all_digits(digits) && spec_dec_value(digits) <= 0x8000_0000_0000_0000 {
            Some((-spec_dec_value(digits)) as i64)
        } else {
            None
        }
    } else {
        if spec_all_digits(s) && spec_dec_value(s) <= i64::MAX {
            Some(spec_dec_value(s) as i64)
        } else {
            None
        }
    }
}

/// Reads the digit run `[from, to)` of `s`, keeping the exact value while
/// it fits below `cap` and remembering only "too big" beyond that.
/// Returns the value, or `None` when the range is empty, holds a
/// non-digit, or denotes more than `cap`.
fn parse_digits_capped(s: &str, from: usize, to: usize, cap: u64) -> (r: Option<u64>)
    requires
        from <= to <= s@.len(),
        0x1_0000 <= cap <= 0x8000_0000_0000_0000,
    ensures
        ({
            let digits = s@.subrange(from as int, to as int);
            match r {
                Some(v) => spec_all_digits(digits) && v == spec_dec_value(digits) && v <= cap,
                None => !(spec_all_digits(digits) && spec_dec_value(digits) <= cap),
            }
        }),
{
    let ghost digits = s@.subrange(from as int, to as int);
    if from == to {
        return None;
    }
    let mut acc: u64 = 0;
    let mut over = false;
    let mut k = from;
    assert(digits.subrange(0, 0) =~= Seq::<char>::empty());
    while k < to
        invariant
            from <= k <= to <= s@.len(),
            digits == s@.subrange(from as int, to as int),
            0x1_0000 <= cap <= 0x8000_0000_0000_0000,
            forall|j: int| 0 <= j < k - from ==> '0' <= #[trigger] digits[j] <= '9',
            !over ==> acc == spec_dec_value(digits.subrange(0, k - from)) && acc <= cap,
            over ==> spec_dec_value(digits.subrange(0, k - from)) > cap,
        decreases to - k,
    {
        let c = s.get_char(k);
        assert(digits[k - from] == s@[k as int]);
        if c < '0' || c > '9' {
            assert(!spec_all_digits(digits));
            return None;
        }
        let d: u64 = (c as u8 - '0' as u8) as u64;
        let ghost prefix = digits.subrange(0, k - from);
        let ghost next_prefix = digits.subrange(0, k + 1 - from);
        proof {
            assert(next_prefix.drop_last() =~= prefix);
            assert(next_prefix.last() == digits[k - from]);
            assert(spec_dec_value(next_prefix) == spec_dec_value(prefix) * 10 + (digits[k - from]
                as int - '0' as int));
        }
        if !over {
            if acc > (u64::MAX - 9) / 10 {
                // ten times acc already exceeds any permitted cap
                over = true;
            } else {
                let next: u64 = acc * 10 + d;
                if next > cap {
                    over = true;
                } else {
                    acc = next;
                }
            }
        } else {
            proof {
                assert(spec_dec_value(prefix) > cap);
                assert(spec_dec_value(next_prefix) >= spec_dec_value(prefix) * 10);
            }
        }
        k += 1;
    }
    assert(digits.subrange(0, to - from) =~= digits);
    assert(spec_all_digits(digits));
    if over {
        None
    } else {
        Some(acc)
    }
}

/// Reads the characters `[from, to)` of `s` as an unsigned 32-bit number.
pub fn parse_u32_range(s: &str, from: usize, to: usize) -> (r: Option<u32>)
    requires
        from <= to <= s@.len(),
    ensures
        r == spec_parse_u32(s@.subrange(from as int, to as int)),
{
    match parse_digits_capped(s, from, to, 0xFFFF_FFFF) {
        Some(v) => Some(v as u32),
        None => None,
    }
}

/// Reads the characters `[from, to)` of `s` as a signed 64-bit number.
pub fn parse_i64_range(s: &str, from: usize, to: usize) -> (r: Option<i64>)
    requires
        from <= to <= s@.len(),
    ensures
        r == spec_parse_i64(s@.subrange(from as int, to as int)),
{
    let ghost whole = s@.subrange(from as int, to as int);
    if from < to && s.get_char(from) == '-' {
        assert(whole[0] == '-');
        let r = parse_digits_capped(s, from + 1, to, 0x8000_0000_0000_0000);
        assert(whole.skip(1) =~= s@.subrange(from + 1, to as int));
        match r {
            Some(v) => {
                if v == 0x8000_0000_0000_0000 {
                    Some(i64::MIN)
                } else {
                    Some(-(v as i64))
                }
            },
            None => None,
        }
    } else {
        assert(whole.len() > 0 ==> whole[0] == s@[from as int]);
        let r = parse_digits_capped(s, from, to, 0x7FFF_FFFF_FFFF_FFFF);
        proof {
            if spec_all_digits(whole) {
                lemma_dec_value_nonneg(whole);
            }
        }
        match r {
            Some(v) => Some(v as i64),
            None => None,
        }
    }
}

} // verus!

verus! {

/// The whitespace the line trimmer strips: the ASCII blanks that frame
/// the lines the bar is fed.
pub open spec fn spec_is_ws(c: char) -> bool {
    c == ' ' || c == '\t' || c == '\r' || c == '\n'
}

/// `s` without leading and trailing whitespace.
pub open spec fn spec_trim(s: Seq<char>) -> Seq<char>
    decreases s.len(),
{
    if s.len() == 0 {
        s
    } else if spec_is_ws(s[0]) {
        spec_trim(s.skip(1))
    } else if spec_is_ws(s.last()) {
        spec_trim(s.drop_last())
    } else {
        s
    }
}

/// Trimming keeps exactly the span between the first and the last
/// non-whitespace character.
proof fn lemma_trim_range(s: Seq<char>, lo: int, hi: int)
    requires
        0 <= lo <= hi <= s.len(),
        forall|j: int| 0 <= j < lo ==> spec_is_ws(s[j]),
        forall|j: int| hi <= j < s.len() ==> spec_is_ws(s[j]),
        lo == hi || (!spec_is_ws(s[lo]) && !spec_is_ws(s[hi - 1])),
    ensures
        spec_trim(s) == s.subrange(lo, hi),
    decreases s.len(),
{
    if s.len() == 0 {
        assert(s.subrange(lo, hi) =~= s);
    } else if spec_is_ws(s[0]) {
        let t = s.skip(1);
        if lo > 0 {
            lemma_trim_range(t, lo - 1, hi - 1);
            assert(t.subrange(lo - 1, hi - 1) =~= s.subrange(lo, hi));
        } else {
            // lo == 0, so s[0] is not whitespace unless the span is empty
            assert(lo == hi);
            lemma_trim_range(t, 0, 0);
            assert(t.subrange(0, 0) =~= s.subrange(lo, hi));
        }
    } else if spec_is_ws(s.last()) {
        let t = s.drop_last();
        assert(hi < s.len() || lo == hi) by {
            if hi == s.len() && lo < hi {
                assert(!spec_is_ws(s[hi - 1]));
            }
        }
        if hi == s.len() {
            // the whole string is whitespace and the span is empty; the
            // last character is whitespace, so hi cannot be s.len() with
            // a non-empty span
            assert(lo == hi);
            assert(spec_is_ws(s[s.len() - 1]));
            if lo == s.len() {
                lemma_trim_range(t, lo - 1, hi - 1);
                assert(t.subrange(lo - 1, hi - 1) =~= s.subrange(lo, hi));
            } else {
                lemma_trim_range(t, lo, hi - 1);
                assert(t.subrange(lo, hi - 1) =~= s.subrange(lo, hi));
            }
        } else {
            lemma_trim_range(t, lo, hi);
            assert(t.subrange(lo, hi) =~= s.subrange(lo, hi));
        }
    } else {
        assert(lo == 0 && hi == s.len()) by {
            if lo > 0 {
                assert(spec_is_ws(s[0]));
            }
            if hi < s.len() {
                assert(spec_is_ws(s[s.len() - 1]));
            }
        }
        assert(s.subrange(lo, hi) =~= s);
    }
}

/// Is `c` one of the blanks the trimmer strips?
fn is_ws(c: char) -> (r: bool)
    ensures
        r == spec_is_ws(c),
{
    c == ' ' || c == '\t' || c == '\r' || c == '\n'
}

/// Strips leading and trailing whitespace.
pub fn trim_str(s: &str) -> (r: String)
    ensures
        r@ == spec_trim(s@),
{
    let len = s.unicode_len();
    let mut lo: usize = 0;
    while lo < len && is_ws(s.get_char(lo))
        invariant
            lo <= len,
            len == s@.len(),
            forall|j: int| 0 <= j < lo ==> spec_is_ws(s@[j]),
        decreases len - lo,
    {
        lo += 1;
    }
    let mut hi: usize = len;
    while hi > lo && is_ws(s.get_char(hi - 1))
        invariant
            lo <= hi <= len,
            len == s@.len(),
            forall|j: int| hi <= j < len ==> spec_is_ws(s@[j]),
        decreases hi,
    {
        hi -= 1;
    }
    proof {
        lemma_trim_range(s@, lo as int, hi as int);
    }
    s.substring_char(lo, hi).to_owned()
}

} // verus!
