//! Hexadecimal notation used in the configuration file: CAN identifiers
//! such as `0x7DF` and byte strings such as `0x02 0x01 0x0C`.
use vstd::prelude::*;

verus! {

/// Value of a hexadecimal digit of either case.
pub open spec fn hex_digit_value(c: char) -> Option<nat> {
    let u = c as u32;
    if 0x30 <= u <= 0x39 {
        Some((u - 0x30) as nat)
    } else if 0x61 <= u <= 0x66 {
        Some((u - 0x61 + 10) as nat)
    } else if 0x41 <= u <= 0x46 {
        Some((u - 0x41 + 10) as nat)
    } else {
        None
    }
}

/// Every character is a hexadecimal digit.
pub open spec fn all_hex_digits(s: Seq<char>) -> bool {
    forall|i: int| 0 <= i < s.len() ==> (#[trigger] hex_digit_value(s[i])) is Some
}

/// Value of a string of hexadecimal digits, most significant first.
pub open spec fn hex_value(s: Seq<char>) -> nat
    decreases s.len(),
{
    if s.len() == 0 {
        0
    } else {
        16 * hex_value(s.drop_last()) + hex_digit_value(s.last()).unwrap_or(0)
    }
}

/// The string without any number of leading `0x` prefixes.
pub open spec fn strip_hex_prefix(s: Seq<char>) -> Seq<char>
    decreases s.len(),
{
    if s.len() >= 2 && s[0] == '0' && s[1] == 'x' {
        strip_hex_prefix(s.subrange(2, s.len() as int))
    } else {
        s
    }
}

/// Parses an unsigned hexadecimal number no larger than `max`: leading
/// `0x` prefixes are dropped, then an optional `+` sign is followed by at
/// least one digit.
pub open spec fn parse_hex(s: Seq<char>, max: nat) -> Option<nat> {
    let t = strip_hex_prefix(s);
    let digits = if t.len() > 0 && t[0] == '+' {
        t.drop_first()
    } else {
        t
    };
    if digits.len() == 0 || !all_hex_digits(digits) || hex_value(digits) > max {
        None
    } else {
        Some(hex_value(digits))
    }
}

/// Characters with the Unicode White_Space property, which separate words.
pub open spec fn is_space(c: char) -> bool {
    let u = c as u32;
    ||| 0x09 <= u <= 0x0D
    ||| u == 0x20
    ||| u == 0x85
    ||| u == 0xA0
    ||| u == 0x1680
    ||| 0x2000 <= u <= 0x200A
    ||| u == 0x2028
    ||| u == 0x2029
    ||| u == 0x202F
    ||| u == 0x205F
    ||| u == 0x3000
}

/// The maximal runs of non-space characters, in order.
pub open spec fn words(s: Seq<char>) -> Seq<Seq<char>>
    decreases s.len(),
{
    if s.len() == 0 {
        Seq::empty()
    } else {
        let w = words(s.drop_last());
        if is_space(s.last()) {
            w
        } else if s.len() >= 2 && !is_space(s[s.len() - 2]) {
            w.update(w.len() - 1, w.last().push(s.last()))
        } else {
            w.push(seq![s.last()])
        }
    }
}

/// The bytes that a space-separated list of hexadecimal bytes denotes, if
/// every word is one.
pub open spec fn hex_bytes(s: Seq<char>) -> Option<Seq<u8>> {
    let w = words(s);
    if forall|k: int| 0 <= k < w.len() ==> (#[trigger] parse_hex(w[k], 255)) is Some {
        Some(Seq::new(w.len(), |k: int| parse_hex(w[k], 255).unwrap() as u8))
    } else {
        None
    }
}

/// Whether `c` has the Unicode White_Space property.
pub fn is_space_char(c: char) -> (r: bool)
    ensures
        r == is_space(c),
{
    let u = c as u32;
    (0x09 <= u && u <= 0x0D) || u == 0x20 || u == 0x85 || u == 0xA0 || u == 0x1680 || (0x2000 <= u
        && u <= 0x200A) || u == 0x2028 || u == 0x2029 || u == 0x202F || u == 0x205F || u == 0x3000
}

fn digit_value(c: char) -> (r: Option<u32>)
    ensures
        match hex_digit_value(c) {
            Some(v) => r == Some(v as u32) && v < 16,
            None => r is None,
        },
{
    let u = c as u32;
    if 0x30 <= u && u <= 0x39 {
        Some(u - 0x30)
    } else if 0x61 <= u && u <= 0x66 {
        Some(u - 0x61 + 10)
    } else if 0x41 <= u && u <= 0x46 {
        Some(u - 0x41 + 10)
    } else {
        None
    }
}

proof fn lemma_hex_value_prefix(s: Seq<char>, k: int)
    requires
        0 <= k <= s.len(),
    ensures
        hex_value(s.subrange(0, k)) <= hex_value(s),
    decreases s.len() - k,
{
    if k < s.len() {
        let t = s.drop_last();
        lemma_hex_value_prefix(t, k);
        assert(t.subrange(0, k) =~= s.subrange(0, k));
    } else {
        assert(s.subrange(0, k) =~= s);
    }
}

proof fn lemma_strip_step(s: Seq<char>, lo: int, hi: int)
    requires
        0 <= lo,
        lo + 2 <= hi <= s.len(),
        s[lo] == '0',
        s[lo + 1] == 'x',
    ensures
        strip_hex_prefix(s.subrange(lo, hi)) == strip_hex_prefix(s.subrange(lo + 2, hi)),
{
    let t = s.subrange(lo, hi);
    assert(t.subrange(2, t.len() as int) =~= s.subrange(lo + 2, hi));
}

/// Parses the characters `lo..hi` of `s` as `parse_hex` does, with bound `max`.
fn parse_hex_range(s: &str, lo: usize, hi: usize, max: u32) -> (r: Option<u32>)
    requires
        lo <= hi <= s@.len(),
    ensures
        match parse_hex(s@.subrange(lo as int, hi as int), max as nat) {
            Some(v) => r == Some(v as u32),
            None => r is None,
        },
{
    let ghost whole = s@.subrange(lo as int, hi as int);
    let mut a: usize = lo;
    while hi - a >= 2 && s.get_char(a) == '0' && s.get_char(a + 1) == 'x'
        invariant
            lo <= a <= hi <= s@.len(),
            strip_hex_prefix(whole) == strip_hex_prefix(s@.subrange(a as int, hi as int)),
        decreases hi - a,
    {
        proof {
            lemma_strip_step(s@, a as int, hi as int);
        }
        a += 2;
    }
    let ghost t = s@.subrange(a as int, hi as int);
    assert(strip_hex_prefix(t) == t);
    if a < hi && s.get_char(a) == '+' {
        a += 1;
    }
    let ghost digits = s@.subrange(a as int, hi as int);
    assert(digits =~= (if t.len() > 0 && t[0] == '+' { t.drop_first() } else { t }));
    if a == hi {
        return None;
    }
    assert(parse_hex(whole, max as nat) == (if !all_hex_digits(digits) || hex_value(digits) > max as nat {
        None::<nat>
    } else {
        Some(hex_value(digits))
    }));
    let mut v: u64 = 0;
    let mut over = false;
    let mut i: usize = a;
    while i < hi
        invariant
            lo <= a <= i <= hi <= s@.len(),
            whole == s@.subrange(lo as int, hi as int),
            digits == s@.subrange(a as int, hi as int),
            parse_hex(whole, max as nat) == (if !all_hex_digits(digits) || hex_value(digits) > max as nat {
                None::<nat>
            } else {
                Some(hex_value(digits))
            }),
            all_hex_digits(s@.subrange(a as int, i as int)),
            !over ==> v as nat == hex_value(s@.subrange(a as int, i as int)) && v <= max,
            over ==> hex_value(s@.subrange(a as int, i as int)) > max,
        decreases hi - i,
    {
        let c = s.get_char(i);
        let d = match digit_value(c) {
            Some(d) => d,
            None => {
                assert(digits[i - a] == s@[i as int]);
                assert(hex_digit_value(digits[i - a]) is None);
                assert(!all_hex_digits(digits));
                return None;
            },
        };
        let ghost before = s@.subrange(a as int, i as int);
        let ghost after = s@.subrange(a as int, i + 1);
        proof {
            assert(after.drop_last() =~= before);
            assert(after.last() == s@[i as int]);
            assert forall|j: int| 0 <= j < after.len() implies (#[trigger] hex_digit_value(after[j])) is Some by {
                if j < before.len() {
                    assert(after[j] == before[j]);
                }
            }
        }
        if !over {
            v = v * 16 + d as u64;
            if v > max as u64 {
                over = true;
            }
        }
        i += 1;
    }
    if over {
        proof {
            lemma_hex_value_prefix(digits, digits.len() as int);
        }
        return None;
    }
    assert(s@.subrange(a as int, i as int) =~= digits);
    Some(v as u32)
}

/// Parses a hexadecimal CAN identifier such as `0x7DF` or `7df`.
pub fn parse_hex_u32(s: &str) -> (r: Option<u32>)
    ensures
        match parse_hex(s@, u32::MAX as nat) {
            Some(v) => r == Some(v as u32),
            None => r is None,
        },
{
    let n = s.unicode_len();
    assert(s@.subrange(0, n as int) =~= s@);
    parse_hex_range(s, 0, n, u32::MAX)
}


/// The words that a list of character ranges of `s` denotes.
pub open spec fn range_words(s: Seq<char>, ranges: Seq<(usize, usize)>) -> Seq<Seq<char>> {
    Seq::new(ranges.len(), |k: int| s.subrange(ranges[k].0 as int, ranges[k].1 as int))
}

/// Character ranges of the words of `s`, in order.
fn word_ranges(s: &str) -> (r: Vec<(usize, usize)>)
    ensures
        forall|k: int| 0 <= k < r@.len() ==> (#[trigger] r@[k]).0 <= r@[k].1 <= s@.len(),
        range_words(s@, r@) == words(s@),
{
    let n = s.unicode_len();
    let mut r: Vec<(usize, usize)> = Vec::new();
    let mut in_word = false;
    let mut start: usize = 0;
    let mut i: usize = 0;
    while i < n
        invariant
            n == s@.len(),
            i <= n,
            start <= i,
            in_word <==> (i > 0 && !is_space(s@[i - 1])),
            forall|k: int| 0 <= k < r@.len() ==> (#[trigger] r@[k]).0 <= r@[k].1 <= i,
            words(s@.subrange(0, i as int)) == (if in_word {
                range_words(s@, r@).push(s@.subrange(start as int, i as int))
            } else {
                range_words(s@, r@)
            }),
        decreases n - i,
    {
        let c = s.get_char(i);
        let ghost pre = s@.subrange(0, i as int);
        let ghost cur = s@.subrange(0, i + 1);
        let ghost done = range_words(s@, r@);
        proof {
            assert(cur.drop_last() =~= pre);
            assert(cur.last() == c);
            if i > 0 {
                assert(cur[cur.len() - 2] == s@[i - 1]);
            }
        }
        if is_space_char(c) {
            if in_word {
                r.push((start, i));
                proof {
                    assert(range_words(s@, r@) =~= done.push(s@.subrange(start as int, i as int)));
                }
                in_word = false;
            }
        } else {
            if in_word {
                proof {
                    let w = done.push(s@.subrange(start as int, i as int));
                    assert(s@.subrange(start as int, i as int).push(c) =~= s@.subrange(start as int, i + 1));
                    assert(w.update(w.len() - 1, w.last().push(c)) =~= done.push(
                        s@.subrange(start as int, i + 1),
                    ));
                }
            } else {
                start = i;
                proof {
                    assert(seq![c] =~= s@.subrange(i as int, i + 1));
                    assert(done.push(seq![c]) =~= done.push(s@.subrange(i as int, i + 1)));
                }
                in_word = true;
            }
        }
        i += 1;
    }
    if in_word {
        let ghost done = range_words(s@, r@);
        r.push((start, n));
        proof {
            assert(range_words(s@, r@) =~= done.push(s@.subrange(start as int, n as int)));
        }
    }
    assert(s@.subrange(0, n as int) =~= s@);
    r
}

/// Parses a space-separated list of hexadecimal bytes such as
/// `0x02 0x01 0x0C`.
pub fn parse_hex_bytes(s: &str) -> (r: Option<Vec<u8>>)
    ensures
        match hex_bytes(s@) {
            Some(b) => r is Some && r->Some_0@ == b,
            None => r is None,
        },
{
    let ranges = word_ranges(s);
    let ghost w = words(s@);
    let mut out: Vec<u8> = Vec::new();
    let mut k: usize = 0;
    while k < ranges.len()
        invariant
            k <= ranges@.len(),
            w == words(s@),
            w == range_words(s@, ranges@),
            forall|j: int| 0 <= j < ranges@.len() ==> (#[trigger] ranges@[j]).0 <= ranges@[j].1 <= s@.len(),
            out@.len() == k,
            forall|j: int|
                0 <= j < k ==> (#[trigger] parse_hex(w[j], 255)) is Some && out@[j] == parse_hex(
                    w[j],
                    255,
                ).unwrap() as u8,
        decreases ranges@.len() - k,
    {
        let (lo, hi) = ranges[k];
        assert(w[k as int] == s@.subrange(lo as int, hi as int));
        match parse_hex_range(s, lo, hi, 255) {
            Some(b) => {
                out.push(b as u8);
            },
            None => {
                assert(parse_hex(w[k as int], 255) is None);
                return None;
            },
        }
        k += 1;
    }
    assert(out@ =~= Seq::new(w.len(), |j: int| parse_hex(w[j], 255).unwrap() as u8));
    Some(out)
}

} // verus!
