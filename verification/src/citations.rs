//! Citation numbers of a chat thread. Each message may carry a context
//! map, a JSON object whose keys are the numbers of the passages it
//! cites; the next citation gets a number above all of them.

use crate::text::chars_of;
use vstd::prelude::*;

verus! {

/// Whether every character of `s` is a decimal digit.
pub open spec fn all_digits(s: Seq<char>) -> bool {
    forall|i: int| 0 <= i < s.len() ==> '0' <= #[trigger] s[i] <= '9'
}

/// The number that a run of decimal digits writes.
pub open spec fn digits_value(s: Seq<char>) -> int
    decreases s.len(),
{
    if s.len() == 0 {
        0
    } else {
        10 * digits_value(s.drop_last()) + (s.last() as int - '0' as int)
    }
}

/// The number that a text writes in decimal: digits, at least one, behind
/// at most one sign.
pub open spec fn decimal_value(s: Seq<char>) -> Option<int> {
    if s.len() > 0 && (s[0] == '-' || s[0] == '+') {
        let digits = s.subrange(1, s.len() as int);
        if digits.len() > 0 && all_digits(digits) {
            Some(
                if s[0] == '-' {
                    -digits_value(digits)
                } else {
                    digits_value(digits)
                },
            )
        } else {
            None
        }
    } else if s.len() > 0 && all_digits(s) {
        Some(digits_value(s))
    } else {
        None
    }
}

/// The 32-bit number that a text writes, where it writes one.
pub open spec fn parsed_i32(s: Seq<char>) -> Option<i32> {
    match decimal_value(s) {
        Some(v) => if i32::MIN <= v <= i32::MAX {
            Some(v as i32)
        } else {
            None
        },
        None => None,
    }
}

proof fn lemma_digits_value_grows(s: Seq<char>, i: int)
    requires
        all_digits(s),
        0 <= i <= s.len(),
    ensures
        0 <= digits_value(s.subrange(0, i)) <= digits_value(s),
    decreases s.len() - i,
{
    lemma_digits_value_nonnegative(s.subrange(0, i));
    if i < s.len() {
        assert(s.subrange(0, i + 1).drop_last() =~= s.subrange(0, i));
        assert(s.subrange(0, i + 1).last() == s[i]);
        lemma_digits_value_grows(s, i + 1);
    } else {
        assert(s.subrange(0, i) =~= s);
    }
}

proof fn lemma_digits_value_nonnegative(s: Seq<char>)
    requires
        all_digits(s),
    ensures
        0 <= digits_value(s),
    decreases s.len(),
{
    if s.len() > 0 {
        assert(all_digits(s.drop_last())) by {
            assert forall|i: int| 0 <= i < s.drop_last().len() implies '0'
                <= #[trigger] s.drop_last()[i] <= '9' by {
                assert(s.drop_last()[i] == s[i]);
            }
        }
        lemma_digits_value_nonnegative(s.drop_last());
        assert('0' <= s[s.len() - 1] <= '9');
    }
}

/// Reads a 32-bit number written in decimal.
pub fn parse_i32(s: &str) -> (r: Option<i32>)
    ensures
        r == parsed_i32(s@),
{
    let v = chars_of(s);
    let n: usize = v.len();
    if n == 0 {
        return None;
    }
    let negative: bool = v[0] == '-';
    let start: usize = if v[0] == '-' || v[0] == '+' {
        1
    } else {
        0
    };
    if start == n {
        return None;
    }
    let ghost digits = v@.subrange(start as int, n as int);
    let mut value: i64 = 0;
    let mut i: usize = start;
    assert(digits.subrange(0, 0) =~= Seq::<char>::empty());
    proof {
        if start == 0 {
            assert(digits =~= v@);
        }
    }
    while i < n
        invariant
            start <= i <= n,
            n == v@.len(),
            v@ == s@,
            digits == v@.subrange(start as int, n as int),
            start == 0 ==> digits == v@,
            start == 1 ==> v@[0] == '-' || v@[0] == '+',
            start == 0 ==> v@[0] != '-' && v@[0] != '+',
            start <= 1,
            negative == (v@[0] == '-'),
            all_digits(digits.subrange(0, i - start)),
            value == digits_value(digits.subrange(0, i - start)),
            0 <= value <= 0x8000_0000,
        decreases n - i,
    {
        let c: char = v[i];
        let ghost head = digits.subrange(0, i - start);
        let ghost next = digits.subrange(0, i - start + 1);
        assert(next.drop_last() =~= head);
        assert(next.last() == c);
        if c < '0' || c > '9' {
            assert(!all_digits(digits)) by {
                assert(digits[i - start] == c);
            }
            return None;
        }
        assert(all_digits(next)) by {
            assert forall|k: int| 0 <= k < next.len() implies '0' <= #[trigger] next[k] <= '9' by {
                if k < head.len() {
                    assert(next[k] == head[k]);
                }
            }
        }
        let digit: i64 = (c as u32 - '0' as u32) as i64;
        value = value * 10 + digit;
        if value > 0x8000_0000 {
            // Further digits only make the number larger.
            proof {
                if all_digits(digits) {
                    lemma_digits_value_grows(digits, i - start + 1);
                }
            }
            return None;
        }
        i += 1;
    }
    assert(digits.subrange(0, n - start) =~= digits);
    if negative {
        Some((-value) as i32)
    } else if value > 0x7fff_ffff {
        None
    } else {
        Some(value as i32)
    }
}

/// The keys of the object that a JSON text holds, as `serde_json` reads
/// it; `None` where the text is no JSON or holds another kind of value.
pub uninterp spec fn json_object_keys(json: Seq<char>) -> Option<Seq<Seq<char>>>;

/// What a vector of texts holds.
pub open spec fn texts_view(v: Seq<String>) -> Seq<Seq<char>> {
    Seq::new(v.len(), |i: int| v[i]@)
}

/// Reads a JSON text with `serde_json::from_str` and hands out the keys
/// of the object it holds.
#[verifier::external_body]
pub(crate) fn object_keys(json: &str) -> (r: Option<Vec<String>>)
    ensures
        match r {
            Some(keys) => json_object_keys(json@) == Some(texts_view(keys@)),
            None => json_object_keys(json@) is None,
        },
{
    match serde_json::from_str::<serde_json::Value>(json) {
        Ok(value) => value.as_object().map(|object| object.keys().cloned().collect()),
        Err(_) => None,
    }
}

/// The larger of `best` and the largest number among `keys`; a key that
/// writes no number counts for nothing.
pub open spec fn best_of_keys(best: i32, keys: Seq<Seq<char>>) -> i32
    decreases keys.len(),
{
    if keys.len() == 0 {
        best
    } else {
        let before = best_of_keys(best, keys.drop_last());
        match parsed_i32(keys.last()) {
            Some(index) => if index > before {
                index
            } else {
                before
            },
            None => before,
        }
    }
}

/// The larger of `best` and the largest citation number in the context
/// maps; a map that is no JSON object counts for nothing.
pub open spec fn best_of_maps(best: i32, maps: Seq<Seq<char>>) -> i32
    decreases maps.len(),
{
    if maps.len() == 0 {
        best
    } else {
        let before = best_of_maps(best, maps.drop_last());
        match json_object_keys(maps.last()) {
            Some(keys) => best_of_keys(before, keys),
            None => before,
        }
    }
}

/// The largest number among the keys, or `best` where that is larger.
pub fn max_of_keys(best: i32, keys: &Vec<String>) -> (r: i32)
    ensures
        r == best_of_keys(best, texts_view(keys@)),
        r >= best,
{
    let n: usize = keys.len();
    let ghost all = texts_view(keys@);
    let mut r: i32 = best;
    let mut i: usize = 0;
    assert(all.subrange(0, 0) =~= Seq::<Seq<char>>::empty());
    while i < n
        invariant
            n == keys@.len(),
            all == texts_view(keys@),
            i <= n,
            r == best_of_keys(best, all.subrange(0, i as int)),
            r >= best,
        decreases n - i,
    {
        assert(all.subrange(0, i as int + 1).drop_last() =~= all.subrange(0, i as int));
        assert(all.subrange(0, i as int + 1).last() == keys@[i as int]@);
        if let Some(index) = parse_i32(keys[i].as_str()) {
            if index > r {
                r = index;
            }
        }
        i += 1;
    }
    assert(all.subrange(0, n as int) =~= all);
    r
}

/// The largest citation number in the context maps of a thread; zero
/// where there is none above it.
pub fn max_citation_index(context_maps: &Vec<String>) -> (r: i32)
    ensures
        r == best_of_maps(0, texts_view(context_maps@)),
        r >= 0,
{
    let n: usize = context_maps.len();
    let ghost all = texts_view(context_maps@);
    let mut r: i32 = 0;
    let mut i: usize = 0;
    assert(all.subrange(0, 0) =~= Seq::<Seq<char>>::empty());
    while i < n
        invariant
            n == context_maps@.len(),
            all == texts_view(context_maps@),
            i <= n,
            r == best_of_maps(0, all.subrange(0, i as int)),
            r >= 0,
        decreases n - i,
    {
        assert(all.subrange(0, i as int + 1).drop_last() =~= all.subrange(0, i as int));
        assert(all.subrange(0, i as int + 1).last() == context_maps@[i as int]@);
        if let Some(keys) = object_keys(context_maps[i].as_str()) {
            r = max_of_keys(r, &keys);
        }
        i += 1;
    }
    assert(all.subrange(0, n as int) =~= all);
    r
}

} // verus!
