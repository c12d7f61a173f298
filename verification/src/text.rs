//! Character-level text searching, trimming and number parsing.
//!
//! Every executable function works on a vector of characters and is specified
//! by a function on `Seq<char>` defined beside it.

use vstd::prelude::*;

verus! {

/// Whether `c` has the Unicode `White_Space` property.
pub open spec fn is_whitespace(c: char) -> bool {
    let u = c as u32;
    ||| 0x09 <= u <= 0x0D
    ||| u == 0x20
    ||| u == 0x85
    ||| u == 0xA0
    ||| u == 0x1680
    ||| 0x2000 <= u <= 0x200A
    ||| u == 0x2028
    ||| u == 0x2029
    ||| u == 0x202F
    ||| u == 0x205F
    ||| u == 0x3000
}

/// Decides [`is_whitespace`].
pub fn char_is_whitespace(c: char) -> (b: bool)
    ensures
        b == is_whitespace(c),
{
    let u: u32 = c as u32;
    (0x09 <= u && u <= 0x0D) || u == 0x20 || u == 0x85 || u == 0xA0 || u == 0x1680 || (0x2000 <= u
        && u <= 0x200A) || u == 0x2028 || u == 0x2029 || u == 0x202F || u == 0x205F || u == 0x3000
}

/// A set of characters that a search can look for.
#[derive(Clone, Copy, Debug)]
pub enum CharClass {
    /// The one given character.
    Exactly(char),
    /// Any whitespace character.
    Whitespace,
    /// Any character that is not whitespace.
    NotWhitespace,
}

impl CharClass {
    /// Whether `c` belongs to the class.
    pub open spec fn holds(self, c: char) -> bool {
        match self {
            CharClass::Exactly(x) => c == x,
            CharClass::Whitespace => is_whitespace(c),
            CharClass::NotWhitespace => !is_whitespace(c),
        }
    }

    /// Decides [`CharClass::holds`].
    pub fn test(&self, c: char) -> (b: bool)
        ensures
            b == self.holds(c),
    {
        match self {
            CharClass::Exactly(x) => c == *x,
            CharClass::Whitespace => char_is_whitespace(c),
            CharClass::NotWhitespace => !char_is_whitespace(c),
        }
    }
}

/// The least index `i >= from` of `s` whose character is in `class`, if there is one.
pub open spec fn first_index(s: Seq<char>, class: CharClass, from: int) -> Option<int>
    decreases s.len() - from,
{
    if from < 0 || from >= s.len() {
        None
    } else if class.holds(s[from]) {
        Some(from)
    } else {
        first_index(s, class, from + 1)
    }
}

/// The greatest index `i < to` of `s` whose character is in `class`, if there is one.
pub open spec fn last_index(s: Seq<char>, class: CharClass, to: int) -> Option<int>
    decreases to,
{
    if to <= 0 || to > s.len() {
        None
    } else if class.holds(s[to - 1]) {
        Some(to - 1)
    } else {
        last_index(s, class, to - 1)
    }
}

/// Whether `needle` stands in `hay` at index `at`.
pub open spec fn occurs_at(hay: Seq<char>, needle: Seq<char>, at: int) -> bool {
    &&& 0 <= at
    &&& at + needle.len() <= hay.len()
    &&& hay.subrange(at, at + needle.len()) == needle
}

/// The least index `i >= from` at which `needle` stands in `hay`, if there is one.
pub open spec fn find_from(hay: Seq<char>, needle: Seq<char>, from: int) -> Option<int>
    decreases hay.len() + 1 - from,
{
    if from < 0 || from + needle.len() > hay.len() {
        None
    } else if occurs_at(hay, needle, from) {
        Some(from)
    } else {
        find_from(hay, needle, from + 1)
    }
}

/// The index of the first occurrence of `needle` in `hay`.
pub open spec fn find(hay: Seq<char>, needle: Seq<char>) -> Option<int> {
    find_from(hay, needle, 0)
}

/// Whether `needle` occurs somewhere in `hay`.
pub open spec fn contains(hay: Seq<char>, needle: Seq<char>) -> bool {
    find(hay, needle) is Some
}

/// `s` without its leading and trailing whitespace.
pub open spec fn trim(s: Seq<char>) -> Seq<char> {
    match first_index(s, CharClass::NotWhitespace, 0) {
        None => Seq::empty(),
        Some(lo) => s.subrange(lo, last_index(s, CharClass::NotWhitespace, s.len() as int)->0 + 1),
    }
}

/// Whether `s`, once trimmed, begins with `prefix`.
pub open spec fn trimmed_starts_with(s: Seq<char>, prefix: Seq<char>) -> bool {
    occurs_at(trim(s), prefix, 0)
}

/// Whether `c` is one of the ten decimal digits.
pub open spec fn is_digit(c: char) -> bool {
    '0' <= c <= '9'
}

/// The value of the digit `c`; zero for any other character.
pub open spec fn digit_value(c: char) -> nat {
    if is_digit(c) {
        (c as u32 - '0' as u32) as nat
    } else {
        0
    }
}

/// The number that the decimal digits `s` denote.
pub open spec fn digits_value(s: Seq<char>) -> nat
    decreases s.len(),
{
    if s.len() == 0 {
        0
    } else {
        digits_value(s.drop_last()) * 10 + digit_value(s.last())
    }
}

/// The value of a string of one or more digits, where it fits in 32 bits.
pub open spec fn digits_to_u32(digits: Seq<char>) -> Option<u32> {
    if digits.len() > 0 && (forall|i: int| 0 <= i < digits.len() ==> is_digit(#[trigger] digits[i]))
        && digits_value(digits) <= u32::MAX {
        Some(digits_value(digits) as u32)
    } else {
        None
    }
}

/// The value of `s` read as an unsigned 32-bit decimal number: an optional `+`,
/// then one or more digits, denoting a value that fits; `None` for anything else.
pub open spec fn parse_u32(s: Seq<char>) -> Option<u32> {
    if s.len() > 0 && s[0] == '+' {
        digits_to_u32(s.drop_first())
    } else {
        digits_to_u32(s)
    }
}

/// The index held by `r`, as a mathematical integer.
pub open spec fn index_view(r: Option<usize>) -> Option<int> {
    match r {
        Some(i) => Some(i as int),
        None => None,
    }
}

/// The characters of `s`, in order.
pub fn chars_of(s: &str) -> (v: Vec<char>)
    ensures
        v@ == s@,
{
    let mut v: Vec<char> = Vec::new();
    for c in it: s.chars()
        invariant
            v@ == it.seq().take(it.index() as int),
            it.seq() == s@,
    {
        v.push(c);
    }
    v
}

/// Searches `s` forwards from `from` for a character in `class`.
pub fn find_class(s: &Vec<char>, class: CharClass, from: usize) -> (r: Option<usize>)
    ensures
        index_view(r) == first_index(s@, class, from as int),
{
    let mut i: usize = from;
    while i < s.len()
        invariant
            from <= i,
            first_index(s@, class, from as int) == first_index(s@, class, i as int),
        decreases s.len() - i,
    {
        if class.test(s[i]) {
            return Some(i);
        }
        i += 1;
    }
    None
}

/// Searches `s` backwards from `to` for a character in `class`.
pub fn rfind_class(s: &Vec<char>, class: CharClass, to: usize) -> (r: Option<usize>)
    ensures
        index_view(r) == last_index(s@, class, to as int),
{
    if to > s.len() {
        return None;
    }
    let mut i: usize = to;
    while i > 0
        invariant
            i <= to <= s.len(),
            last_index(s@, class, to as int) == last_index(s@, class, i as int),
        decreases i,
    {
        if class.test(s[i - 1]) {
            return Some(i - 1);
        }
        i -= 1;
    }
    None
}

/// Tests whether `needle` stands in `hay` at index `at`.
pub fn matches_at(hay: &Vec<char>, at: usize, needle: &Vec<char>) -> (b: bool)
    ensures
        b == occurs_at(hay@, needle@, at as int),
{
    if at > hay.len() || needle.len() > hay.len() - at {
        return false;
    }
    let mut k: usize = 0;
    while k < needle.len()
        invariant
            k <= needle.len(),
            at + needle.len() <= hay.len(),
            forall|j: int| 0 <= j < k ==> hay@[at + j] == needle@[j],
        decreases needle.len() - k,
    {
        if hay[at + k] != needle[k] {
            assert(hay@.subrange(at as int, at + needle.len())[k as int] != needle@[k as int]);
            return false;
        }
        k += 1;
    }
    assert(hay@.subrange(at as int, at + needle.len()) =~= needle@);
    true
}

/// Searches `hay` forwards from `from` for an occurrence of `needle`.
pub fn find_in(hay: &Vec<char>, needle: &Vec<char>, from: usize) -> (r: Option<usize>)
    ensures
        index_view(r) == find_from(hay@, needle@, from as int),
{
    if needle.len() > hay.len() {
        return None;
    }
    let last: usize = hay.len() - needle.len();
    let mut i: usize = from;
    while i <= last
        invariant
            from <= i,
            last + needle.len() == hay.len(),
            find_from(hay@, needle@, from as int) == find_from(hay@, needle@, i as int),
        decreases last - i,
    {
        if matches_at(hay, i, needle) {
            return Some(i);
        }
        if i == last {
            assert(find_from(hay@, needle@, i + 1) is None);
            return None;
        }
        i += 1;
    }
    None
}

/// Tests whether `needle` occurs somewhere in `hay`.
pub fn contains_text(hay: &Vec<char>, needle: &Vec<char>) -> (b: bool)
    ensures
        b == contains(hay@, needle@),
{
    find_in(hay, needle, 0).is_some()
}

/// Tests whether `s`, once trimmed, begins with `prefix`.
pub fn starts_with_trimmed(s: &Vec<char>, prefix: &Vec<char>) -> (b: bool)
    ensures
        b == trimmed_starts_with(s@, prefix@),
{
    match find_class(s, CharClass::NotWhitespace, 0) {
        None => {
            assert(prefix@.len() == 0 ==> Seq::<char>::empty().subrange(0, 0) =~= prefix@);
            prefix.len() == 0
        },
        Some(lo) => {
            proof {
                lemma_first_index(s@, CharClass::NotWhitespace, 0);
                lemma_last_after_first(s@, CharClass::NotWhitespace, lo as int, s.len() as int);
            }
            match rfind_class(s, CharClass::NotWhitespace, s.len()) {
                None => false,
                Some(last) => {
                    let hi: usize = last + 1;
                    let b = prefix.len() <= hi - lo && matches_at(s, lo, prefix);
                    proof {
                        let t = s@.subrange(lo as int, hi as int);
                        if prefix.len() <= hi - lo {
                            assert(t.subrange(0, prefix@.len() as int) =~= s@.subrange(
                                lo as int,
                                lo + prefix@.len(),
                            ));
                        }
                    }
                    b
                },
            }
        },
    }
}

/// Reads the characters of `s` from `lo` up to `hi` as an unsigned decimal
/// number; `None` where these are no bounds of a part of `s`.
pub fn parse_u32_in(s: &Vec<char>, lo: usize, hi: usize) -> (r: Option<u32>)
    ensures
        r == if lo <= hi <= s.len() {
            parse_u32(s@.subrange(lo as int, hi as int))
        } else {
            None
        },
{
    if lo >= hi || hi > s.len() {
        return None;
    }
    let ghost text = s@.subrange(lo as int, hi as int);
    let start: usize = if s[lo] == '+' {
        lo + 1
    } else {
        lo
    };
    let ghost digits = s@.subrange(start as int, hi as int);
    assert(start > lo ==> digits =~= text.drop_first());
    assert(start == lo ==> digits =~= text);
    if start == hi {
        return None;
    }
    let mut acc: u64 = 0;
    let mut i: usize = start;
    while i < hi
        invariant
            lo <= start <= i <= hi <= s.len(),
            digits == s@.subrange(start as int, hi as int),
            parse_u32(s@.subrange(lo as int, hi as int)) == digits_to_u32(digits),
            forall|j: int| 0 <= j < i - start ==> is_digit(#[trigger] digits[j]),
            acc == digits_value(digits.take(i - start)),
            acc <= u32::MAX,
        decreases hi - i,
    {
        let c = s[i];
        if !('0' <= c && c <= '9') {
            assert(!is_digit(digits[i - start]));
            return None;
        }
        let d: u64 = (c as u32 - '0' as u32) as u64;
        let next: u64 = acc * 10 + d;
        proof {
            let upto = digits.take(i - start + 1);
            assert(upto.drop_last() =~= digits.take(i - start));
            assert(upto.last() == c);
            assert(next == digits_value(upto));
        }
        if next > u32::MAX as u64 {
            proof {
                lemma_digits_value_grows(digits, i - start + 1);
            }
            return None;
        }
        acc = next;
        i += 1;
    }
    assert(digits.take(hi - start) =~= digits);
    Some(acc as u32)
}

/// [`first_index`] gives the least index at or after `from` whose character
/// is in the class, and `None` exactly where there is no such index.
pub proof fn lemma_first_index(s: Seq<char>, class: CharClass, from: int)
    requires
        0 <= from,
    ensures
        match first_index(s, class, from) {
            Some(i) => {
                &&& from <= i < s.len()
                &&& class.holds(s[i])
                &&& forall|j: int| from <= j < i ==> !class.holds(#[trigger] s[j])
            },
            None => forall|j: int| from <= j < s.len() ==> !class.holds(#[trigger] s[j]),
        },
    decreases s.len() - from,
{
    if from < s.len() && !class.holds(s[from]) {
        lemma_first_index(s, class, from + 1);
    }
}

/// [`find_from`] gives the least index at or after `from` at which the
/// needle stands, and `None` exactly where it stands at no such index.
pub proof fn lemma_find_from(hay: Seq<char>, needle: Seq<char>, from: int)
    requires
        0 <= from,
    ensures
        match find_from(hay, needle, from) {
            Some(i) => {
                &&& from <= i
                &&& occurs_at(hay, needle, i)
                &&& forall|j: int| from <= j < i ==> !occurs_at(hay, needle, j)
            },
            None => forall|j: int| from <= j ==> !occurs_at(hay, needle, j),
        },
    decreases hay.len() + 1 - from,
{
    if from + needle.len() <= hay.len() && !occurs_at(hay, needle, from) {
        lemma_find_from(hay, needle, from + 1);
    }
}

/// Where a character of the class stands at `at`, the backward search from any
/// later point finds one at `at` or after it.
pub proof fn lemma_last_after_first(s: Seq<char>, class: CharClass, at: int, to: int)
    requires
        0 <= at < to <= s.len(),
        class.holds(s[at]),
    ensures
        last_index(s, class, to) matches Some(i) && at <= i < to && class.holds(s[i]),
    decreases to,
{
    if !class.holds(s[to - 1]) {
        lemma_last_after_first(s, class, at, to - 1);
    }
}

/// The value of a prefix of a digit string is at most the value of the whole.
pub proof fn lemma_digits_value_grows(s: Seq<char>, n: int)
    requires
        0 <= n <= s.len(),
    ensures
        digits_value(s.take(n)) <= digits_value(s),
    decreases s.len(),
{
    if n < s.len() {
        assert(s.drop_last().take(n) =~= s.take(n));
        lemma_digits_value_grows(s.drop_last(), n);
    } else {
        assert(s.take(n) =~= s);
    }
}

} // verus!
