//! Text as sequences of characters: decimal numbers, prefixes, searching and splitting.

use vstd::prelude::*;
use vstd::std_specs::iter::IteratorSpec;

verus! {

/// `String::push`: the character is appended.
pub assume_specification[ String::push ](s: &mut String, c: char)
    ensures
        final(s)@ == old(s)@.push(c),
;

/// The characters of a string.
pub fn chars_of(s: &str) -> (v: Vec<char>)
    ensures
        v@ == s@,
{
    let mut v: Vec<char> = Vec::new();
    for c in it: s.chars()
        invariant
            it.seq() == s@,
            v@ == s@.take(it.index() as int),
    {
        v.push(c);
        assert(v@ =~= s@.take(it.index() + 1));
    }
    assert(v@ =~= s@);
    v
}

/// The string made of `chars`.
pub fn string_of(chars: &[char]) -> (s: String)
    ensures
        s@ == chars@,
{
    let mut s = String::new();
    let mut i: usize = 0;
    while i < chars.len()
        invariant
            i <= chars@.len(),
            s@ == chars@.take(i as int),
        decreases chars@.len() - i,
    {
        s.push(chars[i]);
        i = i + 1;
        assert(s@ =~= chars@.take(i as int));
    }
    assert(s@ =~= chars@);
    s
}

/// A copy of a string.
pub fn copy_str(s: &str) -> (r: String)
    ensures
        r@ == s@,
{
    s.to_owned()
}

/// Whether two texts are the same.
pub fn same_text(a: &[char], b: &[char]) -> (r: bool)
    ensures
        r == (a@ == b@),
{
    if a.len() != b.len() {
        return false;
    }
    let mut i: usize = 0;
    while i < a.len()
        invariant
            i <= a@.len(),
            a@.len() == b@.len(),
            forall|k: int| 0 <= k < i ==> a@[k] == b@[k],
        decreases a@.len() - i,
    {
        if a[i] != b[i] {
            return false;
        }
        i = i + 1;
    }
    assert(a@ =~= b@);
    true
}

// ---------------------------------------------------------------------------------------------
// Decimal numbers
// ---------------------------------------------------------------------------------------------

/// The decimal digit of `v`, for `v` below 10.
pub open spec fn digit_char(v: int) -> char {
    ('0' as int + v) as char
}

pub open spec fn is_digit(c: char) -> bool {
    '0' <= c && c <= '9'
}

/// `n` in decimal, without leading zeros.
pub open spec fn decimal(n: nat) -> Seq<char>
    decreases n,
{
    if n < 10 {
        seq![digit_char(n as int)]
    } else {
        decimal(n / 10).push(digit_char((n % 10) as int))
    }
}

/// The number that a sequence of digits stands for.
pub open spec fn digits_value(s: Seq<char>) -> nat
    decreases s.len(),
{
    if s.len() == 0 {
        0
    } else {
        (10 * digits_value(s.drop_last()) + (s.last() as int - '0' as int)) as nat
    }
}

/// One or more digits, and nothing else.
pub open spec fn is_number(s: Seq<char>) -> bool {
    s.len() > 0 && forall|i: int| 0 <= i < s.len() ==> is_digit(#[trigger] s[i])
}

/// `s` without a leading plus sign.
pub open spec fn without_plus(s: Seq<char>) -> Seq<char> {
    if s.len() > 0 && s[0] == '+' {
        s.skip(1)
    } else {
        s
    }
}

/// The unsigned number that `s` denotes: digits, optionally after one plus sign, with a value of
/// at most `max`.
pub open spec fn parsed_number(s: Seq<char>, max: nat) -> Option<nat> {
    let body = without_plus(s);
    if is_number(body) && digits_value(body) <= max {
        Some(digits_value(body))
    } else {
        None
    }
}

/// The decimal text of a number.
pub fn decimal_string(n: u64) -> (s: String)
    ensures
        s@ == decimal(n as nat),
{
    let mut reversed: Vec<char> = Vec::new();
    let mut rest: u64 = n;
    while rest >= 10
        invariant
            decimal(n as nat) == decimal(rest as nat) + reversed@.reverse(),
        decreases rest,
    {
        let digit = digit_of((rest % 10) as u8);
        let ghost before = reversed@;
        reversed.push(digit);
        proof {
            assert(reversed@.reverse() =~= seq![digit] + before.reverse());
            assert(decimal(rest as nat) == decimal((rest / 10) as nat).push(digit));
            assert(decimal((rest / 10) as nat).push(digit) + before.reverse() =~= decimal(
                (rest / 10) as nat,
            ) + reversed@.reverse());
        }
        rest = rest / 10;
    }
    let digit = digit_of(rest as u8);
    let ghost before = reversed@;
    reversed.push(digit);
    proof {
        assert(reversed@.reverse() =~= seq![digit] + before.reverse());
        assert(decimal(n as nat) =~= reversed@.reverse());
    }
    let mut s = String::new();
    let mut i: usize = reversed.len();
    while i > 0
        invariant
            i <= reversed@.len(),
            s@ == reversed@.reverse().take(reversed@.len() - i),
        decreases i,
    {
        i = i - 1;
        s.push(reversed[i]);
        assert(s@ =~= reversed@.reverse().take(reversed@.len() - i));
    }
    assert(s@ =~= reversed@.reverse());
    s
}

/// The character of a digit.
fn digit_of(v: u8) -> (c: char)
    requires
        v < 10,
    ensures
        c == digit_char(v as int),
{
    (48 + v) as char
}

/// Parses an unsigned number of at most `max`.
pub fn parse_number(s: &[char], max: u64) -> (r: Option<u64>)
    ensures
        match r {
            Some(v) => parsed_number(s@, max as nat) == Some(v as nat),
            None => parsed_number(s@, max as nat) is None,
        },
{
    let start: usize = if s.len() > 0 && s[0] == '+' {
        1
    } else {
        0
    };
    let ghost body = without_plus(s@);
    assert(body =~= s@.skip(start as int));
    if start == s.len() {
        return None;
    }
    let mut value: u64 = 0;
    let mut i: usize = start;
    assert(body.take(0) =~= Seq::<char>::empty());
    while i < s.len()
        invariant
            start <= i <= s@.len(),
            body == s@.skip(start as int),
            body.len() == s@.len() - start,
            body == without_plus(s@),
            forall|k: int| 0 <= k < i - start ==> is_digit(#[trigger] body[k]),
            value == digits_value(body.take(i - start)),
            value <= max,
        decreases s@.len() - i,
    {
        let c = s[i];
        assert(c == body[i - start]);
        if !('0' <= c && c <= '9') {
            assert(!is_digit(body[i - start]));
            return None;
        }
        let d: u64 = (c as u32 - 48) as u64;
        let ghost p = i - start;
        proof {
            assert(body.take(p + 1).drop_last() =~= body.take(p));
            assert(digits_value(body.take(p + 1)) == 10 * value + d);
            lemma_digits_value_monotone(body, p + 1, body.len() as int);
            assert(body.take(body.len() as int) =~= body);
        }
        if value > max / 10 || d > max - value * 10 {
            proof {
                assert(10 * value + d > max);
                if is_number(body) {
                    assert(digits_value(body) > max);
                }
            }
            return None;
        }
        value = value * 10 + d;
        i = i + 1;
    }
    assert(body.take(body.len() as int) =~= body);
    Some(value)
}

/// More digits never make a number smaller.
proof fn lemma_digits_value_monotone(s: Seq<char>, a: int, b: int)
    requires
        0 <= a <= b <= s.len(),
    ensures
        (forall|i: int| a <= i < b ==> is_digit(#[trigger] s[i])) ==> digits_value(s.take(a))
            <= digits_value(s.take(b)),
    decreases b - a,
{
    if a < b {
        lemma_digits_value_monotone(s, a, b - 1);
        assert(s.take(b).drop_last() =~= s.take(b - 1));
        if forall|i: int| a <= i < b ==> is_digit(#[trigger] s[i]) {
            assert(is_digit(s[b - 1]));
        }
    }
}

/// A decimal text is a number, and its value is the number it was made from.
pub proof fn lemma_decimal_value(n: nat)
    ensures
        is_number(decimal(n)),
        digits_value(decimal(n)) == n,
        decimal(n)[0] != '+',
    decreases n,
{
    if n < 10 {
        let s = decimal(n);
        assert(s.drop_last() =~= Seq::<char>::empty());
        assert(is_digit(s[0]));
        assert(digits_value(s.drop_last()) == 0);
        assert(s.last() as int - '0' as int == n);
    } else {
        lemma_decimal_value(n / 10);
        let s = decimal(n);
        let d = digit_char((n % 10) as int);
        assert(s.drop_last() =~= decimal(n / 10));
        assert(is_digit(d));
        assert(s.last() as int - '0' as int == n % 10);
        assert(digits_value(s) == 10 * (n / 10) + n % 10);
        assert forall|i: int| 0 <= i < s.len() implies is_digit(#[trigger] s[i]) by {
            if i < s.len() - 1 {
                assert(s[i] == decimal(n / 10)[i]);
            }
        }
        assert(s[0] == decimal(n / 10)[0]);
    }
}

/// Parsing undoes formatting.
pub proof fn law_decimal_round_trip(n: nat, max: nat)
    requires
        n <= max,
    ensures
        parsed_number(decimal(n), max) == Some(n),
{
    lemma_decimal_value(n);
}

// ---------------------------------------------------------------------------------------------
// Prefixes and searching
// ---------------------------------------------------------------------------------------------

/// `s` begins with `prefix`.
pub open spec fn starts_with(s: Seq<char>, prefix: Seq<char>) -> bool {
    prefix.len() <= s.len() && s.take(prefix.len() as int) == prefix
}

/// `pattern` occurs in `s` at position `i`.
pub open spec fn occurs_at(s: Seq<char>, pattern: Seq<char>, i: int) -> bool {
    0 <= i && i + pattern.len() <= s.len() && s.subrange(i, i + pattern.len()) == pattern
}

/// The first position at which `pattern` occurs in `s`.
#[verifier::opaque]
pub open spec fn first_occurrence(s: Seq<char>, pattern: Seq<char>) -> Option<int> {
    if exists|i: int| occurs_at(s, pattern, i) {
        Some(
            choose|i: int|
                #![trigger occurs_at(s, pattern, i)]
                occurs_at(s, pattern, i) && forall|j: int|
                    0 <= j < i ==> !#[trigger] occurs_at(s, pattern, j),
        )
    } else {
        None
    }
}

/// Where a pattern occurs and does not occur before.
pub proof fn lemma_first_occurrence(s: Seq<char>, pattern: Seq<char>, i: int)
    requires
        occurs_at(s, pattern, i),
        forall|j: int| 0 <= j < i ==> !#[trigger] occurs_at(s, pattern, j),
    ensures
        first_occurrence(s, pattern) == Some(i),
{
    reveal(first_occurrence);
    let first = choose|k: int|
        #![trigger occurs_at(s, pattern, k)]
        occurs_at(s, pattern, k) && forall|j: int|
            0 <= j < k ==> !#[trigger] occurs_at(s, pattern, j);
    assert(occurs_at(s, pattern, first));
}

/// Where a character occurs and does not occur before.
pub proof fn lemma_first_char(s: Seq<char>, c: char, i: int)
    requires
        0 <= i < s.len(),
        s[i] == c,
        forall|j: int| 0 <= j < i ==> #[trigger] s[j] != c,
    ensures
        first_occurrence(s, seq![c]) == Some(i),
{
    assert(s.subrange(i, i + 1) =~= seq![c]);
    assert forall|j: int| 0 <= j < i implies !#[trigger] occurs_at(s, seq![c], j) by {
        if occurs_at(s, seq![c], j) {
            assert(s.subrange(j, j + 1)[0] == s[j]);
        }
    }
    lemma_first_occurrence(s, seq![c], i);
}

/// Whether `pattern` occurs in `s` at `i`.
pub fn occurs(s: &[char], pattern: &[char], i: usize) -> (r: bool)
    ensures
        r == occurs_at(s@, pattern@, i as int),
{
    if i > s.len() || pattern.len() > s.len() - i {
        return false;
    }
    let n: usize = s.len();
    let mut k: usize = 0;
    while k < pattern.len()
        invariant
            k <= pattern@.len(),
            n == s@.len(),
            i + pattern@.len() <= n,
            forall|j: int| 0 <= j < k ==> s@[i + j] == #[trigger] pattern@[j],
        decreases pattern@.len() - k,
    {
        if s[i + k] != pattern[k] {
            assert(s@.subrange(i as int, i + pattern@.len())[k as int] != pattern@[k as int]);
            return false;
        }
        k = k + 1;
    }
    assert(s@.subrange(i as int, i + pattern@.len()) =~= pattern@);
    true
}

/// Whether `s` begins with `prefix`.
pub fn has_prefix(s: &[char], prefix: &[char]) -> (r: bool)
    ensures
        r == starts_with(s@, prefix@),
{
    proof {
        if prefix@.len() <= s@.len() {
            assert(s@.subrange(0, prefix@.len() as int) =~= s@.take(prefix@.len() as int));
        }
    }
    occurs(s, prefix, 0)
}

/// The first position at which `pattern` occurs in `s`.
pub fn find(s: &[char], pattern: &[char]) -> (r: Option<usize>)
    ensures
        match r {
            Some(i) => first_occurrence(s@, pattern@) == Some(i as int),
            None => first_occurrence(s@, pattern@) is None,
        },
        r matches Some(i) ==> occurs_at(s@, pattern@, i as int),
{
    proof {
        reveal(first_occurrence);
    }
    if pattern.len() > s.len() {
        return None;
    }
    let last: usize = s.len() - pattern.len();
    let mut i: usize = 0;
    while i <= last
        invariant
            last == s@.len() - pattern@.len(),
            i <= last,
            forall|j: int| 0 <= j < i ==> !#[trigger] occurs_at(s@, pattern@, j),
        decreases last - i,
    {
        if occurs(s, pattern, i) {
            proof {
                reveal(first_occurrence);
                assert(occurs_at(s@, pattern@, i as int));
                let first = choose|k: int|
                    #![trigger occurs_at(s@, pattern@, k)]
                    occurs_at(s@, pattern@, k) && forall|j: int|
                        0 <= j < k ==> !#[trigger] occurs_at(s@, pattern@, j);
                assert(occurs_at(s@, pattern@, first));
                assert(first == i as int);
            }
            return Some(i);
        }
        if i == last {
            proof {
                reveal(first_occurrence);
            }
            return None;
        }
        i = i + 1;
    }
    None
}

// ---------------------------------------------------------------------------------------------
// Splitting and trimming
// ---------------------------------------------------------------------------------------------

/// The pieces of `s` between separators; there is always at least one.
pub open spec fn split_on(s: Seq<char>, sep: char) -> Seq<Seq<char>>
    decreases s.len(),
{
    if s.len() == 0 {
        seq![Seq::empty()]
    } else {
        let front = split_on(s.drop_last(), sep);
        if s.last() == sep {
            front.push(Seq::empty())
        } else {
            front.drop_last().push(front.last().push(s.last()))
        }
    }
}

/// There is always at least one piece.
pub proof fn lemma_split_nonempty(s: Seq<char>, sep: char)
    ensures
        split_on(s, sep).len() >= 1,
    decreases s.len(),
{
    if s.len() > 0 {
        lemma_split_nonempty(s.drop_last(), sep);
    }
}

/// A text without separator is one piece.
pub proof fn lemma_split_one(s: Seq<char>, sep: char)
    requires
        forall|i: int| 0 <= i < s.len() ==> #[trigger] s[i] != sep,
    ensures
        split_on(s, sep) == seq![s],
    decreases s.len(),
{
    if s.len() > 0 {
        let front = s.drop_last();
        assert forall|i: int| 0 <= i < front.len() implies #[trigger] front[i] != sep by {
            assert(front[i] == s[i]);
        }
        lemma_split_one(front, sep);
        assert(s.last() == s[s.len() - 1]);
        assert(front.push(s.last()) =~= s);
        assert(split_on(s, sep) =~= seq![s]);
    } else {
        assert(s =~= Seq::<char>::empty());
    }
}

/// What stands before the first separator is the first piece.
pub proof fn lemma_split_first(a: Seq<char>, sep: char, b: Seq<char>)
    requires
        forall|i: int| 0 <= i < a.len() ==> #[trigger] a[i] != sep,
    ensures
        split_on(a.push(sep) + b, sep) == seq![a] + split_on(b, sep),
    decreases b.len(),
{
    let s = a.push(sep) + b;
    if b.len() == 0 {
        assert(s.drop_last() =~= a);
        assert(s.last() == sep);
        lemma_split_one(a, sep);
        assert(b =~= Seq::<char>::empty());
        assert(split_on(s, sep) =~= seq![a] + split_on(b, sep));
    } else {
        let front = b.drop_last();
        lemma_split_first(a, sep, front);
        lemma_split_nonempty(front, sep);
        assert(s.drop_last() =~= a.push(sep) + front);
        assert(s.last() == b.last());
        let before = seq![a] + split_on(front, sep);
        assert(before.last() == split_on(front, sep).last());
        assert(before.drop_last() =~= seq![a] + split_on(front, sep).drop_last());
        assert(split_on(s, sep) =~= seq![a] + split_on(b, sep));
    }
}

/// The contents of a list of texts.
pub open spec fn texts(v: Seq<Vec<char>>) -> Seq<Seq<char>> {
    v.map_values(|x: Vec<char>| x@)
}

/// Splits a text at every separator.
pub fn split(s: &[char], sep: char) -> (r: Vec<Vec<char>>)
    ensures
        texts(r@) == split_on(s@, sep),
        r@.len() >= 1,
{
    let mut done: Vec<Vec<char>> = Vec::new();
    let mut current: Vec<char> = Vec::new();
    let mut i: usize = 0;
    assert(s@.take(0) =~= Seq::<char>::empty());
    assert(texts(done@).push(current@) =~= seq![Seq::<char>::empty()]);
    while i < s.len()
        invariant
            i <= s@.len(),
            texts(done@).push(current@) == split_on(s@.take(i as int), sep),
        decreases s@.len() - i,
    {
        let c = s[i];
        let ghost front = split_on(s@.take(i as int), sep);
        proof {
            assert(s@.take(i + 1).drop_last() =~= s@.take(i as int));
            assert(s@.take(i + 1).last() == c);
            assert(front.drop_last() =~= texts(done@));
            assert(front.last() == current@);
        }
        if c == sep {
            let ghost before = done@;
            let ghost piece = current@;
            done.push(current);
            current = Vec::new();
            proof {
                assert(texts(done@) =~= texts(before).push(piece));
                assert(current@ =~= Seq::<char>::empty());
            }
        } else {
            current.push(c);
        }
        i = i + 1;
    }
    assert(s@.take(i as int) =~= s@);
    let ghost before = done@;
    let ghost piece = current@;
    done.push(current);
    assert(texts(done@) =~= texts(before).push(piece));
    done
}

/// A white space character.
pub open spec fn is_space(c: char) -> bool {
    let v = c as u32;
    ||| 0x09 <= v <= 0x0D
    ||| v == 0x20
    ||| v == 0x85
    ||| v == 0xA0
    ||| v == 0x1680
    ||| 0x2000 <= v <= 0x200A
    ||| v == 0x2028
    ||| v == 0x2029
    ||| v == 0x202F
    ||| v == 0x205F
    ||| v == 0x3000
}

/// Whether a character is white space.
pub fn is_white_space(c: char) -> (r: bool)
    ensures
        r == is_space(c),
{
    let v: u32 = c as u32;
    (0x09 <= v && v <= 0x0D) || v == 0x20 || v == 0x85 || v == 0xA0 || v == 0x1680 || (0x2000 <= v
        && v <= 0x200A) || v == 0x2028 || v == 0x2029 || v == 0x202F || v == 0x205F || v == 0x3000
}

/// `s` without white space at its start.
pub open spec fn trim_start(s: Seq<char>) -> Seq<char>
    decreases s.len(),
{
    if s.len() > 0 && is_space(s[0]) {
        trim_start(s.skip(1))
    } else {
        s
    }
}

/// `s` without white space at its end.
pub open spec fn trim_end(s: Seq<char>) -> Seq<char>
    decreases s.len(),
{
    if s.len() > 0 && is_space(s.last()) {
        trim_end(s.drop_last())
    } else {
        s
    }
}

/// `s` without white space at either end.
pub open spec fn trimmed(s: Seq<char>) -> Seq<char> {
    trim_end(trim_start(s))
}

/// The part of a text that is left when white space at either end is removed.
pub fn trim(s: &[char]) -> (r: &[char])
    ensures
        r@ == trimmed(s@),
{
    let mut start: usize = 0;
    assert(s@.skip(0) =~= s@);
    while start < s.len() && is_white_space(s[start])
        invariant
            start <= s@.len(),
            trim_start(s@.skip(start as int)) == trim_start(s@),
        decreases s@.len() - start,
    {
        assert(s@.skip(start as int).skip(1) =~= s@.skip(start + 1));
        start = start + 1;
    }
    let ghost rest = s@.skip(start as int);
    assert(trim_start(s@) == rest) by {
        if start < s@.len() {
            assert(rest[0] == s@[start as int]);
        }
    }
    let mut end: usize = s.len();
    assert(s@.subrange(start as int, end as int) =~= rest);
    while end > start && is_white_space(s[end - 1])
        invariant
            start <= end <= s@.len(),
            trim_end(s@.subrange(start as int, end as int)) == trim_end(rest),
        decreases end,
    {
        proof {
            let now = s@.subrange(start as int, end as int);
            assert(now.last() == s@[end - 1]);
            assert(now.drop_last() =~= s@.subrange(start as int, end - 1));
        }
        end = end - 1;
    }
    proof {
        let now = s@.subrange(start as int, end as int);
        if end > start {
            assert(now.last() == s@[end - 1]);
        }
        assert(trim_end(now) == now);
    }
    vstd::slice::slice_subrange(s, start, end)
}

/// Searching finds the first place where the pattern stands, and finds none only if it stands
/// nowhere.
pub proof fn law_search_finds_the_first_place(s: Seq<char>, pattern: Seq<char>)
    ensures
        match first_occurrence(s, pattern) {
            Some(i) => {
                &&& 0 <= i <= s.len() - pattern.len()
                &&& s.subrange(i, i + pattern.len()) == pattern
                &&& forall|j: int|
                    0 <= j < i ==> #[trigger] s.subrange(j, j + pattern.len()) != pattern
            },
            None => forall|j: int|
                0 <= j <= s.len() - pattern.len() ==> #[trigger] s.subrange(j, j + pattern.len())
                    != pattern,
        },
{
    reveal(first_occurrence);
    if exists|i: int| occurs_at(s, pattern, i) {
        let i = lemma_some_first(s, pattern, choose|i: int| occurs_at(s, pattern, i));
        lemma_first_occurrence(s, pattern, i);
        assert forall|j: int| 0 <= j < i implies #[trigger] s.subrange(j, j + pattern.len())
            != pattern by {
            assert(!occurs_at(s, pattern, j));
        }
    } else {
        assert forall|j: int| 0 <= j <= s.len() - pattern.len() implies #[trigger] s.subrange(
            j,
            j + pattern.len(),
        ) != pattern by {
            assert(!occurs_at(s, pattern, j));
        }
    }
}

proof fn lemma_some_first(s: Seq<char>, pattern: Seq<char>, i: int) -> (first: int)
    requires
        occurs_at(s, pattern, i),
    ensures
        occurs_at(s, pattern, first),
        forall|j: int| 0 <= j < first ==> !#[trigger] occurs_at(s, pattern, j),
    decreases i,
{
    if exists|j: int| 0 <= j < i && #[trigger] occurs_at(s, pattern, j) {
        let j = choose|j: int| 0 <= j < i && #[trigger] occurs_at(s, pattern, j);
        lemma_some_first(s, pattern, j)
    } else {
        i
    }
}

/// A text that holds the pattern is found to hold it, whatever stands around it.
pub proof fn law_search_finds_what_is_there(before: Seq<char>, pattern: Seq<char>, after: Seq<char>)
    ensures
        first_occurrence(before + pattern + after, pattern) is Some,
        first_occurrence(before + pattern + after, pattern)->0 <= before.len(),
{
    let s = before + pattern + after;
    assert(s.subrange(before.len() as int, before.len() as int + pattern.len()) =~= pattern);
    law_search_finds_the_first_place(s, pattern);
}

/// A text begins with a prefix exactly if it is the prefix and something behind it.
pub proof fn law_prefix(s: Seq<char>, prefix: Seq<char>)
    ensures
        starts_with(s, prefix) <==> exists|rest: Seq<char>| s == #[trigger] (prefix + rest),
{
    if starts_with(s, prefix) {
        let rest = s.skip(prefix.len() as int);
        assert(s =~= prefix + rest);
    }
    if exists|rest: Seq<char>| s == #[trigger] (prefix + rest) {
        let rest = choose|rest: Seq<char>| s == #[trigger] (prefix + rest);
        assert(s.take(prefix.len() as int) =~= prefix);
    }
}

/// The decimal text of a number has the digits 0 to 9 and no leading zero. Its last digit is the
/// remainder by ten, and the digits before it are the text of the quotient.
pub proof fn law_digits_of_a_number(n: nat)
    ensures
        decimal(n).len() >= 1,
        n < 10 <==> decimal(n).len() == 1,
        decimal(n).last() as int == 48 + n % 10,
        n >= 10 ==> decimal(n).drop_last() == decimal(n / 10),
        n > 0 ==> decimal(n)[0] != '0',
        forall|i: int| 0 <= i < decimal(n).len() ==> '0' <= #[trigger] decimal(n)[i] <= '9',
    decreases n,
{
    lemma_decimal_value(n);
    assert forall|i: int| 0 <= i < decimal(n).len() implies '0' <= #[trigger] decimal(n)[i]
        <= '9' by {
        assert(is_digit(decimal(n)[i]));
    }
    if n >= 10 {
        law_digits_of_a_number(n / 10);
        assert(decimal(n).drop_last() =~= decimal(n / 10));
    }
}

/// A digit is read as the number it shows, unless that is too large.
pub proof fn law_a_digit_is_a_number(c: char, max: nat)
    requires
        '0' <= c <= '9',
    ensures
        c as int - 48 <= max ==> parsed_number(seq![c], max) == Some((c as int - 48) as nat),
        c as int - 48 > max ==> parsed_number(seq![c], max) is None,
{
    let s = seq![c];
    assert(without_plus(s) == s);
    assert(is_digit(s[0]));
    assert(s.drop_last() =~= Seq::<char>::empty());
    assert(digits_value(s.drop_last()) == 0);
    assert(s.last() == c);
}

/// A digit behind a number makes it ten times as large and adds the digit; what is larger than
/// the greatest number allowed is none.
pub proof fn law_one_more_digit(s: Seq<char>, c: char, max: nat)
    requires
        parsed_number(s, max) is Some,
        '0' <= c <= '9',
    ensures
        parsed_number(s.push(c), max) == if 10 * parsed_number(s, max)->0 + (c as int - 48)
            <= max {
            Some((10 * parsed_number(s, max)->0 + (c as int - 48)) as nat)
        } else {
            None
        },
{
    let longer = s.push(c);
    let body = without_plus(s);
    assert(longer[0] == s[0]);
    assert(without_plus(longer) =~= body.push(c));
    assert(body.push(c).drop_last() =~= body);
    assert(is_number(body.push(c))) by {
        assert forall|i: int| 0 <= i < body.push(c).len() implies is_digit(
            #[trigger] body.push(c)[i],
        ) by {
            if i < body.len() {
                assert(is_digit(body[i]));
            }
        }
    }
}

/// What is read as a number is no larger than allowed, and holds digits only, one at least, but
/// for a plus sign in front.
pub proof fn law_numbers_hold_digits_only(s: Seq<char>, max: nat)
    requires
        parsed_number(s, max) is Some,
    ensures
        parsed_number(s, max)->0 <= max,
        s.len() >= 1,
        '0' <= s.last() <= '9',
        forall|i: int|
            0 <= i < s.len() ==> '0' <= #[trigger] s[i] <= '9' || (i == 0 && s[i] == '+'),
{
    let body = without_plus(s);
    assert(is_digit(body[body.len() - 1]));
    assert forall|i: int| 0 <= i < s.len() implies '0' <= #[trigger] s[i] <= '9' || (i == 0 && s[i]
        == '+') by {
        if s[0] == '+' {
            if i > 0 {
                assert(is_digit(body[i - 1]));
            }
        } else {
            assert(is_digit(body[i]));
        }
    }
}

/// A plus sign in front of a number changes nothing; a second one spoils it.
pub proof fn law_a_plus_sign_is_passed_over(s: Seq<char>, max: nat)
    ensures
        s.len() == 0 || s[0] != '+' ==> parsed_number(seq!['+'] + s, max) == parsed_number(s, max),
        s.len() > 0 && s[0] == '+' ==> parsed_number(seq!['+'] + s, max) is None,
{
    let longer = seq!['+'] + s;
    assert(longer.skip(1) =~= s);
    assert(without_plus(longer) == s);
    if s.len() > 0 && s[0] == '+' {
        assert(!is_digit(s[0]));
    }
}

/// The pieces of a text hold no separator, and with a separator behind each of them they make up
/// the text and one separator more.
pub proof fn law_pieces_make_up_the_text(s: Seq<char>, sep: char)
    ensures
        split_on(s, sep).len() >= 1,
        split_on(s, sep).map_values(|piece: Seq<char>| piece.push(sep)).flatten() == s.push(sep),
        forall|i: int|
            0 <= i < split_on(s, sep).len() ==> !(#[trigger] split_on(s, sep)[i]).contains(sep),
    decreases s.len(),
{
    let ended = |piece: Seq<char>| piece.push(sep);
    let pieces = split_on(s, sep);
    let none = Seq::<char>::empty();
    if s.len() == 0 {
        assert(pieces.map_values(ended) =~= seq![none.push(sep)]);
        seq![none.push(sep)].lemma_flatten_one_element();
        assert(s.push(sep) =~= none.push(sep));
    } else {
        let front = split_on(s.drop_last(), sep);
        law_pieces_make_up_the_text(s.drop_last(), sep);
        let all = front.map_values(ended);
        assert(s.drop_last().push(s.last()) =~= s);
        if s.last() == sep {
            assert(pieces.map_values(ended) =~= all.push(none.push(sep)));
            all.lemma_flatten_push(none.push(sep));
            assert(s.push(sep) =~= s.drop_last().push(sep) + none.push(sep));
            assert forall|i: int| 0 <= i < pieces.len() implies !(
            #[trigger] pieces[i]).contains(sep) by {
                if i < front.len() {
                    assert(pieces[i] == front[i]);
                }
            }
        } else {
            let first = front.drop_last().map_values(ended);
            let last = front.last();
            assert(all =~= first.push(last.push(sep)));
            first.lemma_flatten_push(last.push(sep));
            let longer = last.push(s.last());
            assert(pieces.map_values(ended) =~= first.push(longer.push(sep)));
            first.lemma_flatten_push(longer.push(sep));
            assert((first.flatten() + last.push(sep)).drop_last() =~= first.flatten() + last);
            assert(s.drop_last().push(sep).drop_last() =~= s.drop_last());
            assert(s.push(sep) =~= first.flatten() + longer.push(sep));
            assert forall|i: int| 0 <= i < pieces.len() implies !(
            #[trigger] pieces[i]).contains(sep) by {
                if i < front.len() - 1 {
                    assert(pieces[i] == front[i]);
                } else {
                    assert(!front[front.len() - 1].contains(sep));
                    assert forall|k: int| 0 <= k < longer.len() implies longer[k] != sep by {
                        if k < last.len() {
                            assert(last[k] == longer[k]);
                        }
                    }
                }
            }
        }
    }
}

/// Blanks, tabs, line ends, form feeds and the white space beyond ASCII are white space; no other
/// character is.
pub proof fn law_what_white_space_is(c: char)
    ensures
        is_space(c) <==> {
            ||| c == ' '
            ||| c == '\t'
            ||| c == '\n'
            ||| c == '\u{b}'
            ||| c == '\u{c}'
            ||| c == '\r'
            ||| c == '\u{85}'
            ||| c == '\u{a0}'
            ||| c == '\u{1680}'
            ||| '\u{2000}' <= c <= '\u{200a}'
            ||| c == '\u{2028}'
            ||| c == '\u{2029}'
            ||| c == '\u{202f}'
            ||| c == '\u{205f}'
            ||| c == '\u{3000}'
        },
{
}

/// Trimming removes white space only, and all of it at either end.
pub proof fn law_trimming(s: Seq<char>) -> (cut: (int, int))
    ensures
        0 <= cut.0 <= cut.1 <= s.len(),
        trimmed(s) == s.subrange(cut.0, cut.1),
        forall|i: int| 0 <= i < cut.0 || cut.1 <= i < s.len() ==> is_space(#[trigger] s[i]),
        cut.0 < cut.1 ==> !is_space(s[cut.0]) && !is_space(s[cut.1 - 1]),
{
    let a = lemma_trim_start(s);
    let rest = s.skip(a);
    let b = lemma_trim_end(rest);
    assert(rest.take(b) =~= s.subrange(a, a + b));
    assert forall|i: int| 0 <= i < a || a + b <= i < s.len() implies is_space(#[trigger] s[i]) by {
        if i >= a {
            assert(rest[i - a] == s[i]);
        }
    }
    if b > 0 {
        assert(rest[0] == s[a]);
        assert(rest[b - 1] == s[a + b - 1]);
    }
    (a, a + b)
}

proof fn lemma_trim_start(s: Seq<char>) -> (a: int)
    ensures
        0 <= a <= s.len(),
        trim_start(s) == s.skip(a),
        forall|i: int| 0 <= i < a ==> is_space(#[trigger] s[i]),
        a < s.len() ==> !is_space(s[a]),
    decreases s.len(),
{
    if s.len() > 0 && is_space(s[0]) {
        let rest = s.skip(1);
        let a = lemma_trim_start(rest);
        assert(rest.skip(a) =~= s.skip(a + 1));
        assert forall|i: int| 0 <= i < a + 1 implies is_space(#[trigger] s[i]) by {
            if i > 0 {
                assert(rest[i - 1] == s[i]);
            }
        }
        a + 1
    } else {
        assert(s.skip(0) =~= s);
        0
    }
}

proof fn lemma_trim_end(s: Seq<char>) -> (b: int)
    ensures
        0 <= b <= s.len(),
        trim_end(s) == s.take(b),
        forall|i: int| b <= i < s.len() ==> is_space(#[trigger] s[i]),
        b > 0 ==> !is_space(s[b - 1]),
    decreases s.len(),
{
    if s.len() > 0 && is_space(s.last()) {
        let rest = s.drop_last();
        let b = lemma_trim_end(rest);
        assert(rest.take(b) =~= s.take(b));
        assert forall|i: int| b <= i < s.len() implies is_space(#[trigger] s[i]) by {
            if i < rest.len() {
                assert(rest[i] == s[i]);
            }
        }
        b
    } else {
        assert(s.take(s.len() as int) =~= s);
        s.len() as int
    }
}

} // verus!
