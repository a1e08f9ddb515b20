//! Character-level text helpers used by the parsers of this crate.
use vstd::prelude::*;

verus! {

broadcast use vstd::string::group_string_axioms;

use vstd::string::StrSliceExecFns;

/// `String::push` appends one character to the end of the string.
pub assume_specification[ String::push ](s: &mut String, ch: char)
    ensures
        final(s)@ == old(s)@.push(ch),
;

/// `String::pop` removes and returns the last character, or returns `None`
/// and leaves the string alone when it is empty.
pub assume_specification[ String::pop ](s: &mut String) -> (r: Option<char>)
    ensures
        old(s)@.len() == 0 ==> r is None && final(s)@ == old(s)@,
        old(s)@.len() > 0 ==> r == Some(old(s)@.last()) && final(s)@ == old(s)@.drop_last(),
;

/// `String::clear` truncates the string to length zero.
pub assume_specification[ String::clear ](s: &mut String)
    ensures
        final(s)@ == Seq::<char>::empty(),
;

/// The characters of a string slice, in order.
pub fn chars_of(s: &str) -> (v: Vec<char>)
    ensures
        v@ == s@,
{
    let mut v: Vec<char> = Vec::new();
    for c in it: s.chars()
        invariant
            v@ == it.seq().take(it.index() as int),
    {
        v.push(c);
    }
    v
}

/// A `String` holding the given characters.
pub fn string_of(cs: &[char]) -> (s: String)
    ensures
        s@ == cs@,
{
    let mut s = String::new();
    let mut i: usize = 0;
    while i < cs.len()
        invariant
            i <= cs.len(),
            s@ == cs@.take(i as int),
        decreases cs.len() - i,
    {
        s.push(cs[i]);
        i = i + 1;
        assert(cs@.take(i as int) == cs@.take(i - 1).push(cs@[i - 1]));
    }
    assert(cs@.take(cs.len() as int) == cs@);
    s
}

/// Whether two string slices hold the same characters.
pub fn same_text(a: &str, b: &str) -> (r: bool)
    ensures
        r == (a@ == b@),
{
    let x = chars_of(a);
    let y = chars_of(b);
    if x.len() != y.len() {
        return false;
    }
    let mut i: usize = 0;
    while i < x.len()
        invariant
            x@ == a@,
            y@ == b@,
            x.len() == y.len(),
            i <= x.len(),
            forall|k: int| 0 <= k < i ==> x@[k] == y@[k],
        decreases x.len() - i,
    {
        if x[i] != y[i] {
            return false;
        }
        i = i + 1;
    }
    assert(x@ =~= y@);
    true
}

/// Index of the first `c` at or after `i`, or the length when there is none.
pub open spec fn index_of_from(s: Seq<char>, c: char, i: int) -> int
    decreases s.len() - i,
{
    if i >= s.len() {
        s.len() as int
    } else if s[i] == c {
        i
    } else {
        index_of_from(s, c, i + 1)
    }
}

/// Lemma: the search result lies between the start and the length, nothing
/// before it is `c`, and it is `c` unless it is the length.
pub proof fn lemma_index_of_from(s: Seq<char>, c: char, i: int)
    requires
        0 <= i <= s.len(),
    ensures
        i <= index_of_from(s, c, i) <= s.len(),
        index_of_from(s, c, i) < s.len() ==> s[index_of_from(s, c, i)] == c,
        forall|k: int| i <= k < index_of_from(s, c, i) ==> s[k] != c,
    decreases s.len() - i,
{
    if i < s.len() && s[i] != c {
        lemma_index_of_from(s, c, i + 1);
    }
}

/// The pieces of `s` from position `i` on, cut at every `c` (as `str::split` does).
pub open spec fn split_from(s: Seq<char>, c: char, i: int) -> Seq<Seq<char>>
    decreases s.len() - i,
{
    if i < 0 || i > s.len() {
        Seq::empty()
    } else {
        let j = index_of_from(s, c, i);
        proof {
            lemma_index_of_from(s, c, i);
        }
        if j >= s.len() {
            seq![s.subrange(i, s.len() as int)]
        } else {
            seq![s.subrange(i, j)] + split_from(s, c, j + 1)
        }
    }
}

/// The pieces of `s` cut at every `c`; there is always at least one.
pub open spec fn split_on(s: Seq<char>, c: char) -> Seq<Seq<char>> {
    split_from(s, c, 0)
}

/// The contents of a vector of character vectors.
pub open spec fn views(v: Seq<Vec<char>>) -> Seq<Seq<char>> {
    v.map_values(|x: Vec<char>| x@)
}

/// Index of the first `c` in `s` at or after `from`, or the length.
pub fn find_char(s: &[char], c: char, from: usize) -> (j: usize)
    requires
        from <= s.len(),
    ensures
        j as int == index_of_from(s@, c, from as int),
{
    let mut j = from;
    while j < s.len() && s[j] != c
        invariant
            from <= j <= s.len(),
            index_of_from(s@, c, from as int) == index_of_from(s@, c, j as int),
        decreases s.len() - j,
    {
        j = j + 1;
    }
    j
}

/// The characters of `s` from `a` up to `b`.
pub fn slice_chars(s: &[char], a: usize, b: usize) -> (v: Vec<char>)
    requires
        a <= b <= s.len(),
    ensures
        v@ == s@.subrange(a as int, b as int),
{
    let mut v: Vec<char> = Vec::new();
    let mut k = a;
    while k < b
        invariant
            a <= k <= b,
            b <= s.len(),
            v@ == s@.subrange(a as int, k as int),
        decreases b - k,
    {
        v.push(s[k]);
        k = k + 1;
    }
    v
}

/// `s` cut at every `c`, as `str::split` does.
pub fn split_chars(s: &[char], c: char) -> (parts: Vec<Vec<char>>)
    ensures
        views(parts@) == split_on(s@, c),
{
    let mut parts: Vec<Vec<char>> = Vec::new();
    let mut start: usize = 0;
    loop
        invariant
            start <= s.len(),
            split_on(s@, c) == views(parts@) + split_from(s@, c, start as int),
        decreases s.len() - start,
    {
        let j = find_char(s, c, start);
        proof {
            lemma_index_of_from(s@, c, start as int);
        }
        let piece = slice_chars(s, start, j);
        let ghost before = views(parts@);
        parts.push(piece);
        assert(views(parts@) =~= before.push(s@.subrange(start as int, j as int)));
        if j >= s.len() {
            assert(split_from(s@, c, start as int) == seq![s@.subrange(start as int, s.len() as int)]);
            assert(before.push(s@.subrange(start as int, j as int)) =~= before + seq![s@.subrange(start as int, s.len() as int)]);
            return parts;
        }
        assert(split_from(s@, c, start as int) == seq![s@.subrange(start as int, j as int)] + split_from(s@, c, j + 1));
        assert(before + (seq![s@.subrange(start as int, j as int)] + split_from(s@, c, j + 1))
            =~= before.push(s@.subrange(start as int, j as int)) + split_from(s@, c, j + 1));
        start = j + 1;
    }
}

/// Whether two character vectors are equal.
pub fn same_chars(a: &[char], b: &[char]) -> (r: bool)
    ensures
        r == (a@ == b@),
{
    if a.len() != b.len() {
        return false;
    }
    let mut i: usize = 0;
    while i < a.len()
        invariant
            a.len() == b.len(),
            i <= a.len(),
            forall|k: int| 0 <= k < i ==> a@[k] == b@[k],
        decreases a.len() - i,
    {
        if a[i] != b[i] {
            return false;
        }
        i = i + 1;
    }
    assert(a@ =~= b@);
    true
}

/// Whether a character has the Unicode `White_Space` property, which is
/// what `char::is_whitespace` tests.
pub open spec fn is_ws(c: char) -> bool {
    let u = c as u32;
    (0x09 <= u <= 0x0D) || u == 0x20 || u == 0x85 || u == 0xA0 || u == 0x1680
        || (0x2000 <= u <= 0x200A) || u == 0x2028 || u == 0x2029 || u == 0x202F
        || u == 0x205F || u == 0x3000
}

/// `is_ws`, computed.
pub fn char_is_ws(c: char) -> (r: bool)
    ensures
        r == is_ws(c),
{
    let u = c as u32;
    (0x09 <= u && u <= 0x0D) || u == 0x20 || u == 0x85 || u == 0xA0 || u == 0x1680
        || (0x2000 <= u && u <= 0x200A) || u == 0x2028 || u == 0x2029 || u == 0x202F
        || u == 0x205F || u == 0x3000
}

/// The first position at or after `i` that is not whitespace.
pub open spec fn skip_ws(s: Seq<char>, i: int) -> int
    decreases s.len() - i,
{
    if 0 <= i < s.len() && is_ws(s[i]) {
        skip_ws(s, i + 1)
    } else {
        i
    }
}

/// The first position at or after `i` that is whitespace (or the length).
pub open spec fn word_end(s: Seq<char>, i: int) -> int
    decreases s.len() - i,
{
    if 0 <= i < s.len() && !is_ws(s[i]) {
        word_end(s, i + 1)
    } else {
        i
    }
}

/// Lemma: skipping moves forward and stops at non-whitespace or the end.
pub proof fn lemma_skip_ws(s: Seq<char>, i: int)
    requires
        0 <= i <= s.len(),
    ensures
        i <= skip_ws(s, i) <= s.len(),
        skip_ws(s, i) < s.len() ==> !is_ws(s[skip_ws(s, i)]),
    decreases s.len() - i,
{
    if 0 <= i < s.len() && is_ws(s[i]) {
        lemma_skip_ws(s, i + 1);
    }
}

/// Lemma: a word ends after it starts and no later than the end.
pub proof fn lemma_word_end(s: Seq<char>, i: int)
    requires
        0 <= i <= s.len(),
    ensures
        i <= word_end(s, i) <= s.len(),
        i < s.len() && !is_ws(s[i]) ==> i < word_end(s, i),
    decreases s.len() - i,
{
    if 0 <= i < s.len() && !is_ws(s[i]) {
        lemma_word_end(s, i + 1);
    }
}

/// The `n`-th whitespace-separated word of `s` from position `i` on, counting
/// from 0, as `str::split_whitespace().nth(n)` gives it.
pub open spec fn nth_word_from(s: Seq<char>, i: int, n: nat) -> Option<Seq<char>>
    decreases s.len() - i,
{
    if i < 0 || i > s.len() {
        None
    } else {
        let a = skip_ws(s, i);
        proof {
            lemma_skip_ws(s, i);
        }
        if a >= s.len() {
            None
        } else {
            let b = word_end(s, a);
            proof {
                lemma_word_end(s, a);
            }
            if n == 0 {
                Some(s.subrange(a, b))
            } else {
                nth_word_from(s, b, (n - 1) as nat)
            }
        }
    }
}

/// The `n`-th whitespace-separated word of `s`, counting from 0.
pub fn nth_word(s: &[char], n: usize) -> (r: Option<Vec<char>>)
    ensures
        match nth_word_from(s@, 0, n as nat) {
            Some(w) => r is Some && r->0@ == w,
            None => r is None,
        },
{
    let mut i: usize = 0;
    let mut left: usize = n;
    loop
        invariant
            i <= s.len(),
            left <= n,
            nth_word_from(s@, 0, n as nat) == nth_word_from(s@, i as int, left as nat),
        decreases s.len() - i,
    {
        let ghost i0 = i;
        while i < s.len() && char_is_ws(s[i])
            invariant
                i0 <= i <= s.len(),
                skip_ws(s@, i0 as int) == skip_ws(s@, i as int),
            decreases s.len() - i,
        {
            i = i + 1;
        }
        proof {
            lemma_skip_ws(s@, i0 as int);
        }
        if i >= s.len() {
            return None;
        }
        let a = i;
        while i < s.len() && !char_is_ws(s[i])
            invariant
                a <= i <= s.len(),
                word_end(s@, a as int) == word_end(s@, i as int),
            decreases s.len() - i,
        {
            i = i + 1;
        }
        proof {
            lemma_word_end(s@, a as int);
        }
        if left == 0 {
            return Some(slice_chars(s, a, i));
        }
        left = left - 1;
    }
}

/// The first line of `s` as `str::lines().next()` gives it: `None` for an
/// empty string, else the text before the first `\n`, without a `\r` that
/// ends it.
pub open spec fn first_line(s: Seq<char>) -> Option<Seq<char>> {
    if s.len() == 0 {
        None
    } else {
        let j = index_of_from(s, '\n', 0);
        let l = s.take(j);
        if j < s.len() && l.len() > 0 && l.last() == '\r' {
            Some(l.drop_last())
        } else {
            Some(l)
        }
    }
}

/// `first_line`, computed.
pub fn first_line_of(s: &[char]) -> (r: Option<Vec<char>>)
    ensures
        match first_line(s@) {
            Some(l) => r is Some && r->0@ == l,
            None => r is None,
        },
{
    if s.len() == 0 {
        return None;
    }
    let j = find_char(s, '\n', 0);
    proof {
        lemma_index_of_from(s@, '\n', 0);
    }
    if j < s.len() && j > 0 && s[j - 1] == '\r' {
        Some(slice_chars(s, 0, j - 1))
    } else {
        Some(slice_chars(s, 0, j))
    }
}

/// The decimal digit character for `d` in `0..10`.
pub open spec fn digit_char(d: int) -> char {
    (48 + d) as char
}

/// The decimal text of a number, without leading zeros.
pub open spec fn decimal(n: nat) -> Seq<char>
    decreases n,
{
    if n < 10 {
        seq![digit_char(n as int)]
    } else {
        decimal(n / 10).push(digit_char((n % 10) as int))
    }
}

fn digit(d: u64) -> (c: char)
    requires
        d < 10,
    ensures
        c == digit_char(d as int),
{
    let b: u8 = 48u8 + d as u8;
    b as char
}

/// The decimal text of a number.
pub fn decimal_string(n: u64) -> (s: String)
    ensures
        s@ == decimal(n as nat),
    decreases n,
{
    if n < 10 {
        let mut s = String::new();
        s.push(digit(n));
        s
    } else {
        let mut s = decimal_string(n / 10);
        s.push(digit(n % 10));
        s
    }
}

/// A lower-case hex digit.
pub open spec fn lower_hex_digit(d: int) -> char {
    if d < 10 {
        (48 + d) as char
    } else {
        (87 + d) as char
    }
}

/// Each byte as two lower-case hex digits, as `format!("{:02x}", b)` writes it.
pub open spec fn hex_lower(bytes: Seq<u8>) -> Seq<char>
    decreases bytes.len(),
{
    if bytes.len() == 0 {
        Seq::empty()
    } else {
        let b = bytes.last();
        hex_lower(bytes.drop_last()) + seq![lower_hex_digit(b as int / 16), lower_hex_digit(b as int % 16)]
    }
}

fn hex_digit(d: u8) -> (c: char)
    requires
        d < 16,
    ensures
        c == lower_hex_digit(d as int),
{
    if d < 10 {
        (48u8 + d) as char
    } else {
        (87u8 + d) as char
    }
}

/// `hex_lower`, computed.
pub fn hex_string(bytes: &[u8]) -> (s: String)
    ensures
        s@ == hex_lower(bytes@),
{
    let mut s = String::new();
    let mut i: usize = 0;
    while i < bytes.len()
        invariant
            i <= bytes.len(),
            s@ == hex_lower(bytes@.take(i as int)),
        decreases bytes.len() - i,
    {
        let b = bytes[i];
        s.push(hex_digit(b / 16));
        s.push(hex_digit(b % 16));
        assert(bytes@.take(i + 1).drop_last() =~= bytes@.take(i as int));
        i = i + 1;
    }
    assert(bytes@.take(bytes.len() as int) =~= bytes@);
    s
}

/// Whether some text starts with another.
pub fn starts_with_text(s: &str, prefix: &str) -> (r: bool)
    ensures
        r == (prefix@.len() <= s@.len() && s@.take(prefix@.len() as int) == prefix@),
{
    let a = chars_of(s);
    let b = chars_of(prefix);
    if b.len() > a.len() {
        return false;
    }
    let mut i: usize = 0;
    while i < b.len()
        invariant
            a@ == s@,
            b@ == prefix@,
            b.len() <= a.len(),
            i <= b.len(),
            forall|k: int| 0 <= k < i ==> a@[k] == b@[k],
        decreases b.len() - i,
    {
        if a[i] != b[i] {
            assert(s@.take(prefix@.len() as int)[i as int] != prefix@[i as int]);
            return false;
        }
        i = i + 1;
    }
    assert(s@.take(prefix@.len() as int) =~= prefix@);
    true
}

/// Whether some text ends with another.
pub fn ends_with_text(s: &str, suffix: &str) -> (r: bool)
    ensures
        r == (suffix@.len() <= s@.len() && s@.skip(s@.len() - suffix@.len()) == suffix@),
{
    let a = chars_of(s);
    let b = chars_of(suffix);
    if b.len() > a.len() {
        return false;
    }
    let off = a.len() - b.len();
    let mut i: usize = 0;
    while i < b.len()
        invariant
            a@ == s@,
            b@ == suffix@,
            b.len() <= a.len(),
            off == a.len() - b.len(),
            i <= b.len(),
            forall|k: int| 0 <= k < i ==> a@[off + k] == b@[k],
        decreases b.len() - i,
    {
        if a[off + i] != b[i] {
            assert(s@.skip(s@.len() - suffix@.len())[i as int] != suffix@[i as int]);
            return false;
        }
        i = i + 1;
    }
    assert(s@.skip(s@.len() - suffix@.len()) =~= suffix@);
    true
}

/// The text after a prefix, if the text starts with it.
pub open spec fn after_prefix(s: Seq<char>, prefix: Seq<char>) -> Option<Seq<char>> {
    if prefix.len() <= s.len() && s.take(prefix.len() as int) == prefix {
        Some(s.skip(prefix.len() as int))
    } else {
        None
    }
}

/// The text after a prefix, as `str::strip_prefix` gives it.
pub fn strip_prefix_text<'a>(s: &'a str, prefix: &str) -> (r: Option<&'a str>)
    ensures
        match after_prefix(s@, prefix@) {
            Some(rest) => r is Some && r->0@ == rest,
            None => r is None,
        },
{
    if starts_with_text(s, prefix) {
        let n = s.unicode_len();
        let k = prefix.unicode_len();
        Some(s.substring_char(k, n))
    } else {
        None
    }
}

/// Whether `p` occurs in `s` at position `i`.
pub open spec fn occurs_at(s: Seq<char>, p: Seq<char>, i: int) -> bool {
    0 <= i && i + p.len() <= s.len() && s.subrange(i, i + p.len()) == p
}

/// Whether `p` occurs somewhere in `s`.
pub open spec fn contains_seq(s: Seq<char>, p: Seq<char>) -> bool {
    exists|i: int| #[trigger] occurs_at(s, p, i)
}

/// Whether one text occurs in another, as `str::contains` with a text pattern tells.
pub fn contains_text(s: &str, pattern: &str) -> (r: bool)
    ensures
        r == contains_seq(s@, pattern@),
{
    let a = chars_of(s);
    let b = chars_of(pattern);
    if b.len() > a.len() {
        assert forall|i: int| !#[trigger] occurs_at(s@, pattern@, i) by {}
        return false;
    }
    let mut i: usize = 0;
    while i <= a.len() - b.len()
        invariant
            a@ == s@,
            b@ == pattern@,
            b.len() <= a.len(),
            i <= a.len() - b.len() + 1,
            forall|k: int| 0 <= k < i ==> !#[trigger] occurs_at(s@, pattern@, k),
        decreases a.len() - b.len() + 1 - i,
    {
        let mut j: usize = 0;
        let mut same = true;
        while j < b.len()
            invariant
                a@ == s@,
                b@ == pattern@,
                i + b.len() <= a.len(),
                j <= b.len(),
                same == forall|k: int| 0 <= k < j ==> a@[i + k] == b@[k],
            decreases b.len() - j,
        {
            if a[i + j] != b[j] {
                same = false;
            }
            j = j + 1;
        }
        if same {
            assert(s@.subrange(i as int, i + pattern@.len()) =~= pattern@);
            assert(occurs_at(s@, pattern@, i as int));
            return true;
        }
        assert(!occurs_at(s@, pattern@, i as int)) by {
            let k = choose|k: int| 0 <= k < b.len() && a@[i + k] != b@[k];
            assert(s@.subrange(i as int, i + pattern@.len())[k] != pattern@[k]);
        }
        i = i + 1;
    }
    assert forall|k: int| !#[trigger] occurs_at(s@, pattern@, k) by {
        if 0 <= k < i {
        }
    }
    false
}

} // verus!
