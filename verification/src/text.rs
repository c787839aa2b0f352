//! Text as sequences of characters.
//!
//! The contracts of this crate speak of strings as `Seq<char>`. This module
//! gives the operations on them that the rest of the crate is written in:
//! trimming, splitting, searching, ordering, and decimal numbers.
use vstd::prelude::*;
use vstd::slice::slice_subrange;

verus! {

// ---------------------------------------------------------------------------
// Strings of std
// ---------------------------------------------------------------------------

/// `String::push` appends the given character to the end of the string.
pub assume_specification[ String::push ](s: &mut String, c: char)
    ensures
        final(s)@ == old(s)@.push(c),
;

/// What `String::from_utf8_lossy` makes of a run of bytes.
pub uninterp spec fn utf8_lossy(bytes: Seq<u8>) -> Seq<char>;

/// Calls `String::from_utf8_lossy`. Bytes that are valid UTF-8 are decoded. Of
/// other bytes the contract says that the same bytes give the same text, and that
/// each ASCII character of the text stands for a byte of the input: what takes
/// the place of invalid bytes is U+FFFD. Where it does so is left unsaid.
#[verifier::external_body]
pub(crate) fn decode_lossy(bytes: &[u8]) -> (s: String)
    ensures
        s@ == utf8_lossy(bytes@),
        vstd::utf8::valid_utf8(bytes@) ==> s@ == vstd::utf8::decode_utf8(bytes@),
        forall|i: int|
            0 <= i < s@.len() && (#[trigger] s@[i]) as u32 <= 0x7f ==> bytes@.contains(s@[i] as u8),
{
    String::from_utf8_lossy(bytes).into_owned()
}

/// What `str::to_lowercase` makes of a text.
pub uninterp spec fn unicode_lowercase(s: Seq<char>) -> Seq<char>;

/// Calls `str::to_lowercase`. ASCII text is mapped letter by letter; of other
/// text the contract only says that the same text gives the same result.
#[verifier::external_body]
pub(crate) fn to_lowercase(s: &str) -> (r: String)
    ensures
        r@ == unicode_lowercase(s@),
        all_ascii(s@) ==> r@ == s@.map_values(|c: char| ascii_lower(c)),
{
    s.to_lowercase()
}

/// The texts of a list of strings.
pub open spec fn texts(v: Seq<String>) -> Seq<Seq<char>> {
    v.map_values(|s: String| s@)
}

/// The characters of `s`, in order.
pub fn chars_of(s: &str) -> (v: Vec<char>)
    ensures
        v@ == s@,
{
    let mut v: Vec<char> = Vec::new();
    for c in it: s.chars()
        invariant
            v@ == it.seq().take(it.index() as int),
            it.seq() == s@,
    {
        v.push(c);
    }
    v
}

/// The string that holds the characters of `v`, in order.
pub fn string_of(v: &[char]) -> (s: String)
    ensures
        s@ == v@,
{
    let mut s = String::new();
    let mut i: usize = 0;
    while i < v.len()
        invariant
            i <= v@.len(),
            s@ == v@.take(i as int),
        decreases v@.len() - i,
    {
        s.push(v[i]);
        i += 1;
    }
    s
}

/// Whether two strings hold the same characters.
pub fn same(a: &str, b: &str) -> (r: bool)
    ensures
        r == (a@ == b@),
{
    let x = chars_of(a);
    let y = chars_of(b);
    same_chars(x.as_slice(), y.as_slice())
}

/// Whether two runs of characters are equal.
pub fn same_chars(a: &[char], b: &[char]) -> (r: bool)
    ensures
        r == (a@ == b@),
{
    if a.len() != b.len() {
        return false;
    }
    let mut i: usize = 0;
    while i < a.len()
        invariant
            a@.len() == b@.len(),
            i <= a@.len(),
            forall|j: int| 0 <= j < i ==> a@[j] == b@[j],
        decreases a@.len() - i,
    {
        if a[i] != b[i] {
            return false;
        }
        i += 1;
    }
    assert(a@ =~= b@);
    true
}

/// `a` followed by `b`.
pub fn cat(a: &str, b: &str) -> (r: String)
    ensures
        r@ == a@ + b@,
{
    let mut r = a.to_owned();
    r.append(b);
    r
}

/// `a`, `b` and `c` in a row.
pub fn cat3(a: &str, b: &str, c: &str) -> (r: String)
    ensures
        r@ == a@ + b@ + c@,
{
    let mut r = a.to_owned();
    r.append(b);
    r.append(c);
    r
}

/// `a`, `b`, `c` and `d` in a row.
pub fn cat4(a: &str, b: &str, c: &str, d: &str) -> (r: String)
    ensures
        r@ == a@ + b@ + c@ + d@,
{
    let mut r = cat3(a, b, c);
    r.append(d);
    r
}

/// `a`, `b`, `c`, `d` and `e` in a row.
pub fn cat5(a: &str, b: &str, c: &str, d: &str, e: &str) -> (r: String)
    ensures
        r@ == a@ + b@ + c@ + d@ + e@,
{
    let mut r = cat4(a, b, c, d);
    r.append(e);
    r
}

// ---------------------------------------------------------------------------
// Kinds of characters
// ---------------------------------------------------------------------------

/// The characters with the Unicode property `White_Space`.
pub open spec fn is_white(c: char) -> bool {
    let n = c as u32;
    ||| 0x09 <= n <= 0x0d
    ||| n == 0x20
    ||| n == 0x85
    ||| n == 0xa0
    ||| n == 0x1680
    ||| 0x2000 <= n <= 0x200a
    ||| n == 0x2028
    ||| n == 0x2029
    ||| n == 0x202f
    ||| n == 0x205f
    ||| n == 0x3000
}

/// ASCII white space: tab, line feed, form feed, carriage return and space.
pub open spec fn is_ascii_white(c: char) -> bool {
    c == '\t' || c == '\n' || c == '\x0c' || c == '\r' || c == ' '
}

/// The decimal digits of ASCII.
pub open spec fn is_digit(c: char) -> bool {
    '0' <= c <= '9'
}

/// The control characters of Unicode (general category `Cc`).
pub open spec fn is_control(c: char) -> bool {
    let n = c as u32;
    n <= 0x1f || 0x7f <= n <= 0x9f
}

/// Whether every character is below U+0080.
pub open spec fn all_ascii(s: Seq<char>) -> bool {
    forall|i: int| 0 <= i < s.len() ==> (#[trigger] s[i] as u32) < 0x80
}

/// `c`, or its lower case where it is a capital letter of ASCII.
pub open spec fn ascii_lower(c: char) -> char {
    if 'A' <= c <= 'Z' {
        ((c as u32) + 32) as char
    } else {
        c
    }
}

/// `c`, or its upper case where it is a small letter of ASCII.
pub open spec fn ascii_upper(c: char) -> char {
    if 'a' <= c <= 'z' {
        ((c as u32) - 32) as char
    } else {
        c
    }
}

/// Whether `c` is white space.
pub fn white(c: char) -> (r: bool)
    ensures
        r == is_white(c),
{
    let n: u32 = c as u32;
    (0x09 <= n && n <= 0x0d) || n == 0x20 || n == 0x85 || n == 0xa0 || n == 0x1680 || (0x2000 <= n
        && n <= 0x200a) || n == 0x2028 || n == 0x2029 || n == 0x202f || n == 0x205f || n == 0x3000
}

/// Whether `c` is ASCII white space.
pub fn ascii_white(c: char) -> (r: bool)
    ensures
        r == is_ascii_white(c),
{
    c == '\t' || c == '\n' || c == '\x0c' || c == '\r' || c == ' '
}

/// Whether `c` is a control character.
pub fn control(c: char) -> (r: bool)
    ensures
        r == is_control(c),
{
    let n: u32 = c as u32;
    n <= 0x1f || (0x7f <= n && n <= 0x9f)
}

/// The lower case of an ASCII letter; any other character as it is.
pub fn lower(c: char) -> (r: char)
    ensures
        r == ascii_lower(c),
{
    if 'A' <= c && c <= 'Z' {
        ((c as u8) + 32) as char
    } else {
        c
    }
}

/// The upper case of an ASCII letter; any other character as it is.
pub fn upper(c: char) -> (r: char)
    ensures
        r == ascii_upper(c),
{
    if 'a' <= c && c <= 'z' {
        ((c as u8) - 32) as char
    } else {
        c
    }
}

// ---------------------------------------------------------------------------
// Trimming
// ---------------------------------------------------------------------------

/// `s` without the white space at its start.
pub open spec fn trimmed_start(s: Seq<char>) -> Seq<char>
    decreases s.len(),
{
    if s.len() > 0 && is_white(s[0]) {
        trimmed_start(s.skip(1))
    } else {
        s
    }
}

/// `s` without the white space at its end.
pub open spec fn trimmed_end(s: Seq<char>) -> Seq<char>
    decreases s.len(),
{
    if s.len() > 0 && is_white(s.last()) {
        trimmed_end(s.drop_last())
    } else {
        s
    }
}

/// `s` without the white space at both ends.
pub open spec fn trimmed(s: Seq<char>) -> Seq<char> {
    trimmed_end(trimmed_start(s))
}

/// Drops the white space at the start.
pub fn trim_start(s: &[char]) -> (r: &[char])
    ensures
        r@ == trimmed_start(s@),
{
    let mut i: usize = 0;
    assert(s@.skip(0) =~= s@);
    while i < s.len() && white(s[i])
        invariant
            i <= s@.len(),
            trimmed_start(s@.skip(i as int)) == trimmed_start(s@),
        decreases s@.len() - i,
    {
        assert(s@.skip(i as int).skip(1) =~= s@.skip(i + 1));
        i += 1;
    }
    assert(s@.skip(i as int) =~= s@.subrange(i as int, s@.len() as int));
    slice_subrange(s, i, s.len())
}

/// Drops the white space at the end.
pub fn trim_end(s: &[char]) -> (r: &[char])
    ensures
        r@ == trimmed_end(s@),
{
    let mut n: usize = s.len();
    assert(s@.take(n as int) =~= s@);
    while n > 0 && white(s[n - 1])
        invariant
            n <= s@.len(),
            trimmed_end(s@.take(n as int)) == trimmed_end(s@),
        decreases n,
    {
        assert(s@.take(n as int).drop_last() =~= s@.take(n - 1));
        n -= 1;
    }
    assert(s@.take(n as int) =~= s@.subrange(0, n as int));
    slice_subrange(s, 0, n)
}

/// Drops the white space at both ends.
pub fn trim(s: &[char]) -> (r: &[char])
    ensures
        r@ == trimmed(s@),
{
    trim_end(trim_start(s))
}

/// Drops the white space at both ends of a string.
pub fn trim_str(s: &str) -> (r: String)
    ensures
        r@ == trimmed(s@),
{
    let v = chars_of(s);
    string_of(trim(v.as_slice()))
}

// ---------------------------------------------------------------------------
// Searching
// ---------------------------------------------------------------------------

/// The first place at or after `i` where `s` holds `c`, or the length of `s`.
pub open spec fn find_from(s: Seq<char>, c: char, i: int) -> int
    decreases s.len() - i,
{
    if i >= s.len() {
        s.len() as int
    } else if s[i] == c {
        i
    } else {
        find_from(s, c, i + 1)
    }
}

/// What is after the last `c`, or all of `s` where there is none.
pub open spec fn after_last(s: Seq<char>, c: char) -> Seq<char>
    decreases s.len(),
{
    if s.len() == 0 || s.last() == c {
        Seq::empty()
    } else {
        after_last(s.drop_last(), c).push(s.last())
    }
}

/// Whether `p` stands in `s` at place `i`.
pub open spec fn stands_at(s: Seq<char>, p: Seq<char>, i: int) -> bool {
    0 <= i && i + p.len() <= s.len() && s.subrange(i, i + p.len()) == p
}

/// Whether `s` begins with `p`.
pub open spec fn has_prefix(s: Seq<char>, p: Seq<char>) -> bool {
    stands_at(s, p, 0)
}

/// Whether `s` ends with `p`.
pub open spec fn has_suffix(s: Seq<char>, p: Seq<char>) -> bool {
    stands_at(s, p, s.len() - p.len())
}

/// Whether `p` stands somewhere in `s`.
pub open spec fn has_part(s: Seq<char>, p: Seq<char>) -> bool {
    exists|i: int| stands_at(s, p, i)
}

/// The first place at or after `i` where `p` stands in `s`, or the length of `s`.
pub open spec fn find_part(s: Seq<char>, p: Seq<char>, i: int) -> int
    decreases s.len() - i,
{
    if i >= s.len() {
        s.len() as int
    } else if stands_at(s, p, i) {
        i
    } else {
        find_part(s, p, i + 1)
    }
}

/// A search stays inside the text, and passes over no match.
pub proof fn lemma_find_from(s: Seq<char>, c: char, i: int)
    requires
        0 <= i <= s.len(),
    ensures
        i <= find_from(s, c, i) <= s.len(),
        find_from(s, c, i) < s.len() ==> s[find_from(s, c, i)] == c,
        forall|j: int| i <= j < find_from(s, c, i) ==> s[j] != c,
    decreases s.len() - i,
{
    if i < s.len() && s[i] != c {
        lemma_find_from(s, c, i + 1);
    }
}

/// The first place of `c` at or after `from`, or the length.
pub fn find(s: &[char], c: char, from: usize) -> (r: usize)
    requires
        from <= s@.len(),
    ensures
        r == find_from(s@, c, from as int),
        from <= r <= s@.len(),
{
    let mut i: usize = from;
    while i < s.len() && s[i] != c
        invariant
            from <= i <= s@.len(),
            find_from(s@, c, i as int) == find_from(s@, c, from as int),
        decreases s@.len() - i,
    {
        i += 1;
    }
    i
}

/// Whether `c` occurs in `s`.
pub fn has_char(s: &[char], c: char) -> (r: bool)
    ensures
        r == s@.contains(c),
{
    let i: usize = find(s, c, 0);
    proof {
        lemma_find_from(s@, c, 0);
    }
    i < s.len()
}

/// Where `p` stands in `s` at `i`.
pub fn part_at(s: &[char], p: &[char], i: usize) -> (r: bool)
    ensures
        r == stands_at(s@, p@, i as int),
{
    if i > s.len() || p.len() > s.len() - i {
        return false;
    }
    same_chars(slice_subrange(s, i, i + p.len()), p)
}

/// Whether the string begins with `p`.
pub fn starts_with(s: &[char], p: &str) -> (r: bool)
    ensures
        r == has_prefix(s@, p@),
{
    let q = chars_of(p);
    part_at(s, q.as_slice(), 0)
}

/// Whether the string ends with `p`.
pub fn ends_with(s: &[char], p: &str) -> (r: bool)
    ensures
        r == has_suffix(s@, p@),
{
    let q = chars_of(p);
    if q.len() > s.len() {
        return false;
    }
    part_at(s, q.as_slice(), s.len() - q.len())
}

/// The first place at or after `from` where `p` stands in `s`, or the length.
pub fn find_str(s: &[char], p: &[char], from: usize) -> (r: usize)
    requires
        from <= s@.len(),
    ensures
        r == find_part(s@, p@, from as int),
        from <= r <= s@.len(),
        r < s@.len() ==> stands_at(s@, p@, r as int),
        forall|j: int| from <= j < r ==> !stands_at(s@, p@, j),
{
    let mut i: usize = from;
    while i < s.len() && !part_at(s, p, i)
        invariant
            from <= i <= s@.len(),
            find_part(s@, p@, i as int) == find_part(s@, p@, from as int),
            forall|j: int| from <= j < i ==> !stands_at(s@, p@, j),
        decreases s@.len() - i,
    {
        i += 1;
    }
    i
}

/// Whether `p` stands somewhere in `s`.
pub fn contains(s: &[char], p: &str) -> (r: bool)
    ensures
        r == has_part(s@, p@),
{
    let q = chars_of(p);
    if q.len() == 0 {
        assert(stands_at(s@, p@, 0)) by {
            assert(s@.subrange(0, 0) =~= p@);
        }
        return true;
    }
    let i: usize = find_str(s, q.as_slice(), 0);
    proof {
        if has_part(s@, p@) {
            let j = choose|j: int| stands_at(s@, p@, j);
            assert(stands_at(s@, p@, j));
        }
    }
    i < s.len()
}

/// What is after the last `c`.
pub fn tail_after(s: &[char], c: char) -> (r: &[char])
    ensures
        r@ == after_last(s@, c),
{
    let mut i: usize = s.len();
    assert(s@.take(i as int) =~= s@);
    assert(s@.skip(i as int) =~= Seq::empty());
    while i > 0 && s[i - 1] != c
        invariant
            i <= s@.len(),
            after_last(s@, c) == after_last(s@.take(i as int), c) + s@.skip(i as int),
        decreases i,
    {
        let ghost t = s@.take(i as int);
        assert(t.drop_last() =~= s@.take(i - 1));
        assert(after_last(t.drop_last(), c).push(t.last()) + s@.skip(i as int)
            =~= after_last(t.drop_last(), c) + s@.skip(i - 1));
        i -= 1;
    }
    assert(after_last(s@.take(i as int), c) =~= Seq::empty());
    assert(s@.skip(i as int) =~= s@.subrange(i as int, s@.len() as int));
    slice_subrange(s, i, s.len())
}

// ---------------------------------------------------------------------------
// Splitting
// ---------------------------------------------------------------------------

/// The texts of a list of slices.
pub open spec fn slices(v: Seq<&[char]>) -> Seq<Seq<char>> {
    v.map_values(|s: &[char]| s@)
}

/// `s` without one carriage return at its end.
pub open spec fn without_cr(s: Seq<char>) -> Seq<char> {
    if s.len() > 0 && s.last() == '\r' {
        s.drop_last()
    } else {
        s
    }
}

/// The lines of `s`. A line ends at a line feed, or a carriage return and a
/// line feed; nothing after the last line ending is no line.
pub open spec fn lines_of(s: Seq<char>) -> Seq<Seq<char>>
    decreases s.len(),
{
    if s.len() == 0 {
        Seq::empty()
    } else {
        let i = find_from(s, '\n', 0);
        if i >= s.len() || i < 0 {
            seq![s]
        } else {
            seq![without_cr(s.take(i))] + lines_of(s.skip(i + 1))
        }
    }
}

/// The place of the first white space at or after `i`, or the length.
pub open spec fn word_end(s: Seq<char>, i: int) -> int
    decreases s.len() - i,
{
    if i >= s.len() {
        s.len() as int
    } else if is_white(s[i]) {
        i
    } else {
        word_end(s, i + 1)
    }
}

/// The longest runs of `s` without white space.
pub open spec fn words_of(s: Seq<char>) -> Seq<Seq<char>>
    decreases s.len(),
    via words_of_decreases
{
    let t = trimmed_start(s);
    if t.len() == 0 {
        Seq::empty()
    } else {
        let e = word_end(t, 0);
        seq![t.take(e)] + words_of(t.skip(e))
    }
}

#[via_fn]
proof fn words_of_decreases(s: Seq<char>) {
    lemma_trimmed_start(s);
    let t = trimmed_start(s);
    if t.len() > 0 {
        lemma_word_end(t, 0);
    }
}

/// A trimmed text is a suffix of the text that does not begin with white space.
pub proof fn lemma_trimmed_start(s: Seq<char>)
    ensures
        trimmed_start(s).len() <= s.len(),
        trimmed_start(s) == s.skip(s.len() - trimmed_start(s).len()),
        trimmed_start(s).len() > 0 ==> !is_white(trimmed_start(s)[0]),
        forall|i: int| 0 <= i < s.len() - trimmed_start(s).len() ==> is_white(s[i]),
    decreases s.len(),
{
    if s.len() > 0 && is_white(s[0]) {
        let r = s.skip(1);
        lemma_trimmed_start(r);
        let n = trimmed_start(r).len();
        assert(r.skip(r.len() - n) =~= s.skip(s.len() - n));
        assert forall|i: int| 0 <= i < s.len() - n implies is_white(s[i]) by {
            if i > 0 {
                assert(s[i] == r[i - 1]);
            }
        }
    } else {
        assert(s.skip(0) =~= s);
    }
}

/// A trimmed text is a prefix of the text that does not end in white space.
pub proof fn lemma_trimmed_end(s: Seq<char>)
    ensures
        trimmed_end(s).len() <= s.len(),
        trimmed_end(s) == s.take(trimmed_end(s).len() as int),
        trimmed_end(s).len() > 0 ==> !is_white(trimmed_end(s).last()),
        forall|i: int| trimmed_end(s).len() <= i < s.len() ==> is_white(s[i]),
    decreases s.len(),
{
    if s.len() > 0 && is_white(s.last()) {
        let r = s.drop_last();
        lemma_trimmed_end(r);
        let n = trimmed_end(r).len() as int;
        assert(r.take(n) =~= s.take(n));
        assert forall|i: int| n <= i < s.len() implies is_white(s[i]) by {
            if i < r.len() {
                assert(s[i] == r[i]);
            }
        }
    } else {
        assert(s.take(s.len() as int) =~= s);
    }
}

/// The end of a word is inside the text, past the word's first character.
pub proof fn lemma_word_end(s: Seq<char>, i: int)
    requires
        0 <= i <= s.len(),
    ensures
        i <= word_end(s, i) <= s.len(),
        i < s.len() && !is_white(s[i]) ==> i < word_end(s, i),
        forall|j: int| i <= j < word_end(s, i) ==> !is_white(s[j]),
        word_end(s, i) < s.len() ==> is_white(s[word_end(s, i)]),
    decreases s.len() - i,
{
    if i < s.len() && !is_white(s[i]) {
        lemma_word_end(s, i + 1);
    }
}

/// Splits a text into its lines.
pub fn lines(s: &str) -> (r: Vec<String>)
    ensures
        texts(r@) == lines_of(s@),
{
    let v = chars_of(s);
    let all = v.as_slice();
    let mut r: Vec<String> = Vec::new();
    let mut at: usize = 0;
    assert(all@.skip(0) =~= all@);
    assert(texts(r@) + lines_of(all@) =~= lines_of(all@));
    while at < all.len()
        invariant
            at <= all@.len(),
            all@ == s@,
            texts(r@) + lines_of(all@.skip(at as int)) == lines_of(s@),
        decreases all@.len() - at,
    {
        let ghost rest = all@.skip(at as int);
        let i: usize = find(all, '\n', at);
        proof {
            lemma_find_from(all@, '\n', at as int);
            lemma_find_from(rest, '\n', 0);
            lemma_find_skip(all@, '\n', at as int);
        }
        if i >= all.len() {
            let line = string_of(slice_subrange(all, at, all.len()));
            let ghost before = texts(r@);
            r.push(line);
            at = all.len();
            assert(line@ =~= rest);
            assert(texts(r@) =~= before.push(line@));
            assert(all@.skip(at as int) =~= Seq::empty());
            assert(texts(r@) + lines_of(all@.skip(at as int)) =~= before + seq![rest]);
        } else {
            let mut e: usize = i;
            if e > at && all[e - 1] == '\r' {
                e -= 1;
            }
            let line = string_of(slice_subrange(all, at, e));
            let ghost before = texts(r@);
            r.push(line);
            proof {
                let k = find_from(rest, '\n', 0);
                assert(rest.take(k) =~= all@.subrange(at as int, i as int));
                assert(line@ =~= without_cr(rest.take(k)));
                assert(rest.skip(k + 1) =~= all@.skip(i + 1));
                assert(texts(r@) =~= before.push(line@));
                assert(texts(r@) + lines_of(all@.skip(i + 1)) =~= before + (seq![line@]
                    + lines_of(rest.skip(k + 1))));
            }
            at = i + 1;
        }
    }
    assert(all@.skip(at as int) =~= Seq::empty());
    assert(texts(r@) + lines_of(all@.skip(at as int)) =~= texts(r@));
    r
}

/// Searching the rest of a text is searching the text from there on.
pub proof fn lemma_find_skip(s: Seq<char>, c: char, at: int)
    requires
        0 <= at <= s.len(),
    ensures
        find_from(s.skip(at), c, 0) == find_from(s, c, at) - at,
{
    lemma_find_skip_from(s, c, at, 0);
}

proof fn lemma_find_skip_from(s: Seq<char>, c: char, at: int, i: int)
    requires
        0 <= at,
        0 <= i,
        at + i <= s.len(),
    ensures
        find_from(s.skip(at), c, i) == find_from(s, c, at + i) - at,
    decreases s.len() - at - i,
{
    if at + i < s.len() && s[at + i] != c {
        lemma_find_skip_from(s, c, at, i + 1);
    }
}

/// Splits a text at white space.
pub fn words(s: &[char]) -> (r: Vec<&[char]>)
    ensures
        slices(r@) == words_of(s@),
{
    let mut r: Vec<&[char]> = Vec::new();
    let mut rest: &[char] = trim_start(s);
    proof {
        lemma_words_trimmed(s@);
        lemma_trimmed_twice(s@);
    }
    assert(slices(r@) + words_of(rest@) =~= words_of(s@));
    while rest.len() > 0
        invariant
            rest@ == trimmed_start(rest@),
            slices(r@) + words_of(rest@) == words_of(s@),
        decreases rest@.len(),
    {
        let mut e: usize = 0;
        while e < rest.len() && !white(rest[e])
            invariant
                e <= rest@.len(),
                word_end(rest@, e as int) == word_end(rest@, 0),
            decreases rest@.len() - e,
        {
            e += 1;
        }
        let w = slice_subrange(rest, 0, e);
        let ghost before = slices(r@);
        r.push(w);
        let next = trim_start(slice_subrange(rest, e, rest.len()));
        proof {
            lemma_trimmed_start(rest@);
            lemma_word_end(rest@, 0);
            assert(w@ =~= rest@.take(e as int));
            let after = rest@.skip(e as int);
            assert(after =~= rest@.subrange(e as int, rest@.len() as int));
            lemma_trimmed_start(after);
            lemma_words_trimmed(after);
            assert(slices(r@) =~= before.push(w@));
            assert(slices(r@) + words_of(after) =~= before + (seq![w@] + words_of(after)));
            lemma_trimmed_twice(after);
        }
        rest = next;
    }
    assert(trimmed_start(rest@).len() == 0);
    assert(slices(r@) + words_of(rest@) =~= slices(r@));
    r
}

/// Trimming a trimmed text changes nothing.
pub proof fn lemma_trimmed_twice(s: Seq<char>)
    ensures
        trimmed_start(trimmed_start(s)) == trimmed_start(s),
{
    lemma_trimmed_start(s);
}

/// White space at the start of a text does not change its words.
pub proof fn lemma_words_trimmed(s: Seq<char>)
    ensures
        words_of(trimmed_start(s)) == words_of(s),
{
    lemma_trimmed_twice(s);
}

/// The parts of `s` between occurrences of `c`; one more than there are such
/// occurrences.
pub open spec fn parts_of(s: Seq<char>, c: char) -> Seq<Seq<char>>
    decreases s.len(),
{
    let i = find_from(s, c, 0);
    if i >= s.len() || i < 0 {
        seq![s]
    } else {
        seq![s.take(i)] + parts_of(s.skip(i + 1), c)
    }
}

/// Splits a text at every `c`.
pub fn split_at_char(s: &[char], c: char) -> (r: Vec<&[char]>)
    ensures
        slices(r@) == parts_of(s@, c),
        r@.len() > 0,
{
    let mut r: Vec<&[char]> = Vec::new();
    let mut rest: &[char] = s;
    assert(slices(r@) + parts_of(rest@, c) =~= parts_of(s@, c));
    loop
        invariant_except_break
            slices(r@) + parts_of(rest@, c) == parts_of(s@, c),
        ensures
            slices(r@) == parts_of(s@, c),
            r@.len() > 0,
        decreases rest@.len(),
    {
        let i: usize = find(rest, c, 0);
        let ghost before = slices(r@);
        if i >= rest.len() {
            r.push(rest);
            assert(slices(r@) =~= before.push(rest@));
            assert(before + parts_of(rest@, c) =~= slices(r@));
            break ;
        }
        let part = slice_subrange(rest, 0, i);
        assert(part@ =~= rest@.take(i as int));
        let after = slice_subrange(rest, i + 1, rest.len());
        assert(after@ =~= rest@.skip(i + 1));
        r.push(part);
        assert(slices(r@) =~= before.push(part@));
        assert(slices(r@) + parts_of(after@, c) =~= before + (seq![part@] + parts_of(after@, c)));
        rest = after;
    }
    r
}

/// `s` with the capital letters of ASCII made small.
pub open spec fn ascii_lowered(s: Seq<char>) -> Seq<char> {
    s.map_values(|c: char| ascii_lower(c))
}

/// Makes the capital letters of ASCII small.
pub fn lower_ascii(s: &[char]) -> (r: Vec<char>)
    ensures
        r@ == ascii_lowered(s@),
{
    let mut r: Vec<char> = Vec::new();
    let mut i: usize = 0;
    while i < s.len()
        invariant
            i <= s@.len(),
            r@ == ascii_lowered(s@).take(i as int),
        decreases s@.len() - i,
    {
        r.push(lower(s[i]));
        i += 1;
        assert(r@ =~= ascii_lowered(s@).take(i as int));
    }
    assert(r@ =~= ascii_lowered(s@));
    r
}

/// Whether a run of characters is the given string.
pub fn is_str(s: &[char], t: &str) -> (r: bool)
    ensures
        r == (s@ == t@),
{
    let q = chars_of(t);
    same_chars(s, q.as_slice())
}

// ---------------------------------------------------------------------------
// Order
// ---------------------------------------------------------------------------

/// Whether `a` comes before `b` in the order of their code points, which is
/// also the order of their UTF-8 bytes.
pub open spec fn precedes(a: Seq<char>, b: Seq<char>) -> bool
    decreases a.len(),
{
    if b.len() == 0 {
        false
    } else if a.len() == 0 {
        true
    } else if a[0] != b[0] {
        a[0] < b[0]
    } else {
        precedes(a.skip(1), b.skip(1))
    }
}

/// No text precedes itself, and of two different texts one precedes the other.
pub proof fn lemma_precedes_total(a: Seq<char>, b: Seq<char>)
    ensures
        !(precedes(a, b) && precedes(b, a)),
        a == b || precedes(a, b) || precedes(b, a),
        !precedes(a, a),
    decreases a.len(),
{
    if a.len() > 0 {
        lemma_precedes_total(a.skip(1), a.skip(1));
    }
    if a.len() > 0 && b.len() > 0 && a[0] == b[0] {
        lemma_precedes_total(a.skip(1), b.skip(1));
        if a.skip(1) == b.skip(1) {
            assert(a =~= seq![a[0]] + a.skip(1));
            assert(b =~= seq![b[0]] + b.skip(1));
        }
    }
    if a.len() == 0 && b.len() == 0 {
        assert(a =~= b);
    }
}

/// Precedence is transitive.
pub proof fn lemma_precedes_trans(a: Seq<char>, b: Seq<char>, c: Seq<char>)
    requires
        precedes(a, b),
        precedes(b, c),
    ensures
        precedes(a, c),
    decreases a.len(),
{
    if a.len() > 0 && a[0] == b[0] && b[0] == c[0] {
        lemma_precedes_trans(a.skip(1), b.skip(1), c.skip(1));
    }
}

/// Whether `a` comes before `b`.
pub fn less(a: &str, b: &str) -> (r: bool)
    ensures
        r == precedes(a@, b@),
{
    let x = chars_of(a);
    let y = chars_of(b);
    let mut i: usize = 0;
    assert(a@.skip(0) =~= a@);
    assert(b@.skip(0) =~= b@);
    while i < x.len() && i < y.len() && x[i] == y[i]
        invariant
            x@ == a@,
            y@ == b@,
            i <= x@.len(),
            i <= y@.len(),
            precedes(a@.skip(i as int), b@.skip(i as int)) == precedes(a@, b@),
        decreases x@.len() - i,
    {
        assert(a@.skip(i as int).skip(1) =~= a@.skip(i + 1));
        assert(b@.skip(i as int).skip(1) =~= b@.skip(i + 1));
        i += 1;
    }
    if i >= y.len() {
        false
    } else if i >= x.len() {
        true
    } else {
        x[i] < y[i]
    }
}

// ---------------------------------------------------------------------------
// Decimal numbers
// ---------------------------------------------------------------------------

/// The character of a digit; `'9'` stands for everything from nine on.
pub open spec fn digit_char(d: nat) -> char {
    if d == 0 {
        '0'
    } else if d == 1 {
        '1'
    } else if d == 2 {
        '2'
    } else if d == 3 {
        '3'
    } else if d == 4 {
        '4'
    } else if d == 5 {
        '5'
    } else if d == 6 {
        '6'
    } else if d == 7 {
        '7'
    } else if d == 8 {
        '8'
    } else {
        '9'
    }
}

/// The decimal notation of `n`.
pub open spec fn decimal(n: nat) -> Seq<char>
    decreases n,
{
    if n < 10 {
        seq![digit_char(n)]
    } else {
        decimal(n / 10).push(digit_char(n % 10))
    }
}

/// `s` with as many zeros in front as it takes to be `width` characters long.
pub open spec fn zero_padded(s: Seq<char>, width: nat) -> Seq<char> {
    if s.len() >= width {
        s
    } else {
        Seq::new((width - s.len()) as nat, |i: int| '0') + s
    }
}

/// The value of a run of digits.
pub open spec fn digits_value(s: Seq<char>) -> nat
    decreases s.len(),
{
    if s.len() == 0 {
        0
    } else {
        digits_value(s.drop_last()) * 10 + (s.last() as u32 - '0' as u32) as nat
    }
}

/// Whether every character of `s` is a digit.
pub open spec fn all_digits(s: Seq<char>) -> bool {
    forall|i: int| 0 <= i < s.len() ==> is_digit(#[trigger] s[i])
}

/// The number that `s` denotes: digits, with an optional plus sign in front.
/// Nothing else denotes a number, nor do digits whose value is above `max`.
pub open spec fn number_of(s: Seq<char>, max: nat) -> Option<nat> {
    let t = if s.len() > 0 && s[0] == '+' {
        s.skip(1)
    } else {
        s
    };
    if t.len() > 0 && all_digits(t) && digits_value(t) <= max {
        Some(digits_value(t))
    } else {
        None
    }
}

/// More digits never denote less.
proof fn lemma_digits_grow(s: Seq<char>, n: int)
    requires
        0 <= n <= s.len(),
        all_digits(s),
    ensures
        digits_value(s.take(n)) <= digits_value(s),
    decreases s.len(),
{
    if n == s.len() {
        assert(s.take(n) =~= s);
    } else {
        lemma_digits_grow(s.drop_last(), n);
        assert(s.drop_last().take(n) =~= s.take(n));
    }
}

/// Reads a number of at most `max`.
pub fn parse_number(s: &[char], max: u64) -> (r: Option<u64>)
    ensures
        match r {
            Some(v) => number_of(s@, max as nat) == Some(v as nat),
            None => number_of(s@, max as nat) is None,
        },
{
    let mut i: usize = if s.len() > 0 && s[0] == '+' {
        1
    } else {
        0
    };
    let ghost t = if s@.len() > 0 && s@[0] == '+' {
        s@.skip(1)
    } else {
        s@
    };
    let ghost off = i as int;
    assert(t =~= s@.skip(off));
    if i >= s.len() {
        return None;
    }
    let mut v: u64 = 0;
    assert(t.take(0) =~= Seq::empty());
    while i < s.len()
        invariant
            off <= i <= s@.len(),
            t == s@.skip(off),
            0 <= off <= 1,
            forall|j: int| 0 <= j < i - off ==> is_digit(#[trigger] t[j]),
            v == digits_value(t.take(i - off)),
            v <= max,
            number_of(s@, max as nat) == if t.len() > 0 && all_digits(t) && digits_value(t)
                <= max as nat {
                Some(digits_value(t))
            } else {
                None::<nat>
            },
        decreases s@.len() - i,
    {
        let c = s[i];
        assert(c == t[i - off]);
        if !('0' <= c && c <= '9') {
            assert(!all_digits(t));
            return None;
        }
        let d: u64 = (c as u32 - '0' as u32) as u64;
        let ghost next = t.take(i - off + 1);
        assert(next.drop_last() =~= t.take(i - off));
        assert(digits_value(next) == v as nat * 10 + d as nat);
        if d > max || v > (max - d) / 10 {
            proof {
                if all_digits(t) {
                    lemma_digits_grow(t, i - off + 1);
                    assert(digits_value(next) > max);
                }
            }
            return None;
        }
        v = v * 10 + d;
        i += 1;
    }
    assert(t.take(i - off) =~= t);
    Some(v)
}

/// Writes `n` in decimal.
pub fn decimal_of(n: u64) -> (r: String)
    ensures
        r@ == decimal(n as nat),
    decreases n,
{
    let mut r = if n < 10 {
        String::new()
    } else {
        decimal_of(n / 10)
    };
    r.push(digit(n % 10));
    assert(r@ =~= decimal(n as nat));
    r
}

fn digit(d: u64) -> (c: char)
    ensures
        c == digit_char(d as nat),
{
    if d == 0 {
        '0'
    } else if d == 1 {
        '1'
    } else if d == 2 {
        '2'
    } else if d == 3 {
        '3'
    } else if d == 4 {
        '4'
    } else if d == 5 {
        '5'
    } else if d == 6 {
        '6'
    } else if d == 7 {
        '7'
    } else if d == 8 {
        '8'
    } else {
        '9'
    }
}

/// Writes `n` in decimal with at least `width` digits.
pub fn decimal_padded(n: u64, width: usize) -> (r: String)
    ensures
        r@ == zero_padded(decimal(n as nat), width as nat),
{
    let d = decimal_of(n);
    let v = chars_of(d.as_str());
    if v.len() >= width {
        return d;
    }
    let mut r = String::new();
    let mut i: usize = 0;
    let k: usize = width - v.len();
    while i < k
        invariant
            i <= k,
            r@ == Seq::new(i as nat, |j: int| '0'),
        decreases k - i,
    {
        r.push('0');
        i += 1;
        assert(r@ =~= Seq::new(i as nat, |j: int| '0'));
    }
    r.append(d.as_str());
    r
}

/// The decimal notation of a number denotes that number.
pub proof fn law_decimal_reads_back(n: nat, max: nat)
    requires
        n <= max,
    ensures
        number_of(decimal(n), max) == Some(n),
{
    lemma_decimal(n);
    assert(is_digit(decimal(n)[0]));
}

/// Decimal notation consists of digits, and their value is the number.
pub proof fn lemma_decimal(n: nat)
    ensures
        decimal(n).len() > 0,
        all_digits(decimal(n)),
        digits_value(decimal(n)) == n,
    decreases n,
{
    reveal_with_fuel(digits_value, 2);
    if n < 10 {
        assert(decimal(n).drop_last() =~= Seq::empty());
    } else {
        lemma_decimal(n / 10);
        assert(decimal(n).drop_last() =~= decimal(n / 10));
    }
}

} // verus!
