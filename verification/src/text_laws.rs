//! What the functions on texts make of texts that were put together.
use vstd::prelude::*;
use crate::text;

verus! {

// ---------------------------------------------------------------------------
// Characters
// ---------------------------------------------------------------------------

/// Blanks, tabs and the ends of lines are white space; what is printed is not.
pub proof fn law_white_space_is_not_printed(c: char)
    ensures
        c == ' ' || c == '\t' || c == '\n' || c == '\r' ==> text::is_white(c)
            && text::is_ascii_white(c),
        '!' <= c <= '~' ==> !text::is_white(c) && !text::is_ascii_white(c),
        text::is_ascii_white(c) ==> text::is_white(c),
{
}

/// Control characters are those before the blank, DEL, and their counterparts behind
/// it. What is printed is none.
pub proof fn law_control_characters_are_not_printed(c: char)
    ensures
        (c as u32) < 0x80 ==> (text::is_control(c) <==> !(' ' <= c <= '~')),
        text::is_control('\x1b') && text::is_control('\n') && text::is_control('\x7f'),
        c as u32 >= 0xa0 ==> !text::is_control(c),
{
}

/// Small and capital letters of the alphabet go over into each other, in their order,
/// and no other character is changed.
pub proof fn law_letters_change_their_case(c: char, i: int)
    requires
        0 <= i < 26,
    ensures
        c as int == 'A' as int + i ==> text::ascii_lower(c) as int == 'a' as int + i,
        c as int == 'a' as int + i ==> text::ascii_upper(c) as int == 'A' as int + i,
        !('A' <= c <= 'Z') ==> text::ascii_lower(c) == c,
        !('a' <= c <= 'z') ==> text::ascii_upper(c) == c,
{
}

// ---------------------------------------------------------------------------
// Lines and parts
// ---------------------------------------------------------------------------

/// The first line of a text ends at its first line feed, and a carriage return in front
/// of that is not part of it. The lines of the rest follow. What is behind the last
/// line feed is a line, unless it is empty.
pub proof fn law_lines_end_at_line_feeds(line: Seq<char>, rest: Seq<char>)
    requires
        !line.contains('\n'),
    ensures
        line.len() == 0 || line.last() != '\r' ==> text::lines_of(line.push('\n') + rest)
            == seq![line] + text::lines_of(rest),
        text::lines_of(line.push('\r').push('\n') + rest) == seq![line] + text::lines_of(rest),
        line.len() > 0 ==> text::lines_of(line) == seq![line],
        text::lines_of(Seq::empty()).len() == 0,
{
    let a = line.push('\n') + rest;
    lemma_find(a, '\n', line.len() as int, 0);
    assert(a.take(line.len() as int) =~= line);
    assert(a.skip(line.len() as int + 1) =~= rest);
    let b = line.push('\r').push('\n') + rest;
    assert(b.take(line.len() as int) =~= line);
    lemma_find_in(b, line);
    assert(b.take(line.len() as int + 1) =~= line.push('\r'));
    assert(line.push('\r').drop_last() =~= line);
    assert(b.skip(line.len() as int + 2) =~= rest);
    lemma_not_found(line, '\n', 0);
}

proof fn lemma_find_in(b: Seq<char>, line: Seq<char>)
    requires
        !line.contains('\n'),
        b.len() > line.len() + 1,
        b.take(line.len() as int) == line,
        b[line.len() as int] == '\r',
        b[line.len() as int + 1] == '\n',
    ensures
        text::find_from(b, '\n', 0) == line.len() + 1,
{
    assert forall|i: int| 0 <= i < line.len() + 1 implies #[trigger] b[i] != '\n' by {
        if i < line.len() {
            assert(b[i] == line[i]);
            assert(line.contains(line[i]));
        }
    }
    lemma_find_first(b, '\n', line.len() as int + 1, 0);
}

proof fn lemma_find(s: Seq<char>, c: char, n: int, i: int)
    requires
        0 <= i <= n < s.len(),
        s[n] == c,
        !s.take(n).contains(c),
    ensures
        text::find_from(s, c, i) == n,
{
    assert forall|j: int| 0 <= j < n implies #[trigger] s[j] != c by {
        assert(s.take(n)[j] == s[j]);
        assert(s.take(n).contains(s.take(n)[j]));
    }
    lemma_find_first(s, c, n, i);
}

proof fn lemma_find_first(s: Seq<char>, c: char, n: int, i: int)
    requires
        0 <= i <= n < s.len(),
        s[n] == c,
        forall|j: int| 0 <= j < n ==> #[trigger] s[j] != c,
    ensures
        text::find_from(s, c, i) == n,
    decreases n - i,
{
    if i < n {
        assert(s[i] != c);
        lemma_find_first(s, c, n, i + 1);
    }
}

proof fn lemma_not_found(s: Seq<char>, c: char, i: int)
    requires
        0 <= i <= s.len(),
        !s.contains(c),
    ensures
        text::find_from(s, c, i) == s.len(),
    decreases s.len() - i,
{
    if i < s.len() {
        assert(s.contains(s[i]));
        lemma_not_found(s, c, i + 1);
    }
}

/// A text is divided at every separator, and nothing of it is lost.
pub proof fn law_parts_lie_between_separators(part: Seq<char>, rest: Seq<char>, c: char)
    requires
        !part.contains(c),
    ensures
        text::parts_of(part.push(c) + rest, c) == seq![part] + text::parts_of(rest, c),
        text::parts_of(part, c) == seq![part],
{
    let a = part.push(c) + rest;
    assert(a.take(part.len() as int) =~= part);
    lemma_find(a, c, part.len() as int, 0);
    assert(a.skip(part.len() as int + 1) =~= rest);
    lemma_not_found(part, c, 0);
}

/// A text begins, ends and is found where its characters stand.
pub proof fn law_parts_are_found_where_they_stand(a: Seq<char>, p: Seq<char>, b: Seq<char>)
    ensures
        text::has_prefix(p + b, p),
        text::has_suffix(a + p, p),
        text::has_part(a + p + b, p),
        text::stands_at(a + p + b, p, a.len() as int),
{
    assert((p + b).subrange(0, p.len() as int) =~= p);
    let s = a + p;
    assert(s.subrange(s.len() - p.len(), s.len() as int) =~= p);
    let t = a + p + b;
    assert(t.subrange(a.len() as int, a.len() as int + p.len()) =~= p);
    assert(text::stands_at(t, p, a.len() as int));
}

/// A text begins and ends only with what it has at its ends.
pub proof fn law_ends_are_told_apart(s: Seq<char>, p: Seq<char>)
    ensures
        text::has_prefix(s, p) ==> p.len() <= s.len() && s.take(p.len() as int) == p,
        text::has_suffix(s, p) ==> p.len() <= s.len() && s.skip(s.len() - p.len()) == p,
{
    if text::has_prefix(s, p) {
        assert(s.take(p.len() as int) =~= s.subrange(0, p.len() as int));
    }
    if text::has_suffix(s, p) {
        assert(s.skip(s.len() - p.len()) =~= s.subrange(s.len() - p.len(), s.len() as int));
    }
}

// ---------------------------------------------------------------------------
// Numbers
// ---------------------------------------------------------------------------

/// A digit behind a number makes it ten times as large and adds the digit. A text with
/// anything but digits is no number, nor is one that is too large.
pub proof fn law_digits_count_in_tens(s: Seq<char>, d: nat, max: nat)
    requires
        s.len() > 0,
        text::all_digits(s),
        d < 10,
    ensures
        text::digit_char(d) as int == '0' as int + d,
        text::number_of(s.push(text::digit_char(d)), max) == (if 10 * text::digits_value(s) + d
            <= max {
            Some(10 * text::digits_value(s) + d)
        } else {
            None
        }),
        text::number_of(Seq::empty(), max) is None,
        forall|i: int, c: char|
            0 <= i < s.len() && !text::is_digit(c) && c != '+' ==> #[trigger] text::number_of(
                s.update(i, c),
                max,
            ) is None,
{
    let t = s.push(text::digit_char(d));
    assert(t.drop_last() =~= s);
    assert(text::is_digit(s[0]));
    assert forall|i: int| 0 <= i < t.len() implies text::is_digit(#[trigger] t[i]) by {
        if i < s.len() {
            assert(text::is_digit(s[i]));
        }
    }
    assert(t[0] == s[0]);
    assert forall|i: int, c: char|
        0 <= i < s.len() && !text::is_digit(c) && c != '+' implies #[trigger] text::number_of(
        s.update(i, c),
        max,
    ) is None by {
        let u = s.update(i, c);
        assert(!text::is_digit(u[i]));
        assert(u[0] != '+') by {
            if i != 0 {
                assert(u[0] == s[0]);
            }
        }
    }
}

/// A number that is filled up with zeros has at least its width, and zeros before its
/// digits.
pub proof fn law_zeros_fill_up(n: nat, width: nat)
    ensures
        ({
            let d = text::decimal(n);
            let z = text::zero_padded(d, width);
            &&& z.len() >= width
            &&& d.len() <= width ==> z.len() == width
            &&& z.skip(z.len() - d.len()) == d
            &&& forall|i: int| 0 <= i < z.len() - d.len() ==> #[trigger] z[i] == '0'
        }),
{
    let d = text::decimal(n);
    let z = text::zero_padded(d, width);
    assert(z.skip(z.len() - d.len()) =~= d);
}

} // verus!
