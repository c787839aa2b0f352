//! What a listing says of the lines and items that it was made from.
use vstd::prelude::*;
use crate::browser::parse;
use crate::browser::parse::{EntryView, ItemMeta};
use crate::text;

verus! {

// ---------------------------------------------------------------------------
// Words with space between them
// ---------------------------------------------------------------------------

/// Whether a text is not empty and holds no white space.
pub open spec fn is_word(w: Seq<char>) -> bool {
    w.len() > 0 && forall|i: int| 0 <= i < w.len() ==> !text::is_white(#[trigger] w[i])
}

/// Whether a text is white space of ASCII.
pub open spec fn is_gap(g: Seq<char>) -> bool {
    g.len() > 0 && forall|i: int| 0 <= i < g.len() ==> text::is_ascii_white(#[trigger] g[i])
}

/// Whether a text neither begins nor ends with white space, and is not empty.
pub open spec fn is_tight(s: Seq<char>) -> bool {
    s.len() > 0 && !text::is_white(s[0]) && !text::is_white(s.last())
}

/// The words with the gaps behind them, and the rest.
pub open spec fn spaced(words: Seq<Seq<char>>, gaps: Seq<Seq<char>>, rest: Seq<char>) -> Seq<char>
    decreases words.len(),
{
    if words.len() == 0 {
        rest
    } else {
        words[0] + gaps[0] + spaced(words.skip(1), gaps.skip(1), rest)
    }
}

/// Whether these are words, with a gap for each.
pub open spec fn are_spaced(words: Seq<Seq<char>>, gaps: Seq<Seq<char>>) -> bool {
    &&& gaps.len() == words.len()
    &&& forall|i: int| 0 <= i < words.len() ==> is_word(#[trigger] words[i])
    &&& forall|i: int| 0 <= i < gaps.len() ==> is_gap(#[trigger] gaps[i])
}

proof fn lemma_trim_gap(g: Seq<char>, s: Seq<char>)
    requires
        forall|i: int| 0 <= i < g.len() ==> text::is_white(#[trigger] g[i]),
        s.len() > 0 ==> !text::is_white(s[0]),
    ensures
        text::trimmed_start(g + s) == s,
    decreases g.len(),
{
    if g.len() == 0 {
        assert(g + s =~= s);
    } else {
        assert((g + s)[0] == g[0]);
        assert((g + s).skip(1) =~= g.skip(1) + s);
        assert forall|i: int| 0 <= i < g.skip(1).len() implies text::is_white(
            #[trigger] g.skip(1)[i],
        ) by {
            assert(g.skip(1)[i] == g[i + 1]);
        }
        lemma_trim_gap(g.skip(1), s);
    }
}

proof fn lemma_trim_end(s: Seq<char>, g: Seq<char>)
    requires
        forall|i: int| 0 <= i < g.len() ==> text::is_white(#[trigger] g[i]),
        s.len() > 0 ==> !text::is_white(s.last()),
    ensures
        text::trimmed_end(s + g) == s,
    decreases g.len(),
{
    if g.len() == 0 {
        assert(s + g =~= s);
    } else {
        assert((s + g).last() == g[g.len() - 1]);
        assert((s + g).drop_last() =~= s + g.drop_last());
        lemma_trim_end(s, g.drop_last());
    }
}

/// The end of a word is where white space begins.
proof fn lemma_word_end_at(s: Seq<char>, i: int, n: int)
    requires
        0 <= i <= n <= s.len(),
        forall|k: int| i <= k < n ==> !text::is_white(#[trigger] s[k]),
        n < s.len() ==> text::is_white(s[n]),
    ensures
        text::word_end(s, i) == n,
    decreases n - i,
{
    if i < n {
        assert(!text::is_white(s[i]));
        lemma_word_end_at(s, i + 1, n);
    }
}

proof fn lemma_token_end_at(s: Seq<char>, i: int, n: int)
    requires
        0 <= i <= n <= s.len(),
        forall|k: int| i <= k < n ==> !text::is_white(#[trigger] s[k]),
        n < s.len() ==> text::is_ascii_white(s[n]),
    ensures
        parse::token_end(s, i) == n,
    decreases n - i,
{
    if i < n {
        assert(!text::is_white(s[i]));
        lemma_token_end_at(s, i + 1, n);
    }
}

/// One word and its gap in front of a text that begins with a word.
proof fn lemma_first_word(w: Seq<char>, g: Seq<char>, rest: Seq<char>, n: nat)
    requires
        is_word(w),
        is_gap(g),
        rest.len() > 0,
        !text::is_white(rest[0]),
    ensures
        text::words_of(w + g + rest) == seq![w] + text::words_of(rest),
        parse::after_tokens(w + g + rest, n + 1) == parse::after_tokens(rest, n),
        (w + g + rest)[0] == w[0],
        (w + g + rest).last() == rest.last(),
        !text::is_white((w + g + rest)[0]),
{
    let s = w + g + rest;
    assert(s[0] == w[0]);
    assert forall|k: int| 0 <= k < w.len() implies !text::is_white(#[trigger] s[k]) by {
        assert(s[k] == w[k]);
    }
    assert(s[w.len() as int] == g[0]);
    assert forall|i: int| 0 <= i < g.len() implies text::is_white(#[trigger] g[i]) by {
        assert(text::is_ascii_white(g[i]));
    }
    lemma_word_end_at(s, 0, w.len() as int);
    lemma_token_end_at(s, 0, w.len() as int);
    assert(text::trimmed_start(s) == s);
    assert(s.take(w.len() as int) =~= w);
    assert(s.skip(w.len() as int) =~= g + rest);
    lemma_trim_gap(g, rest);
    text::lemma_words_trimmed(g + rest);
}

/// The words of a text with gaps are its words.
proof fn lemma_spaced(words: Seq<Seq<char>>, gaps: Seq<Seq<char>>, rest: Seq<char>)
    requires
        are_spaced(words, gaps),
        rest.len() > 0,
        !text::is_white(rest[0]),
    ensures
        ({
            let s = spaced(words, gaps, rest);
            &&& text::words_of(s) == words + text::words_of(rest)
            &&& parse::after_tokens(s, words.len()) == rest
            &&& s.len() > 0
            &&& !text::is_white(s[0])
            &&& s.last() == rest.last()
        }),
    decreases words.len(),
{
    let s = spaced(words, gaps, rest);
    if words.len() == 0 {
        assert(words + text::words_of(rest) =~= text::words_of(rest));
    } else {
        let ws = words.skip(1);
        let gs = gaps.skip(1);
        assert forall|i: int| 0 <= i < ws.len() implies is_word(#[trigger] ws[i]) by {
            assert(ws[i] == words[i + 1]);
        }
        assert forall|i: int| 0 <= i < gs.len() implies is_gap(#[trigger] gs[i]) by {
            assert(gs[i] == gaps[i + 1]);
        }
        lemma_spaced(ws, gs, rest);
        let r = spaced(ws, gs, rest);
        assert(is_word(words[0]) && is_gap(gaps[0]));
        lemma_first_word(words[0], gaps[0], r, ws.len());
        assert(seq![words[0]] + (ws + text::words_of(rest)) =~= words + text::words_of(rest));
    }
}

/// Words with any space between them are read back.
pub proof fn law_words_are_read_back(
    words: Seq<Seq<char>>,
    gaps: Seq<Seq<char>>,
    last: Seq<char>,
)
    requires
        are_spaced(words, gaps),
        is_word(last),
    ensures
        text::words_of(spaced(words, gaps, last)) == words.push(last),
        is_tight(spaced(words, gaps, last)),
{
    assert(!text::is_white(last[0]));
    lemma_spaced(words, gaps, last);
    lemma_word_end_at(last, 0, last.len() as int);
    assert(text::trimmed_start(last) == last);
    assert(last.take(last.len() as int) =~= last);
    assert(last.skip(last.len() as int) =~= Seq::empty());
    assert(text::trimmed_start(Seq::empty()).len() == 0);
    assert(text::words_of(Seq::empty()) =~= Seq::empty());
    assert(text::words_of(last) =~= seq![last]);
    assert(words + seq![last] =~= words.push(last));
}

/// Trimming takes off the white space at both ends and nothing else.
pub proof fn law_trimming(before: Seq<char>, s: Seq<char>, after: Seq<char>)
    requires
        forall|i: int| 0 <= i < before.len() ==> text::is_white(#[trigger] before[i]),
        forall|i: int| 0 <= i < after.len() ==> text::is_white(#[trigger] after[i]),
        is_tight(s),
    ensures
        text::trimmed(before + s + after) == s,
{
    assert(before + s + after =~= before + (s + after));
    assert((s + after)[0] == s[0]);
    lemma_trim_gap(before, s + after);
    lemma_trim_end(s, after);
}

/// A tight text has a word.
proof fn lemma_has_word(s: Seq<char>)
    requires
        s.len() > 0,
        !text::is_white(s[0]),
    ensures
        text::words_of(s).len() >= 1,
        text::words_of(s)[0].len() > 0,
        text::words_of(s)[0][0] == s[0],
{
    text::lemma_word_end(s, 0);
    assert(text::trimmed_start(s) == s);
}

proof fn lemma_no_separator(s: Seq<char>, c: char)
    requires
        !s.contains(c),
    ensures
        text::after_last(s, c) == s,
    decreases s.len(),
{
    if s.len() > 0 {
        assert(s[s.len() - 1] == s.last());
        assert(s.contains(s.last()));
        let r = s.drop_last();
        assert forall|i: int| 0 <= i < r.len() implies r[i] != c by {
            assert(s.contains(s[i]));
        }
        lemma_no_separator(r, c);
        assert(s =~= r.push(s.last()));
    } else {
        assert(s =~= Seq::empty());
    }
}

/// What is after the last separator of a path is its last name.
pub proof fn law_last_name(dir: Seq<char>, name: Seq<char>, c: char)
    requires
        dir.len() == 0 || dir.last() == c,
        !name.contains(c),
    ensures
        text::after_last(dir + name, c) == name,
    decreases name.len(),
{
    if name.len() == 0 {
        assert(dir + name =~= dir);
        assert(name =~= Seq::empty());
    } else {
        assert(name[name.len() - 1] == name.last());
        assert(name.contains(name.last()));
        let r = name.drop_last();
        assert forall|i: int| 0 <= i < r.len() implies r[i] != c by {
            assert(name.contains(name[i]));
        }
        law_last_name(dir, r, c);
        assert((dir + name).drop_last() =~= dir + r);
        assert(name =~= r.push(name.last()));
    }
}

// ---------------------------------------------------------------------------
// One line
// ---------------------------------------------------------------------------

/// Whether a name as `ls` shows it is tight, and in quotes only where `quote` says
/// so.
pub open spec fn is_shown_name(dir: Seq<char>, name: Seq<char>, quote: Option<char>) -> bool {
    let full = dir + name;
    &&& name.len() > 0
    &&& !name.contains('/')
    &&& dir.len() == 0 || dir.last() == '/'
    &&& match quote {
        Some(q) => (q == '\'' || q == '"') && !full.contains(q),
        None => is_tight(full) && full[0] != '\'' && full[0] != '"',
    }
}

/// A name as `ls` shows it: with a directory in front, and in quotes, where there
/// are such.
pub open spec fn shown_name(dir: Seq<char>, name: Seq<char>, quote: Option<char>) -> Seq<char> {
    match quote {
        Some(q) => seq![q] + (dir + name) + seq![q],
        None => dir + name,
    }
}

proof fn lemma_unquoted(dir: Seq<char>, name: Seq<char>, quote: Option<char>)
    requires
        is_shown_name(dir, name, quote),
    ensures
        is_tight(shown_name(dir, name, quote)),
        parse::unquoted(shown_name(dir, name, quote)) == dir + name,
{
    let s = shown_name(dir, name, quote);
    assert(is_tight(s));
    assert(text::trimmed_start(s) == s);
    assert(text::trimmed_end(s) == s);
    if let Some(q) = quote {
        assert(s.subrange(1, s.len() - 1) =~= dir + name);
        assert(parse::quoted_by(s, q));
    }
}

proof fn lemma_not_noise(line: Seq<char>)
    requires
        line.len() > 1,
        line[0] == '-' || line[0] == 'd' || (line[0] == 'l' && line[1] != 's'),
    ensures
        !parse::is_noise(line),
{
    reveal_strlit("sftp>");
    reveal_strlit("SSHMUX>");
    reveal_strlit("Remote");
    reveal_strlit("Changing");
    reveal_strlit("total");
    reveal_strlit("ls");
    lemma_prefix(line, "sftp>"@);
    lemma_prefix(line, "SSHMUX>"@);
    lemma_prefix(line, "Remote"@);
    lemma_prefix(line, "Changing"@);
    lemma_prefix(line, "total"@);
    lemma_prefix(line, "ls"@);
}

proof fn lemma_prefix(s: Seq<char>, p: Seq<char>)
    requires
        p.len() > 0,
    ensures
        text::has_prefix(s, p) ==> s.len() >= p.len() && s[0] == p[0] && (p.len() > 1 ==> s[1]
            == p[1]),
        p.len() == 1 && s.len() > 0 && s[0] == p[0] ==> text::has_prefix(s, p),
{
    if text::has_prefix(s, p) {
        let t = s.subrange(0, p.len() as int);
        assert(t == p);
        assert(t[0] == s[0]);
        if p.len() > 1 {
            assert(t[1] == s[1]);
        }
    }
    if p.len() == 1 && s.len() > 0 && s[0] == p[0] {
        assert(s.subrange(0, 1) =~= p);
    }
}

/// The kind of a line by the first character of its permissions.
proof fn lemma_kind(w: Seq<char>)
    requires
        w.len() > 0,
    ensures
        text::has_prefix(w, "d"@) == (w[0] == 'd'),
        text::has_prefix(w, "l"@) == (w[0] == 'l'),
        text::has_prefix(w, "-"@) == (w[0] == '-'),
{
    reveal_strlit("d");
    reveal_strlit("l");
    reveal_strlit("-");
    lemma_prefix(w, "d"@);
    lemma_prefix(w, "l"@);
    lemma_prefix(w, "-"@);
}

/// What the line of an entry shows is read back: eight words with any space
/// between them, of which the first holds the permissions, the fifth the size and
/// the last three the time, and then the name. The entry is a directory where the
/// permissions begin with `d`, and a file where they begin with `-`.
pub proof fn law_line_of_an_entry_is_read_back(
    words: Seq<Seq<char>>,
    gaps: Seq<Seq<char>>,
    before: Seq<char>,
    after: Seq<char>,
    dir: Seq<char>,
    name: Seq<char>,
    quote: Option<char>,
    size: nat,
)
    requires
        are_spaced(words, gaps),
        words.len() == 8,
        words[0][0] == '-' || words[0][0] == 'd',
        words[4] == text::decimal(size),
        size <= u64::MAX,
        forall|i: int| 0 <= i < before.len() ==> text::is_white(#[trigger] before[i]),
        forall|i: int| 0 <= i < after.len() ==> text::is_white(#[trigger] after[i]),
        is_shown_name(dir, name, quote),
    ensures
        ({
            let e = parse::entry_in(
                before + spaced(words, gaps, shown_name(dir, name, quote)) + after,
            );
            if name == "."@ || name == ".."@ {
                e is None
            } else {
                &&& e is Some
                &&& e->0.name == name
                &&& e->0.is_dir == (words[0][0] == 'd')
                &&& !e->0.is_link
                &&& e->0.perms == words[0]
                &&& e->0.modified == words[5] + seq![' '] + words[6] + seq![' '] + words[7]
                &&& words[0][0] == '-' ==> e->0.size == parse::size_text(size)
                &&& words[0][0] == 'd' ==> e->0.size.len() == 0
            }
        }),
{
    reveal_strlit(" ");
    assert(" "@ =~= seq![' ']);
    let shown = shown_name(dir, name, quote);
    let line = spaced(words, gaps, shown);
    lemma_unquoted(dir, name, quote);
    lemma_spaced(words, gaps, shown);
    lemma_line(words, gaps, before, after, shown);
    lemma_has_word(shown);
    lemma_kind(words[0]);
    let w = text::words_of(line);
    assert forall|i: int| 0 <= i < 8 implies w[i] == words[i] by {}
    assert(text::trimmed_start(line) == line);
    assert(text::trimmed_end(shown) == shown);
    law_last_name(dir, name, '/');
    text::law_decimal_reads_back(size, u64::MAX as nat);
}

proof fn lemma_line(
    words: Seq<Seq<char>>,
    gaps: Seq<Seq<char>>,
    before: Seq<char>,
    after: Seq<char>,
    shown: Seq<char>,
)
    requires
        are_spaced(words, gaps),
        words.len() == 8,
        words[0][0] == '-' || words[0][0] == 'd' || (words[0][0] == 'l' && (words[0].len() > 1
            ==> words[0][1] != 's')),
        is_tight(shown),
        forall|i: int| 0 <= i < before.len() ==> text::is_white(#[trigger] before[i]),
        forall|i: int| 0 <= i < after.len() ==> text::is_white(#[trigger] after[i]),
    ensures
        ({
            let line = spaced(words, gaps, shown);
            &&& text::trimmed(before + line + after) == line
            &&& !parse::is_noise(line)
        }),
{
    let line = spaced(words, gaps, shown);
    lemma_spaced(words, gaps, shown);
    assert(before + line + after =~= before + (line + after));
    assert((line + after)[0] == line[0]);
    lemma_trim_gap(before, line + after);
    lemma_trim_end(line, after);
    let r = spaced(words.skip(1), gaps.skip(1), shown);
    assert(line == words[0] + gaps[0] + r);
    assert(is_word(words[0]) && is_gap(gaps[0]));
    assert(line[0] == words[0][0]);
    if words[0].len() > 1 {
        assert(line[1] == words[0][1]);
    } else {
        assert(line[1] == gaps[0][0]);
        assert(text::is_ascii_white(gaps[0][0]));
    }
    lemma_not_noise(line);
}

/// The line of a symbolic link is read back: the name is what is before the arrow,
/// and until it is entered the link is taken for a directory.
pub proof fn law_line_of_a_link_is_read_back(
    words: Seq<Seq<char>>,
    gaps: Seq<Seq<char>>,
    before: Seq<char>,
    after: Seq<char>,
    dir: Seq<char>,
    name: Seq<char>,
    quote: Option<char>,
    target: Seq<char>,
    size: nat,
)
    requires
        are_spaced(words, gaps),
        words.len() == 8,
        words[0][0] == 'l',
        words[0].len() > 1 ==> words[0][1] != 's',
        words[4] == text::decimal(size),
        size <= u64::MAX,
        forall|i: int| 0 <= i < before.len() ==> text::is_white(#[trigger] before[i]),
        forall|i: int| 0 <= i < after.len() ==> text::is_white(#[trigger] after[i]),
        is_shown_name(dir, name, quote),
        name != "."@,
        name != ".."@,
        is_tight(target),
        no_arrow_within(shown_name(dir, name, quote), target),
    ensures
        ({
            let e = parse::entry_in(
                before + spaced(
                    words,
                    gaps,
                    shown_name(dir, name, quote) + seq![' ', '-', '>', ' '] + target,
                ) + after,
            );
            &&& e is Some
            &&& e->0.name == name
            &&& e->0.is_dir
            &&& e->0.is_link
            &&& e->0.perms == words[0]
            &&& e->0.size == parse::size_text(size)
            &&& e->0.modified == words[5] + seq![' '] + words[6] + seq![' '] + words[7]
        }),
{
    reveal_strlit(" ");
    reveal_strlit(" -> ");
    assert(" "@ =~= seq![' ']);
    let arrow = seq![' ', '-', '>', ' '];
    assert(" -> "@ =~= arrow);
    let shown = shown_name(dir, name, quote);
    let raw = shown + arrow + target;
    let line = spaced(words, gaps, raw);
    lemma_unquoted(dir, name, quote);
    assert(raw[0] == shown[0]);
    assert(raw.last() == target.last());
    lemma_spaced(words, gaps, raw);
    lemma_line(words, gaps, before, after, raw);
    lemma_has_word(raw);
    lemma_kind(words[0]);
    let w = text::words_of(line);
    assert forall|i: int| 0 <= i < 8 implies w[i] == words[i] by {}
    assert(text::trimmed_start(line) == line);
    assert(text::trimmed_end(raw) == raw);
    assert(raw.subrange(shown.len() as int, shown.len() as int + 4) =~= arrow);
    lemma_arrow(raw, shown.len() as int, 0);
    assert(raw.take(shown.len() as int) =~= shown);
    law_last_name(dir, name, '/');
    text::law_decimal_reads_back(size, u64::MAX as nat);
}

/// Whether the arrow between a name and its target is the first one.
pub open spec fn no_arrow_within(shown: Seq<char>, target: Seq<char>) -> bool {
    let raw = shown + seq![' ', '-', '>', ' '] + target;
    forall|i: int|
        0 <= i < shown.len() ==> !(#[trigger] raw[i] == ' ' && raw[i + 1] == '-' && raw[i + 2]
            == '>' && raw[i + 3] == ' ')
}

proof fn lemma_arrow(raw: Seq<char>, n: int, i: int)
    requires
        0 <= i <= n,
        n + 4 <= raw.len(),
        raw.subrange(n, n + 4) == " -> "@,
        " -> "@ == seq![' ', '-', '>', ' '],
        forall|k: int|
            0 <= k < n ==> !(#[trigger] raw[k] == ' ' && raw[k + 1] == '-' && raw[k + 2] == '>'
                && raw[k + 3] == ' '),
    ensures
        text::find_part(raw, " -> "@, i) == n,
    decreases n - i,
{
    if i < n {
        if text::stands_at(raw, " -> "@, i) {
            let t = raw.subrange(i, i + 4);
            assert(t == " -> "@);
            assert(t[0] == raw[i] && t[1] == raw[i + 1] && t[2] == raw[i + 2] && t[3] == raw[i
                + 3]);
            assert(raw[i] == ' ');
        }
        lemma_arrow(raw, n, i + 1);
    }
}

/// What an entry shows comes from its line: the first character of the first word
/// says what it is, and each of its parts is a word of the line or made of some.
pub proof fn law_entry_shows_its_line(line: Seq<char>)
    requires
        parse::entry_in(line) is Some,
    ensures
        ({
            let e = parse::entry_in(line)->0;
            let w = text::words_of(text::trimmed(line));
            &&& w.len() >= 9
            &&& w[0].len() > 0
            &&& w[0][0] == 'd' || w[0][0] == 'l' || w[0][0] == '-'
            &&& e.is_dir == (w[0][0] == 'd' || w[0][0] == 'l')
            &&& e.is_link == (w[0][0] == 'l')
            &&& e.perms == w[0]
            &&& e.modified == w[5] + seq![' '] + w[6] + seq![' '] + w[7]
            &&& w[0][0] == 'd' ==> e.size.len() == 0
            &&& w[0][0] != 'd' ==> match text::number_of(w[4], u64::MAX as nat) {
                Some(n) => e.size == parse::size_text(n),
                None => e.size == parse::size_text(0),
            }
            &&& e.name.len() > 0
            &&& !e.name.contains('/')
            &&& e.name != "."@
            &&& e.name != ".."@
        }),
{
    reveal_strlit(" ");
    assert(" "@ =~= seq![' ']);
    let t = text::trimmed(line);
    let w = text::words_of(t);
    lemma_words_are_words(t, 0);
    lemma_kind(w[0]);
    let shown = parse::name_in(t, text::has_prefix(w[0], "l"@));
    lemma_after_last_is_clean(
        parse::unquoted(
            {
                let raw = text::trimmed_end(parse::after_tokens(text::trimmed_start(t), 8));
                if w[0][0] == 'l' {
                    raw.take(text::find_part(raw, " -> "@, 0))
                } else {
                    raw
                }
            },
        ),
        '/',
    );
}

proof fn lemma_words_are_words(s: Seq<char>, k: int)
    requires
        0 <= k < text::words_of(s).len(),
    ensures
        text::words_of(s)[k].len() > 0,
    decreases s.len(),
{
    text::lemma_trimmed_start(s);
    let t = text::trimmed_start(s);
    text::lemma_word_end(t, 0);
    let e = text::word_end(t, 0);
    if k > 0 {
        lemma_words_are_words(t.skip(e), k - 1);
    }
}

proof fn lemma_after_last_is_clean(s: Seq<char>, c: char)
    ensures
        !text::after_last(s, c).contains(c),
    decreases s.len(),
{
    if s.len() > 0 && s.last() != c {
        lemma_after_last_is_clean(s.drop_last(), c);
        let r = text::after_last(s.drop_last(), c);
        let t = r.push(s.last());
        assert forall|i: int| 0 <= i < t.len() implies t[i] != c by {
            if i < r.len() {
                assert(t[i] == r[i]);
                assert(r.contains(r[i]));
            }
        }
    }
}

/// Lines that are no entries show none: those that begin with anything but a
/// letter or sign for a directory, a link or a file, and those with less than nine
/// words.
pub proof fn law_other_lines_show_nothing(line: Seq<char>)
    requires
        ({
            let t = text::trimmed(line);
            t.len() == 0 || (t[0] != 'd' && t[0] != 'l' && t[0] != '-') || text::words_of(t).len()
                < 9
        }),
    ensures
        parse::entry_in(line) is None,
{
    let t = text::trimmed(line);
    if parse::entry_in(line) is Some {
        law_entry_shows_its_line(line);
        text::lemma_trimmed_start(line);
        text::lemma_trimmed_end(text::trimmed_start(line));
        assert(t[0] == text::trimmed_start(line)[0]);
        lemma_has_word(t);
    }
}

/// The command itself, where the shell repeats it, shows no entry, and neither do the
/// directory and its parent.
pub proof fn law_repeated_command_shows_nothing(line: Seq<char>)
    ensures
        ({
            let t = text::trimmed(line);
            t.len() >= 2 && t[0] == 'l' && t[1] == 's'
        }) ==> parse::entry_in(line) is None,
        parse::entry_in(line) matches Some(e) ==> e.name.len() > 0 && e.name != seq!['.'] && e.name
            != seq!['.', '.'] && !e.name.contains('/'),
{
    reveal_strlit("ls");
    reveal_strlit(".");
    reveal_strlit("..");
    let t = text::trimmed(line);
    if t.len() >= 2 && t[0] == 'l' && t[1] == 's' {
        assert(t.subrange(0, 2) =~= "ls"@);
        assert(text::has_prefix(t, "ls"@));
    }
    assert("."@ =~= seq!['.']);
    assert(".."@ =~= seq!['.', '.']);
    if parse::entry_in(line) is Some {
        law_entry_shows_its_line(line);
    }
}

// ---------------------------------------------------------------------------
// All lines
// ---------------------------------------------------------------------------

/// Lines are read one by one: what some lines and others show is what the ones
/// show and then what the others show, and one line shows its entry, if any.
pub proof fn law_lines_are_read_one_by_one(a: Seq<Seq<char>>, b: Seq<Seq<char>>, l: Seq<char>)
    ensures
        parse::entries_in(a + b) == parse::entries_in(a) + parse::entries_in(b),
        match parse::entry_in(l) {
            Some(e) => parse::entries_in(seq![l]) == seq![e],
            None => parse::entries_in(seq![l]).len() == 0,
        },
    decreases b.len(),
{
    assert(seq![l].drop_last() =~= Seq::empty());
    assert(parse::entries_in(seq![l].drop_last()) =~= Seq::empty());
    if let Some(e) = parse::entry_in(l) {
        assert(parse::entries_in(seq![l]) =~= seq![e]);
    }
    if b.len() == 0 {
        assert(a + b =~= a);
        assert(parse::entries_in(a) + parse::entries_in(b) =~= parse::entries_in(a));
    } else {
        law_lines_are_read_one_by_one(a, b.drop_last(), l);
        assert((a + b).drop_last() =~= a + b.drop_last());
        assert((a + b).last() == b.last());
        assert(parse::entries_in(a + b) =~= parse::entries_in(a) + parse::entries_in(b));
    }
}

/// Whether `a` comes before `b` as words do in a dictionary, letter by letter: at
/// the first place where they differ `a` ends or has the smaller letter.
pub open spec fn comes_before(a: Seq<char>, b: Seq<char>) -> bool {
    exists|k: int|
        0 <= k <= a.len() && k < b.len() && #[trigger] a.take(k) == b.take(k) && (k == a.len()
            || a[k] < b[k])
}

/// Texts are in order as words are in a dictionary.
pub proof fn law_order_of_names(a: Seq<char>, b: Seq<char>)
    ensures
        text::precedes(a, b) == comes_before(a, b),
    decreases a.len(),
{
    if b.len() == 0 {
    } else if a.len() == 0 {
        assert(a.take(0) =~= b.take(0));
    } else if a[0] != b[0] {
        assert(a.take(0) =~= b.take(0));
        if comes_before(a, b) {
            let k = choose|k: int|
                0 <= k <= a.len() && k < b.len() && #[trigger] a.take(k) == b.take(k) && (k
                    == a.len() || a[k] < b[k]);
            if k > 0 {
                assert(a.take(k)[0] == b.take(k)[0]);
            }
        }
    } else {
        let x = a.skip(1);
        let y = b.skip(1);
        law_order_of_names(x, y);
        if comes_before(x, y) {
            let k = choose|k: int|
                0 <= k <= x.len() && k < y.len() && #[trigger] x.take(k) == y.take(k) && (k
                    == x.len() || x[k] < y[k]);
            assert(a.take(k + 1) =~= seq![a[0]] + x.take(k));
            assert(b.take(k + 1) =~= seq![b[0]] + y.take(k));
            assert(a.take(k + 1) == b.take(k + 1));
        }
        if comes_before(a, b) {
            let k = choose|k: int|
                0 <= k <= a.len() && k < b.len() && #[trigger] a.take(k) == b.take(k) && (k
                    == a.len() || a[k] < b[k]);
            assert(k > 0);
            assert(x.take(k - 1) =~= a.take(k).skip(1));
            assert(y.take(k - 1) =~= b.take(k).skip(1));
            assert(x.take(k - 1) == y.take(k - 1));
        }
    }
}

/// In a listing the way up comes first, then the directories and behind them the
/// files, both by name.
pub proof fn law_listing_has_directories_first(s: Seq<EntryView>)
    ensures
        ({
            let l = parse::listing_of(s);
            &&& l.len() == s.len() + 1
            &&& l[0].name == ".."@
            &&& l[0].is_dir
            &&& !l[0].is_link
            &&& l.skip(1).to_multiset() == s.to_multiset()
            &&& forall|i: int, j: int|
                1 <= i < j < l.len() ==> !(!(#[trigger] l[i]).is_dir && (#[trigger] l[j]).is_dir)
            &&& forall|i: int, j: int|
                1 <= i < j < l.len() && (#[trigger] l[i]).is_dir == (#[trigger] l[j]).is_dir
                    ==> !comes_before(l[j].name, l[i].name)
        }),
{
    parse::law_listing_is_sorted(s);
    let l = parse::listing_of(s);
    assert forall|i: int, j: int|
        1 <= i < j < l.len() && (#[trigger] l[i]).is_dir == (#[trigger] l[j]).is_dir implies !comes_before(
        l[j].name,
        l[i].name,
    ) by {
        law_order_of_names(l[j].name, l[i].name);
        assert(parse::may_precede(l[i], l[j]));
    }
    assert forall|i: int, j: int| 1 <= i < j < l.len() implies !(!(#[trigger] l[i]).is_dir && (
    #[trigger] l[j]).is_dir) by {
        assert(parse::may_precede(l[i], l[j]));
    }
}

/// An item of a local directory shows its own name, whether it is a directory, and
/// for a file its size. Of what cannot be inspected only the name is shown.
pub proof fn law_local_item_shows_itself(name: Seq<char>, meta: Option<ItemMeta>)
    ensures
        ({
            let e = parse::item_entry(name, meta);
            &&& e.name == name
            &&& !e.is_link
            &&& e.perms.len() == 0
            &&& match meta {
                Some(m) => {
                    &&& e.is_dir == m.is_dir
                    &&& m.is_dir ==> e.size.len() == 0
                    &&& !m.is_dir ==> e.size == parse::size_text(m.len as nat)
                    &&& m.modified is None ==> e.modified.len() == 0
                },
                None => !e.is_dir && e.size.len() == 0 && e.modified.len() == 0,
            }
        }),
{
}

// ---------------------------------------------------------------------------
// Sizes
// ---------------------------------------------------------------------------

/// Whether a size of `n` bytes is written as `t` tenths of a unit: the unit is the
/// largest of which there is at least one, and what is written is off by no more
/// than half a tenth, but for what a double cannot hold.
pub open spec fn is_size_in(n: nat, unit: nat, name: Seq<char>, t: nat, s: Seq<char>) -> bool {
    let off = if t * unit >= 10 * n {
        t * unit - 10 * n
    } else {
        10 * n - t * unit
    };
    &&& n >= unit
    &&& n >= 1024 * unit ==> unit == 0x100_0000_0000
    &&& 2 * off <= unit + (if n < 0x20_0000_0000_0000 {
        0
    } else {
        20480int
    })
    &&& s == text::decimal(t / 10) + seq!['.'] + text::decimal(t % 10) + name
}

/// Small sizes are written in bytes, exactly.
pub proof fn law_small_sizes_are_exact(n: nat)
    requires
        n < 1024,
    ensures
        ({
            let s = parse::size_text(n);
            &&& s.len() > 2
            &&& s[s.len() - 2] == ' '
            &&& s[s.len() - 1] == 'B'
            &&& text::all_digits(s.take(s.len() - 2))
            &&& text::digits_value(s.take(s.len() - 2)) == n
        }),
{
    reveal_strlit(" B");
    text::lemma_decimal(n);
    let s = parse::size_text(n);
    assert(s.take(s.len() - 2) =~= text::decimal(n));
}

proof fn lemma_nearest(a: nat, b: nat)
    requires
        b > 0,
    ensures
        2 * (parse::nearest(a, b) * b) <= 2 * a + b,
        2 * a <= 2 * (parse::nearest(a, b) * b) + b,
{
    let q = a / b;
    let r = a % b;
    assert(a == q * b + r && r < b) by (nonlinear_arith)
        requires
            b > 0,
            q == a / b,
            r == a % b,
    ;
    assert((q + 1) * b == q * b + b) by (nonlinear_arith);
}

proof fn lemma_double_step(n: nat)
    requires
        n <= u64::MAX,
    ensures
        parse::double_step(n) >= 1,
        parse::double_step(n) <= 2048,
        n < 0x20_0000_0000_0000 ==> parse::double_step(n) == 1,
{
    reveal_with_fuel(parse::double_step, 13);
}

proof fn lemma_nearest_double(n: nat)
    requires
        n <= u64::MAX,
    ensures
        n < 0x20_0000_0000_0000 ==> parse::nearest_double(n) == n,
        parse::nearest_double(n) <= n + 1024,
        n <= parse::nearest_double(n) + 1024,
{
    lemma_double_step(n);
    lemma_nearest(n, parse::double_step(n));
}

/// Larger sizes are written with one decimal.
pub proof fn law_large_sizes_are_close(n: nat)
    requires
        1024 <= n <= u64::MAX,
    ensures
        exists|unit: nat, name: Seq<char>, t: nat| #[trigger]
            is_size_in(n, unit, name, t, parse::size_text(n)) && is_unit(unit, name),
{
    reveal_strlit(".");
    lemma_nearest_double(n);
    let unit: nat = if n < 0x10_0000 {
        0x400
    } else if n < 0x4000_0000 {
        0x10_0000
    } else if n < 0x100_0000_0000 {
        0x4000_0000
    } else {
        0x100_0000_0000
    };
    let name = if n < 0x10_0000 {
        " KB"@
    } else if n < 0x4000_0000 {
        " MB"@
    } else if n < 0x100_0000_0000 {
        " GB"@
    } else {
        " TB"@
    };
    let a = parse::nearest_double(n) * 10;
    let t = parse::nearest(a, unit);
    lemma_nearest(a, unit);
    assert("."@ =~= seq!['.']);
    assert(is_size_in(n, unit, name, t, parse::size_text(n)));
}

/// The units of sizes: powers of 1024.
pub open spec fn is_unit(unit: nat, name: Seq<char>) -> bool {
    ||| unit == 1024 && name == " KB"@
    ||| unit == 1024 * 1024 && name == " MB"@
    ||| unit == 1024 * 1024 * 1024 && name == " GB"@
    ||| unit == 1024 * 1024 * 1024 * 1024 && name == " TB"@
}

} // verus!
