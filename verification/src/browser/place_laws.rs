//! Where paths lead, and what output, times and dropped text say.
use vstd::prelude::*;
use crate::browser::command_laws;
use crate::browser::common::navigation;
use crate::browser::common::{CoreView, LinkProbe};
use crate::browser::listing_laws;
use crate::browser::parse;
use crate::browser::parse::ItemMeta;
use crate::browser::path;
use crate::text;

verus! {

// ---------------------------------------------------------------------------
// Paths
// ---------------------------------------------------------------------------

/// Whether a directory is given from the root, without anything at its end that
/// stands for nothing.
pub open spec fn is_tidy(dir: Seq<char>) -> bool {
    &&& dir.len() > 0
    &&& dir[0] == '/'
    &&& dir.len() > 1 ==> dir.last() != '/'
    &&& dir.len() > 1 && dir.last() == '.' ==> dir[dir.len() - 2] != '/'
}

/// Whether a name is that of something in a directory.
pub open spec fn is_name(name: Seq<char>) -> bool {
    &&& name.len() > 0
    &&& !name.contains('/')
    &&& name != seq!['.']
    &&& name != seq!['.', '.']
}

proof fn lemma_component(p: Seq<char>, n: int, i: int)
    requires
        1 <= n <= i <= p.len(),
        p[n - 1] == '/',
        forall|k: int| n <= k < i ==> #[trigger] p[k] != '/',
    ensures
        path::component_start(p, 1, i) == n,
    decreases i,
{
    if i > n {
        assert(p[i - 1] != '/');
        lemma_component(p, n, i - 1);
    }
}

proof fn lemma_last_slash_at(p: Seq<char>, i: int) -> (n: int)
    requires
        1 <= i <= p.len(),
        p[0] == '/',
    ensures
        1 <= n <= i,
        p[n - 1] == '/',
        forall|k: int| n <= k < i ==> #[trigger] p[k] != '/',
    decreases i,
{
    if p[i - 1] == '/' {
        i
    } else {
        lemma_last_slash_at(p, i - 1)
    }
}

proof fn lemma_tidy(dir: Seq<char>)
    requires
        is_tidy(dir),
    ensures
        path::tidied(dir, 1) == dir,
{
    if dir.len() > 1 {
        let n = lemma_last_slash_at(dir, dir.len() as int);
        lemma_component(dir, n, dir.len() as int);
        let c = path::last_component(dir, 1);
        assert(c.len() > 0);
        if c == seq!['.'] {
            assert(c.last() == dir.last());
            assert(dir[dir.len() - 2] == '/');
        }
    }
}

/// Going up from a directory leads back to the one that it was entered from, and its
/// name is the name that was entered. Above the root there is nothing.
pub proof fn law_going_up_undoes_entering(dir: Seq<char>, name: Seq<char>)
    requires
        is_tidy(dir),
        is_name(name),
    ensures
        path::parent_of(path::joined(dir, name)) == Some(dir),
        path::name_of(path::joined(dir, name)) == name,
        path::parent_of(seq!['/']) is None,
{
    let p = path::joined(dir, name);
    assert forall|k: int| 0 <= k < name.len() implies #[trigger] name[k] != '/' by {
        assert(name.contains(name[k]));
    }
    assert(name[0] != '/');
    let n = p.len() - name.len();
    assert(p.skip(n) =~= name);
    assert(p[n - 1] == '/');
    assert(p[0] == '/');
    assert forall|k: int| n <= k < p.len() implies #[trigger] p[k] != '/' by {
        assert(p[k] == name[k - n]);
    }
    lemma_component(p, n, p.len() as int);
    assert(path::last_component(p, 1) == name);
    assert(!path::is_idle(name));
    if dir.len() > 1 {
        assert(path::without_last(p, 1) =~= dir);
    } else {
        assert(p.take(1) =~= dir);
        assert(n == 1);
    }
    assert(path::without_last(p, 1) == dir);
    lemma_tidy(dir);
    assert(path::body_start(seq!['/']) == 1);
}

/// On the host, the directory above is what stands before the last slash; above what
/// is in the root it is the root.
pub proof fn law_parent_ends_before_the_last_slash(dir: Seq<char>, name: Seq<char>)
    requires
        !name.contains('/'),
    ensures
        dir.len() > 0 ==> path::remote_parent(dir.push('/') + name) == dir,
        dir.len() == 0 ==> path::remote_parent(dir.push('/') + name) == seq!['/'],
        path::remote_parent(name) == name,
{
    reveal_strlit("/");
    let p = dir.push('/') + name;
    assert("/"@ =~= seq!['/']);
    assert(p.skip(dir.len() as int + 1) =~= name);
    lemma_last_slash(p, dir.len() as int, p.len() as int, name);
    assert(p.take(dir.len() as int) =~= dir);
    lemma_no_slash(name, name.len() as int);
}

proof fn lemma_last_slash(p: Seq<char>, n: int, i: int, name: Seq<char>)
    requires
        0 <= n < i <= p.len(),
        p[n] == '/',
        p.skip(n + 1) == name,
        !name.contains('/'),
    ensures
        path::last_slash(p, i) == n,
    decreases i,
{
    if i > n + 1 {
        assert(p[i - 1] == name[i - n - 2]);
        assert(name.contains(p[i - 1]));
        lemma_last_slash(p, n, i - 1, name);
    }
}

proof fn lemma_no_slash(s: Seq<char>, i: int)
    requires
        0 <= i <= s.len(),
        !s.contains('/'),
    ensures
        path::last_slash(s, i) == -1,
    decreases i,
{
    if i > 0 {
        assert(s.contains(s[i - 1]));
        lemma_no_slash(s, i - 1);
    }
}

/// To enter a local directory leads into it, to enter the parent directory leads up,
/// and to enter a file leads nowhere. What was shown is not shown any more until the
/// new directory is read, and the remote panel stays as it is.
pub proof fn law_entering_a_local_directory_leads_there(c: CoreView, i: usize)
    requires
        c.drive_picker is None,
        c.local.sel.selected == Some(i),
        i < c.local.entries.len(),
    ensures
        ({
            let e = c.local.entries[i as int];
            let s = c.local_entered();
            &&& s.remote == c.remote && s.transfer == c.transfer && s.focus == c.focus
            &&& e.name != ".."@ && e.is_dir && (e.name.len() == 0 || e.name[0] != '/') ==> {
                &&& command_laws::lies_in_local(c.local.path, e.name, s.local.path)
                &&& s.reload_local
                &&& s.local.sel.selected == Some(0usize)
                &&& s.local.entries.len() == 1 && s.local.entries[0].name == ".."@
            }
            &&& e.name != ".."@ && !e.is_dir ==> s == c
            &&& e.name == ".."@ && path::parent_of(c.local.path) is Some ==> s.local.path
                == path::parent_of(c.local.path)->0 && s.reload_local && s.local.sel.selected
                == Some(0usize)
            &&& e.name == ".."@ && path::parent_of(c.local.path) is None ==> s.drive_picker is Some
                && s.local == c.local
        }),
{
    let e = c.local.entries[i as int];
    if e.name.len() == 0 || e.name[0] != '/' {
        command_laws::law_local_children_lie_in_their_directory(c.local.path, e.name);
    }
}

/// A link to a file on the host is queued for download from the directory that it
/// lies in. A link to a directory leads there, and a broken one only says so.
pub proof fn law_links_lead_where_they_point(c: CoreView, dir: Seq<char>, name: Seq<char>)
    requires
        dir.len() > 0,
        !name.contains('/'),
        c.remote.path == dir.push('/') + name,
    ensures
        ({
            let file = c.link_probed(name, LinkProbe::File);
            let broken = c.link_probed(name, LinkProbe::Broken);
            &&& c.link_probed(name, LinkProbe::Dir) == c
            &&& file.remote.path == dir
            &&& file.transfer.pending.drop_last() == c.transfer.pending
            &&& file.transfer.pending.last().name == name
            &&& !file.transfer.pending.last().is_dir
            &&& command_laws::lies_in(dir, name, file.transfer.pending.last().path)
            &&& file.pending_direction() is Download
            &&& broken.remote.path == dir
            &&& broken.transfer == c.transfer
        }),
{
    law_parent_ends_before_the_last_slash(dir, name);
    command_laws::law_remote_children_lie_in_their_directory(dir, name);
    let file = c.link_probed(name, LinkProbe::File);
    assert(file.transfer.pending.drop_last() =~= c.transfer.pending);
}

// ---------------------------------------------------------------------------
// Files that were dropped
// ---------------------------------------------------------------------------

/// Whether a name is a path from the root in which no other path begins behind a
/// space.
pub open spec fn is_one_path(n: Seq<char>) -> bool {
    &&& listing_laws::is_tight(n)
    &&& n[0] == '/'
    &&& forall|i: int|
        0 <= i < n.len() - 1 && #[trigger] n[i] == ' ' ==> n[i + 1] != '/' && !(i + 3 < n.len()
            && n[i + 2] == ':' && n[i + 3] == '\\')
}

/// The names with a space between them.
pub open spec fn in_a_row(names: Seq<Seq<char>>) -> Seq<char>
    decreases names.len(),
{
    if names.len() == 0 {
        Seq::empty()
    } else if names.len() == 1 {
        names[0]
    } else {
        names[0] + seq![' '] + in_a_row(names.skip(1))
    }
}

proof fn lemma_boundary(n: Seq<char>, rest: Seq<char>, i: int)
    requires
        is_one_path(n),
        rest.len() > 0,
        rest[0] == '/',
        1 <= i <= n.len(),
    ensures
        navigation::boundary_from(n + seq![' '] + rest, i) == n.len(),
    decreases n.len() - i,
{
    let s = n + seq![' '] + rest;
    let l = n.len() as int;
    assert(s[l] == ' ' && s[l + 1] == '/');
    if i < l {
        if s[i] == ' ' {
            assert(n[i] == ' ');
            assert(n.last() == n[l - 1]);
            assert(i < l - 1);
            assert(s[i + 1] == n[i + 1]);
            if i + 2 < l {
                assert(s[i + 2] == n[i + 2]);
            }
            if i + 3 < l {
                assert(s[i + 3] == n[i + 3]);
            }
        }
        lemma_boundary(n, rest, i + 1);
    }
}

proof fn lemma_no_boundary(n: Seq<char>, i: int)
    requires
        is_one_path(n),
        1 <= i <= n.len(),
    ensures
        navigation::boundary_from(n, i) == n.len(),
    decreases n.len() - i,
{
    if i < n.len() {
        if n[i] == ' ' {
            assert(n.last() == n[n.len() - 1]);
            assert(i < n.len() - 1);
        }
        lemma_no_boundary(n, i + 1);
    }
}

proof fn lemma_row(names: Seq<Seq<char>>)
    requires
        names.len() > 0,
        forall|k: int| 0 <= k < names.len() ==> is_one_path(#[trigger] names[k]),
    ensures
        in_a_row(names).len() > 0,
        in_a_row(names)[0] == '/',
        !text::is_white(in_a_row(names).last()),
        navigation::names_in(in_a_row(names)) == names,
    decreases names.len(),
{
    let s = in_a_row(names);
    let n = names[0];
    assert(is_one_path(n));
    assert(s[0] == '/');
    assert(text::trimmed_start(s) == s);
    if names.len() == 1 {
        lemma_no_boundary(n, 1);
        assert(navigation::names_in(s) =~= seq![n]);
        assert(names =~= seq![n]);
    } else {
        let more = names.skip(1);
        assert forall|k: int| 0 <= k < more.len() implies is_one_path(#[trigger] more[k]) by {
            assert(more[k] == names[k + 1]);
        }
        lemma_row(more);
        let rest = in_a_row(more);
        lemma_boundary(n, rest, 1);
        let l = n.len() as int;
        assert(s.take(l) =~= n);
        assert(s.skip(l) =~= seq![' '] + rest);
        assert((seq![' '] + rest).skip(1) =~= rest);
        assert(text::trimmed_start(rest) == rest);
        assert(text::trimmed_start(seq![' '] + rest) == rest);
        assert(text::trimmed_end(n) == n);
        assert(navigation::names_in(seq![' '] + rest) == navigation::names_in(rest));
        assert(navigation::names_in(s) =~= seq![n] + more);
        assert(seq![n] + more =~= names);
    }
}

/// Paths that are dropped with spaces between them are told apart, with the spaces
/// that are in them, and come in their order.
pub proof fn law_dropped_paths_are_told_apart(
    before: Seq<char>,
    names: Seq<Seq<char>>,
    after: Seq<char>,
)
    requires
        names.len() > 0,
        forall|k: int| 0 <= k < names.len() ==> is_one_path(#[trigger] names[k]),
        forall|i: int| 0 <= i < before.len() ==> text::is_white(#[trigger] before[i]),
        forall|i: int| 0 <= i < after.len() ==> text::is_white(#[trigger] after[i]),
    ensures
        navigation::dropped_names(before + in_a_row(names) + after) == names,
{
    lemma_row(names);
    listing_laws::law_trimming(before, in_a_row(names), after);
}

/// A name in double quotes is taken without them, whatever is in it.
pub proof fn law_dropped_path_in_quotes(name: Seq<char>)
    requires
        !name.contains('"'),
    ensures
        navigation::dropped_names(seq!['"'] + name + seq!['"']) == seq![name],
{
    let s = seq!['"'] + name + seq!['"'];
    assert(text::trimmed_start(s) == s);
    assert(text::trimmed_end(s) == s);
    lemma_quote_end(s, name, 1);
    let e = name.len() as int + 1;
    assert(s.subrange(1, e) =~= name);
    assert(s.skip(e + 1) =~= Seq::empty());
    assert(text::trimmed_start(Seq::<char>::empty()) =~= Seq::empty());
    assert(navigation::names_in(Seq::empty()) =~= Seq::empty());
    assert(navigation::names_in(s) =~= seq![name]);
}

proof fn lemma_quote_end(s: Seq<char>, name: Seq<char>, i: int)
    requires
        s == seq!['"'] + name + seq!['"'],
        !name.contains('"'),
        1 <= i <= name.len() + 1,
    ensures
        text::find_from(s, '"', i) == name.len() + 1,
    decreases s.len() - i,
{
    if i <= name.len() {
        assert(s[i] == name[i - 1]);
        assert(name.contains(name[i - 1]));
        lemma_quote_end(s, name, i + 1);
    }
}

// ---------------------------------------------------------------------------
// Durations
// ---------------------------------------------------------------------------

/// Whether `s` says `n` of a unit of `unit` milliseconds.
pub open spec fn says_duration(s: Seq<char>, n: nat, unit: nat) -> bool {
    ||| unit == 1 && s == text::decimal(n) + seq!['m', 's']
    ||| unit == 1000 && s == text::decimal(n).push('s')
    ||| unit == 60 * 1000 && s == text::decimal(n).push('m')
    ||| unit == 60 * 60 * 1000 && s == text::decimal(n).push('h')
}

/// The largest unit, in milliseconds, of which a duration has one.
pub open spec fn unit_of(ms: nat) -> nat {
    if ms >= 60 * 60 * 1000 {
        60 * 60 * 1000
    } else if ms >= 60 * 1000 {
        60 * 1000
    } else if ms >= 1000 {
        1000
    } else {
        1
    }
}

/// A duration is written in the largest unit of which it has one, and nothing but
/// what is left of a unit is lost.
pub proof fn law_durations_are_in_their_unit(ms: nat)
    ensures
        exists|n: nat| #[trigger]
            says_duration(navigation::duration_text(ms), n, unit_of(ms)) && n * unit_of(ms) <= ms
                < (n + 1) * unit_of(ms),
{
    reveal_strlit("ms");
    reveal_strlit("s");
    reveal_strlit("m");
    reveal_strlit("h");
    let s = navigation::duration_text(ms);
    let unit = unit_of(ms);
    let n = ms / unit;
    assert("ms"@ =~= seq!['m', 's']);
    assert("s"@ =~= seq!['s']);
    assert("m"@ =~= seq!['m']);
    assert("h"@ =~= seq!['h']);
    assert(text::decimal(n) + seq!['s'] =~= text::decimal(n).push('s'));
    assert(text::decimal(n) + seq!['m'] =~= text::decimal(n).push('m'));
    assert(text::decimal(n) + seq!['h'] =~= text::decimal(n).push('h'));
    assert(says_duration(s, n, unit));
    assert(n * unit <= ms < (n + 1) * unit) by (nonlinear_arith)
        requires
            n == ms / unit,
            unit > 0,
    ;
}

/// The time that a command took is counted from its start.
pub proof fn law_timer_counts_from_the_start(c: CoreView, start: u64, now: u64)
    requires
        c.cmd_start == Some(start),
        start <= now,
    ensures
        c.timer_stopped(now).last_duration == Some((now - start) as u64),
        c.timer_stopped(now).cmd_start is None,
{
}

// ---------------------------------------------------------------------------
// Progress
// ---------------------------------------------------------------------------

/// The percentage of a progress line is the first word of it that is a number with
/// the sign for per cent, behind the last carriage return. More than a hundred counts
/// as a hundred.
pub proof fn law_progress_is_read(
    earlier: Seq<Seq<char>>,
    overwritten: Seq<char>,
    words: Seq<Seq<char>>,
    gaps: Seq<Seq<char>>,
    last: Seq<char>,
    k: int,
    n: nat,
)
    requires
        overwritten.len() == 0 || overwritten.last() == '\r',
        listing_laws::are_spaced(words, gaps),
        listing_laws::is_word(last),
        !listing_laws::spaced(words, gaps, last).contains('\r'),
        0 <= k <= words.len(),
        words.push(last)[k] == text::decimal(n).push('%'),
        n <= u32::MAX,
        forall|i: int| 0 <= i < k ==> (#[trigger] words[i]).last() != '%',
    ensures
        parse::progress_value(
            earlier.push(overwritten + listing_laws::spaced(words, gaps, last)),
        ) == Some(
            if n > 100 {
                100
            } else {
                n
            },
        ),
{
    let shown = listing_laws::spaced(words, gaps, last);
    let line = overwritten + shown;
    let ws = words.push(last);
    listing_laws::law_words_are_read_back(words, gaps, last);
    listing_laws::law_last_name(overwritten, shown, '\r');
    listing_laws::law_trimming(Seq::empty(), shown, Seq::empty());
    assert(Seq::<char>::empty() + shown + Seq::<char>::empty() =~= shown);
    lemma_percentage(n);
    assert forall|i: int| 0 <= i < k implies (#[trigger] ws[i]).last() != '%' by {
        assert(ws[i] == words[i]);
    }
    lemma_first_percentage(ws, k, 0);
    let ls = earlier.push(line);
    assert(ls.last() == line);
    assert(parse::progress_in(ls) == Some(ws[k]));
}

proof fn lemma_percentage(n: nat)
    requires
        n <= u32::MAX,
    ensures
        parse::without_percent(text::decimal(n).push('%')) == text::decimal(n),
        parse::is_percentage(text::decimal(n).push('%')),
        text::number_of(text::decimal(n), u32::MAX as nat) == Some(n),
{
    let d = text::decimal(n);
    text::lemma_decimal(n);
    text::law_decimal_reads_back(n, u32::MAX as nat);
    assert(d.push('%').drop_last() =~= d);
    assert(d.last() == d[d.len() - 1]);
    assert(text::is_digit(d.last()));
    assert(parse::without_percent(d) == d);
    assert(parse::without_percent(d.push('%')) == parse::without_percent(d));
}

proof fn lemma_first_percentage(ws: Seq<Seq<char>>, k: int, i: int)
    requires
        0 <= i <= k < ws.len(),
        parse::is_percentage(ws[k]),
        forall|j: int| 0 <= j < k ==> (#[trigger] ws[j]).last() != '%',
    ensures
        parse::percentage_among(ws, i) == Some(ws[k]),
    decreases k - i,
{
    if i < k {
        assert(ws[i].last() != '%');
        lemma_first_percentage(ws, k, i + 1);
    }
}

/// A line without the sign for per cent leaves the progress as the lines before it
/// have it.
pub proof fn law_other_lines_are_no_progress(earlier: Seq<Seq<char>>, line: Seq<char>)
    requires
        !line.contains('%'),
    ensures
        parse::progress_value(earlier.push(line)) == parse::progress_value(earlier),
        parse::progress_value(Seq::empty()) is None,
{
    let ls = earlier.push(line);
    assert(ls.drop_last() =~= earlier);
    let t = text::trimmed(text::after_last(line, '\r'));
    lemma_part_of_line(line);
    lemma_no_percent_words(t);
    lemma_none_among(text::words_of(t), 0);
}

proof fn lemma_part_of_line(line: Seq<char>)
    requires
        !line.contains('%'),
    ensures
        !text::trimmed(text::after_last(line, '\r')).contains('%'),
{
    lemma_after_last_has(line, '\r', '%');
    let a = text::after_last(line, '\r');
    lemma_start_has(a, '%');
    lemma_end_has(text::trimmed_start(a), '%');
}

proof fn lemma_after_last_has(s: Seq<char>, c: char, x: char)
    requires
        !s.contains(x),
    ensures
        !text::after_last(s, c).contains(x),
    decreases s.len(),
{
    if s.len() > 0 && s.last() != c {
        let r = s.drop_last();
        assert forall|i: int| 0 <= i < r.len() implies r[i] != x by {
            assert(s.contains(s[i]));
        }
        lemma_after_last_has(r, c, x);
        assert(s.contains(s[s.len() - 1]));
        let a = text::after_last(r, c);
        assert forall|i: int| 0 <= i < a.push(s.last()).len() implies a.push(s.last())[i] != x by {
            if i < a.len() {
                assert(a.contains(a[i]));
            }
        }
    }
}

proof fn lemma_start_has(s: Seq<char>, x: char)
    requires
        !s.contains(x),
    ensures
        !text::trimmed_start(s).contains(x),
    decreases s.len(),
{
    if s.len() > 0 && text::is_white(s[0]) {
        let r = s.skip(1);
        assert forall|i: int| 0 <= i < r.len() implies r[i] != x by {
            assert(s.contains(s[i + 1]));
        }
        lemma_start_has(r, x);
    }
}

proof fn lemma_end_has(s: Seq<char>, x: char)
    requires
        !s.contains(x),
    ensures
        !text::trimmed_end(s).contains(x),
    decreases s.len(),
{
    if s.len() > 0 && text::is_white(s.last()) {
        let r = s.drop_last();
        assert forall|i: int| 0 <= i < r.len() implies r[i] != x by {
            assert(s.contains(s[i]));
        }
        lemma_end_has(r, x);
    }
}

proof fn lemma_no_percent_words(s: Seq<char>)
    requires
        !s.contains('%'),
    ensures
        forall|i: int| 0 <= i < text::words_of(s).len() ==> !(#[trigger] text::words_of(s)[i]).contains('%'),
    decreases s.len(),
{
    text::lemma_trimmed_start(s);
    lemma_start_has(s, '%');
    let t = text::trimmed_start(s);
    if t.len() > 0 {
        text::lemma_word_end(t, 0);
        let e = text::word_end(t, 0);
        let r = t.skip(e);
        assert forall|i: int| 0 <= i < r.len() implies r[i] != '%' by {
            assert(t.contains(t[i + e]));
        }
        lemma_no_percent_words(r);
        assert forall|i: int| 0 <= i < t.take(e).len() implies t.take(e)[i] != '%' by {
            assert(t.contains(t[i]));
        }
        let ws = text::words_of(s);
        assert(ws == seq![t.take(e)] + text::words_of(r));
        assert forall|i: int| 0 <= i < ws.len() implies !(#[trigger] ws[i]).contains('%') by {
            if i > 0 {
                assert(ws[i] == text::words_of(r)[i - 1]);
            }
        }
    }
}

proof fn lemma_none_among(ws: Seq<Seq<char>>, i: int)
    requires
        0 <= i <= ws.len(),
        forall|k: int| 0 <= k < ws.len() ==> !(#[trigger] ws[k]).contains('%'),
    ensures
        parse::percentage_among(ws, i) is None,
    decreases ws.len() - i,
{
    if i < ws.len() {
        if ws[i].len() > 0 {
            assert(ws[i].contains(ws[i][ws[i].len() - 1]));
        }
        lemma_none_among(ws, i + 1);
    }
}

// ---------------------------------------------------------------------------
// The working directory
// ---------------------------------------------------------------------------

/// The working directory is what stands behind the colon of the first line that
/// speaks of it, without the space around it.
pub proof fn law_working_directory_is_read(
    ls: Seq<Seq<char>>,
    k: int,
    head: Seq<char>,
    before: Seq<char>,
    dir: Seq<char>,
    after: Seq<char>,
)
    requires
        0 <= k < ls.len(),
        forall|i: int| 0 <= i < k ==> !text::has_part(#[trigger] ls[i], "working directory"@),
        text::has_part(ls[k], "working directory"@),
        ls[k] == head + seq![':'] + (before + dir + after),
        !head.contains(':'),
        forall|i: int| 0 <= i < before.len() ==> text::is_white(#[trigger] before[i]),
        forall|i: int| 0 <= i < after.len() ==> text::is_white(#[trigger] after[i]),
        listing_laws::is_tight(dir),
    ensures
        parse::directory_in(ls) == Some(dir),
{
    lemma_directory_line(ls, k, 0);
    let line = ls[k];
    assert(line.take(head.len() as int) =~= head);
    lemma_colon(line, head, 0);
    assert(line.skip(head.len() as int + 1) =~= before + dir + after);
    listing_laws::law_trimming(before, dir, after);
}

proof fn lemma_directory_line(ls: Seq<Seq<char>>, k: int, i: int)
    requires
        0 <= i <= k < ls.len(),
        forall|j: int| 0 <= j < k ==> !text::has_part(#[trigger] ls[j], "working directory"@),
        text::has_part(ls[k], "working directory"@),
    ensures
        parse::directory_line(ls, i) == k,
    decreases k - i,
{
    if i < k {
        assert(!text::has_part(ls[i], "working directory"@));
        lemma_directory_line(ls, k, i + 1);
    }
}

proof fn lemma_colon(line: Seq<char>, head: Seq<char>, i: int)
    requires
        0 <= i <= head.len() < line.len(),
        line.take(head.len() as int) == head,
        line[head.len() as int] == ':',
        !head.contains(':'),
    ensures
        text::find_from(line, ':', i) == head.len(),
    decreases head.len() - i,
{
    if i < head.len() {
        assert(line[i] == head[i]);
        assert(head.contains(head[i]));
        lemma_colon(line, head, i + 1);
    }
}

// ---------------------------------------------------------------------------
// The calendar
// ---------------------------------------------------------------------------

/// The months of a year are its days, and their lengths are those of the calendar.
pub proof fn law_months_fill_the_year(y: int)
    ensures
        parse::days_before_month(y, 13) == parse::year_days(y),
        parse::month_days(y, 2) == 28 || parse::month_days(y, 2) == 29,
        parse::month_days(y, 2) == 29 <==> parse::year_days(y) == 366,
        forall|m: int|
            1 <= m <= 12 && m != 2 ==> #[trigger] parse::month_days(y, m) == (if m <= 7 {
                30 + m % 2
            } else {
                31 - m % 2
            }),
{
    reveal_with_fuel(parse::days_before_month, 14);
}

/// The days before a year are counted by the rule of the calendar: 365 for every
/// year, one more for every fourth, but for the hundredth, unless it is the four
/// hundredth.
pub proof fn law_years_follow_the_calendar(y: int)
    requires
        y >= 1970,
    ensures
        parse::days_before_year(y) == 365 * (y - 1970) + ((y - 1) / 4 - 1969int / 4) - ((y - 1) / 100
            - 1969int / 100) + ((y - 1) / 400 - 1969int / 400),
    decreases y,
{
    if y > 1970 {
        law_years_follow_the_calendar(y - 1);
        lemma_fourths(y - 1);
        lemma_hundredths(y - 1);
        lemma_four_hundredths(y - 1);
    }
}

spec fn one_if(b: bool) -> int {
    if b {
        1
    } else {
        0
    }
}

proof fn lemma_fourths(x: int)
    ensures
        x / 4 == (x - 1) / 4 + one_if(x % 4 == 0),
{
}

proof fn lemma_hundredths(x: int)
    ensures
        x / 100 == (x - 1) / 100 + one_if(x % 100 == 0),
        x % 100 == 0 ==> x % 4 == 0,
{
}

proof fn lemma_four_hundredths(x: int)
    ensures
        x / 400 == (x - 1) / 400 + one_if(x % 400 == 0),
        x % 400 == 0 ==> x % 100 == 0,
{
}

/// The time of the last change is shown as year, month, day, hour and minute, each
/// read back from its place.
pub proof fn law_time_of_change_is_shown(
    name: Seq<char>,
    meta: ItemMeta,
    secs: u64,
    y: nat,
    m: nat,
    d: nat,
    h: nat,
    mi: nat,
)
    requires
        meta.modified == Some(secs),
        parse::is_date(y as int, m as int, d as int),
        y < 10000,
        h < 24,
        mi < 60,
        secs / 60 == (parse::day_number(y as int, m as int, d as int) * 24 + h) * 60 + mi,
    ensures
        ({
            let s = parse::item_entry(name, Some(meta)).modified;
            &&& s.len() == 16
            &&& text::all_digits(s.subrange(0, 4)) && text::digits_value(s.subrange(0, 4)) == y
            &&& s[4] == '-'
            &&& text::all_digits(s.subrange(5, 7)) && text::digits_value(s.subrange(5, 7)) == m
            &&& s[7] == '-'
            &&& text::all_digits(s.subrange(8, 10)) && text::digits_value(s.subrange(8, 10)) == d
            &&& s[10] == ' '
            &&& text::all_digits(s.subrange(11, 13)) && text::digits_value(s.subrange(11, 13)) == h
            &&& s[13] == ':'
            &&& text::all_digits(s.subrange(14, 16)) && text::digits_value(s.subrange(14, 16)) == mi
        }),
{
    let day = parse::day_number(y as int, m as int, d as int);
    lemma_day_fits(y as int, m as int, d as int);
    assert(secs as int / 60 == (day * 24 + h) * 60 + mi);
    assert(secs as int / 3600 == day * 24 + h);
    assert(secs as int / 86400 == day);
    assert(day % 0x1_0000_0000 == day);
    assert((secs as int / 60) % 60 == mi);
    assert((secs as int / 3600) % 24 == h);
    assert(parse::is_moment(secs as nat, y, m, d, h, mi));
    let (y1, m1, d1, h1, mi1) = choose|y1: nat, m1: nat, d1: nat, h1: nat, mi1: nat|
        parse::is_moment(secs as nat, y1, m1, d1, h1, mi1);
    assert(parse::is_moment(secs as nat, y1, m1, d1, h1, mi1));
    parse::law_day_number_tells_dates_apart(
        y1 as int,
        m1 as int,
        d1 as int,
        y as int,
        m as int,
        d as int,
    );
    let s = parse::item_entry(name, Some(meta)).modified;
    assert(s == parse::moment_text(y, m, d, h, mi));
    reveal_strlit("-");
    reveal_strlit(" ");
    reveal_strlit(":");
    lemma_padded(y, 4);
    lemma_padded(m, 2);
    lemma_padded(d, 2);
    lemma_padded(h, 2);
    lemma_padded(mi, 2);
    assert(s.subrange(0, 4) =~= text::zero_padded(text::decimal(y), 4));
    assert(s.subrange(5, 7) =~= text::zero_padded(text::decimal(m), 2));
    assert(s.subrange(8, 10) =~= text::zero_padded(text::decimal(d), 2));
    assert(s.subrange(11, 13) =~= text::zero_padded(text::decimal(h), 2));
    assert(s.subrange(14, 16) =~= text::zero_padded(text::decimal(mi), 2));
}

proof fn lemma_day_fits(y: int, m: int, d: int)
    requires
        parse::is_date(y, m, d),
        y < 10000,
    ensures
        0 <= parse::day_number(y, m, d) < 0x1_0000_0000,
{
    law_years_follow_the_calendar(y);
    reveal_with_fuel(parse::days_before_month, 13);
}

spec fn power_of_ten(w: nat) -> nat
    decreases w,
{
    if w == 0 {
        1
    } else {
        10 * power_of_ten((w - 1) as nat)
    }
}

proof fn lemma_decimal_length(n: nat, w: nat)
    requires
        w > 0,
        n < power_of_ten(w),
    ensures
        text::decimal(n).len() <= w,
    decreases w,
{
    if n >= 10 {
        if w == 1 {
            assert(power_of_ten(1) == 10) by {
                reveal_with_fuel(power_of_ten, 2);
            }
        }
        lemma_decimal_length(n / 10, (w - 1) as nat);
    }
}

proof fn lemma_padded(n: nat, w: nat)
    requires
        w == 2 && n < 100 || w == 4 && n < 10000,
    ensures
        text::zero_padded(text::decimal(n), w).len() == w,
        text::all_digits(text::zero_padded(text::decimal(n), w)),
        text::digits_value(text::zero_padded(text::decimal(n), w)) == n,
{
    reveal_with_fuel(power_of_ten, 5);
    lemma_decimal_length(n, w);
    text::lemma_decimal(n);
    lemma_zeros((w - text::decimal(n).len()) as nat, text::decimal(n));
}

proof fn lemma_zeros(k: nat, s: Seq<char>)
    requires
        text::all_digits(s),
    ensures
        text::all_digits(Seq::new(k, |i: int| '0') + s),
        text::digits_value(Seq::new(k, |i: int| '0') + s) == text::digits_value(s),
    decreases s.len() + k,
{
    let z = Seq::new(k, |i: int| '0');
    if s.len() > 0 {
        assert(text::all_digits(s.drop_last()));
        lemma_zeros(k, s.drop_last());
        assert((z + s).drop_last() =~= z + s.drop_last());
    } else if k > 0 {
        lemma_zeros((k - 1) as nat, s);
        assert((z + s).drop_last() =~= Seq::new((k - 1) as nat, |i: int| '0') + s);
        assert(s =~= Seq::empty());
    } else {
        assert(z + s =~= s);
    }
}

// ---------------------------------------------------------------------------
// Escape sequences
// ---------------------------------------------------------------------------

/// A control sequence is dropped from the output, up to the byte that ends it, and
/// nothing before or behind it.
pub proof fn law_control_sequences_are_dropped(
    before: Seq<u8>,
    parameters: Seq<u8>,
    end: u8,
    after: Seq<u8>,
)
    requires
        !before.contains(0x1b),
        forall|i: int|
            0 <= i < parameters.len() ==> !(0x40 <= #[trigger] parameters[i] <= 0x7e),
        0x40 <= end <= 0x7e,
    ensures
        parse::stripped(before + (seq![0x1bu8, 0x5b] + parameters).push(end) + after) == before
            + parse::stripped(after),
{
    let q = (seq![0x1bu8, 0x5b] + parameters).push(end);
    let raw = before + q + after;
    let n = before.len() as int;
    let e = n + q.len();
    lemma_csi(raw, n + 2, e - 1);
    assert(raw.take(n) =~= before);
    lemma_strip_from(raw, before, 0);
    assert(raw[n] == 0x1b && raw[n + 1] == 0x5b);
    assert(raw.skip(e) =~= after);
    lemma_strip_skip(raw, e, e);
    assert(parse::stripped_from(raw, n) == parse::stripped_from(raw, e));
    assert(before.skip(0) =~= before);
}

proof fn lemma_csi(raw: Seq<u8>, j: int, e: int)
    requires
        0 <= j <= e < raw.len(),
        0x40 <= raw[e] <= 0x7e,
        forall|i: int| j <= i < e ==> !(0x40 <= #[trigger] raw[i] <= 0x7e),
    ensures
        parse::csi_end(raw, j) == e + 1,
    decreases e - j,
{
    if j < e {
        assert(!(0x40 <= raw[j] <= 0x7e));
        lemma_csi(raw, j + 1, e);
    }
}

proof fn lemma_strip_from(raw: Seq<u8>, before: Seq<u8>, i: int)
    requires
        0 <= i <= before.len() <= raw.len(),
        raw.take(before.len() as int) == before,
        !before.contains(0x1b),
    ensures
        parse::stripped_from(raw, i) == before.skip(i) + parse::stripped_from(
            raw,
            before.len() as int,
        ),
    decreases before.len() - i,
{
    if i < before.len() {
        assert(raw[i] == before[i]);
        assert(before.contains(before[i]));
        lemma_strip_from(raw, before, i + 1);
        assert(seq![before[i]] + before.skip(i + 1) =~= before.skip(i));
        let rest = parse::stripped_from(raw, before.len() as int);
        assert(seq![before[i]] + (before.skip(i + 1) + rest) =~= before.skip(i) + rest);
    } else {
        let rest = parse::stripped_from(raw, before.len() as int);
        assert(before.skip(i) + rest =~= rest);
    }
}

proof fn lemma_csi_skip(raw: Seq<u8>, k: int, j: int)
    requires
        0 <= k <= j,
        k <= raw.len(),
    ensures
        parse::csi_end(raw, j) == k + parse::csi_end(raw.skip(k), j - k),
        parse::osc_end(raw, j) == k + parse::osc_end(raw.skip(k), j - k),
        j <= raw.len() ==> parse::csi_end(raw, j) >= j && parse::osc_end(raw, j) >= j,
        parse::csi_end(raw, j) <= raw.len() && parse::osc_end(raw, j) <= raw.len(),
    decreases raw.len() - j,
{
    if j < raw.len() {
        lemma_csi_skip(raw, k, j + 1);
        assert(raw[j] == raw.skip(k)[j - k]);
        if j + 1 < raw.len() {
            assert(raw[j + 1] == raw.skip(k)[j + 1 - k]);
        }
    }
}

proof fn lemma_strip_skip(raw: Seq<u8>, k: int, i: int)
    requires
        0 <= k <= i,
        k <= raw.len(),
    ensures
        parse::stripped_from(raw, i) == parse::stripped_from(raw.skip(k), i - k),
    decreases raw.len() - i,
{
    if i < raw.len() {
        assert(raw[i] == raw.skip(k)[i - k]);
        if raw[i] == 0x1b {
            lemma_csi_skip(raw, k, i + 2);
            if i + 1 < raw.len() {
                assert(raw[i + 1] == raw.skip(k)[i + 1 - k]);
            }
            let e = parse::sequence_end(raw, i);
            assert(e == k + parse::sequence_end(raw.skip(k), i - k));
            assert(e > i);
            lemma_strip_skip(raw, k, e);
        } else {
            lemma_strip_skip(raw, k, i + 1);
        }
    }
}

/// A command to the terminal is dropped from the output, up to the bell or the sequence
/// that ends it, and nothing before or behind it.
pub proof fn law_terminal_commands_are_dropped(
    before: Seq<u8>,
    command: Seq<u8>,
    after: Seq<u8>,
)
    requires
        !before.contains(0x1b),
        !command.contains(0x1b),
        !command.contains(0x07),
    ensures
        parse::stripped(before + (seq![0x1bu8, 0x5d] + command).push(0x07) + after) == before
            + parse::stripped(after),
        parse::stripped(before + (seq![0x1bu8, 0x5d] + command).push(0x1b).push(0x5c) + after)
            == before + parse::stripped(after),
{
    let n = before.len() as int;
    let q = (seq![0x1bu8, 0x5d] + command).push(0x07);
    let raw = before + q + after;
    let e = n + q.len();
    assert forall|i: int| n + 2 <= i < e - 1 implies #[trigger] raw[i] != 0x07 && raw[i] != 0x1b by {
        assert(raw[i] == command[i - n - 2]);
        assert(command.contains(command[i - n - 2]));
    }
    lemma_osc(raw, n + 2, e - 1, e);
    lemma_dropped(raw, before, n, e, after);
    let r = (seq![0x1bu8, 0x5d] + command).push(0x1b).push(0x5c);
    let raw2 = before + r + after;
    let e2 = n + r.len();
    assert forall|i: int| n + 2 <= i < e2 - 2 implies #[trigger] raw2[i] != 0x07 && raw2[i]
        != 0x1b by {
        assert(raw2[i] == command[i - n - 2]);
        assert(command.contains(command[i - n - 2]));
    }
    lemma_osc(raw2, n + 2, e2 - 2, e2);
    lemma_dropped(raw2, before, n, e2, after);
}

proof fn lemma_osc(raw: Seq<u8>, j: int, m: int, e: int)
    requires
        0 <= j <= m < e <= raw.len(),
        e == m + 1 && raw[m] == 0x07 || e == m + 2 && raw[m] == 0x1b && raw[m + 1] == 0x5c,
        forall|i: int| j <= i < m ==> #[trigger] raw[i] != 0x07 && raw[i] != 0x1b,
    ensures
        parse::osc_end(raw, j) == e,
    decreases m - j,
{
    if j < m {
        assert(raw[j] != 0x07 && raw[j] != 0x1b);
        lemma_osc(raw, j + 1, m, e);
    }
}

proof fn lemma_dropped(raw: Seq<u8>, before: Seq<u8>, n: int, e: int, after: Seq<u8>)
    requires
        n == before.len(),
        n < e <= raw.len(),
        raw.take(n) =~= before,
        !before.contains(0x1b),
        raw[n] == 0x1b,
        parse::sequence_end(raw, n) == e,
        raw.skip(e) =~= after,
    ensures
        parse::stripped(raw) == before + parse::stripped(after),
{
    lemma_strip_from(raw, before, 0);
    lemma_strip_skip(raw, e, e);
    assert(before.skip(0) =~= before);
}

/// Where no line speaks of the working directory, it is the first line that is nothing
/// but a path.
pub proof fn law_bare_path_is_read(ls: Seq<Seq<char>>, k: int, dir: Seq<char>)
    requires
        0 <= k < ls.len(),
        forall|i: int|
            0 <= i < ls.len() ==> !text::has_part(#[trigger] ls[i], "working directory"@),
        ls[k] == dir,
        listing_laws::is_tight(dir),
        dir[0] == '/' || dir[0] == '~',
        !dir.contains(' '),
        forall|i: int|
            0 <= i < k ==> text::trimmed(#[trigger] ls[i]).len() == 0 || (text::trimmed(ls[i])[0]
                != '/' && text::trimmed(ls[i])[0] != '~') || text::trimmed(ls[i]).contains(' '),
    ensures
        parse::directory_in(ls) == Some(dir),
{
    lemma_no_directory_line(ls, 0);
    listing_laws::law_trimming(Seq::empty(), dir, Seq::empty());
    assert(Seq::<char>::empty() + dir + Seq::<char>::empty() =~= dir);
    lemma_path_line(ls, k, 0);
}

proof fn lemma_no_directory_line(ls: Seq<Seq<char>>, i: int)
    requires
        0 <= i <= ls.len(),
        forall|j: int|
            0 <= j < ls.len() ==> !text::has_part(#[trigger] ls[j], "working directory"@),
    ensures
        parse::directory_line(ls, i) == ls.len(),
    decreases ls.len() - i,
{
    if i < ls.len() {
        assert(!text::has_part(ls[i], "working directory"@));
        lemma_no_directory_line(ls, i + 1);
    }
}

proof fn lemma_path_line(ls: Seq<Seq<char>>, k: int, i: int)
    requires
        0 <= i <= k < ls.len(),
        parse::is_bare_path(ls[k]),
        forall|j: int|
            0 <= j < k ==> text::trimmed(#[trigger] ls[j]).len() == 0 || (text::trimmed(ls[j])[0]
                != '/' && text::trimmed(ls[j])[0] != '~') || text::trimmed(ls[j]).contains(' '),
    ensures
        parse::path_line(ls, i) == k,
    decreases k - i,
{
    if i < k {
        assert(!parse::is_bare_path(ls[i]));
        lemma_path_line(ls, k, i + 1);
    }
}

/// Any other escape is dropped together with the byte behind it.
pub proof fn law_other_escapes_are_dropped(before: Seq<u8>, b: u8, after: Seq<u8>)
    requires
        !before.contains(0x1b),
        b != 0x5b,
        b != 0x5d,
    ensures
        parse::stripped(before + seq![0x1bu8, b] + after) == before + parse::stripped(after),
{
    let n = before.len() as int;
    let raw = before + seq![0x1bu8, b] + after;
    assert(raw[n] == 0x1b && raw[n + 1] == b);
    lemma_dropped(raw, before, n, n + 2, after);
}

} // verus!
