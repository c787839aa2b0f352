//! Reading what `sftp`, `ssh` and `scp` print, and listing directories.
use vstd::prelude::*;
use crate::text;
use vstd::slice::slice_subrange;
use crate::text::{
    cat, cat4, cat5, chars_of, contains, decimal_of, decimal_padded, decode_lossy, find,
    find_str, has_char, less, lines, parse_number, same, starts_with, string_of,
    tail_after, trim, trim_end, trim_start, words, ascii_white, to_lowercase,
};

verus! {

// ---------------------------------------------------------------------------
// Escape sequences
// ---------------------------------------------------------------------------

/// The escape byte that opens a control sequence.
pub const ESC: u8 = 0x1b;

/// The place after a control sequence (`ESC [`) whose parameters begin at `j`.
pub open spec fn csi_end(raw: Seq<u8>, j: int) -> int
    decreases raw.len() - j,
{
    if j >= raw.len() {
        raw.len() as int
    } else if 0x40 <= raw[j] <= 0x7e {
        j + 1
    } else {
        csi_end(raw, j + 1)
    }
}

/// The place after an operating system command (`ESC ]`) whose text begins at
/// `j`; a bell or `ESC \` ends it.
pub open spec fn osc_end(raw: Seq<u8>, j: int) -> int
    decreases raw.len() - j,
{
    if j >= raw.len() {
        raw.len() as int
    } else if raw[j] == 0x07 {
        j + 1
    } else if raw[j] == ESC && j + 1 < raw.len() && raw[j + 1] == 0x5c {
        j + 2
    } else {
        osc_end(raw, j + 1)
    }
}

/// The place after the escape sequence that begins at `i`.
pub open spec fn sequence_end(raw: Seq<u8>, i: int) -> int {
    if i + 1 >= raw.len() {
        raw.len() as int
    } else if raw[i + 1] == 0x5b {
        csi_end(raw, i + 2)
    } else if raw[i + 1] == 0x5d {
        osc_end(raw, i + 2)
    } else {
        i + 2
    }
}

proof fn lemma_csi_end(raw: Seq<u8>, j: int)
    requires
        0 <= j <= raw.len(),
    ensures
        j <= csi_end(raw, j) <= raw.len(),
    decreases raw.len() - j,
{
    if j < raw.len() && !(0x40 <= raw[j] <= 0x7e) {
        lemma_csi_end(raw, j + 1);
    }
}

proof fn lemma_osc_end(raw: Seq<u8>, j: int)
    requires
        0 <= j <= raw.len(),
    ensures
        j <= osc_end(raw, j) <= raw.len(),
    decreases raw.len() - j,
{
    if j < raw.len() && raw[j] != 0x07 {
        lemma_osc_end(raw, j + 1);
    }
}

proof fn lemma_sequence_end(raw: Seq<u8>, i: int)
    requires
        0 <= i < raw.len(),
    ensures
        i < sequence_end(raw, i) <= raw.len(),
{
    if i + 1 < raw.len() {
        lemma_csi_end(raw, i + 2);
        lemma_osc_end(raw, i + 2);
    }
}

/// What is left of `raw` from `i` on without its escape sequences.
pub open spec fn stripped_from(raw: Seq<u8>, i: int) -> Seq<u8>
    decreases raw.len() - i,
    when 0 <= i
    via stripped_from_decreases
{
    if i >= raw.len() {
        Seq::empty()
    } else if raw[i] == ESC {
        stripped_from(raw, sequence_end(raw, i))
    } else {
        seq![raw[i]] + stripped_from(raw, i + 1)
    }
}

#[via_fn]
proof fn stripped_from_decreases(raw: Seq<u8>, i: int) {
    if 0 <= i < raw.len() {
        lemma_sequence_end(raw, i);
    }
}

/// `raw` without its escape sequences.
pub open spec fn stripped(raw: Seq<u8>) -> Seq<u8> {
    stripped_from(raw, 0)
}

/// Drops every escape sequence from `raw`.
pub fn strip_escapes(raw: &[u8]) -> (out: Vec<u8>)
    ensures
        out@ == stripped(raw@),
{
    let mut out: Vec<u8> = Vec::new();
    let mut i: usize = 0;
    assert(out@ + stripped_from(raw@, 0) =~= stripped(raw@));
    while i < raw.len()
        invariant
            i <= raw@.len(),
            out@ + stripped_from(raw@, i as int) == stripped(raw@),
        decreases raw@.len() - i,
    {
        if raw[i] == ESC {
            proof {
                lemma_sequence_end(raw@, i as int);
            }
            i = skip_sequence(raw, i);
        } else {
            let ghost before = out@;
            out.push(raw[i]);
            assert(out@ + stripped_from(raw@, i + 1) =~= before + (seq![raw@[i as int]]
                + stripped_from(raw@, i + 1)));
            i += 1;
        }
    }
    assert(out@ + stripped_from(raw@, i as int) =~= out@);
    out
}

fn skip_sequence(raw: &[u8], i: usize) -> (r: usize)
    requires
        i < raw@.len(),
        raw@[i as int] == ESC,
    ensures
        r == sequence_end(raw@, i as int),
{
    let n: usize = raw.len();
    if i + 1 >= n {
        return n;
    }
    let kind: u8 = raw[i + 1];
    let mut j: usize = i + 2;
    if kind == 0x5b {
        while j < n && !(0x40 <= raw[j] && raw[j] <= 0x7e)
            invariant
                j <= n == raw@.len(),
                csi_end(raw@, j as int) == csi_end(raw@, i + 2),
            decreases n - j,
        {
            j += 1;
        }
        if j < n {
            j + 1
        } else {
            n
        }
    } else if kind == 0x5d {
        while j < n && raw[j] != 0x07
            invariant
                j <= n == raw@.len(),
                osc_end(raw@, j as int) == osc_end(raw@, i + 2),
                sequence_end(raw@, i as int) == osc_end(raw@, i + 2),
            decreases n - j,
        {
            if raw[j] == ESC && j + 1 < n && raw[j + 1] == 0x5c {
                return j + 2;
            }
            j += 1;
        }
        if j < n {
            j + 1
        } else {
            n
        }
    } else {
        j
    }
}

/// Removes all terminal escape sequences from raw output and decodes the rest.
/// No escape character is left in the text, whatever the bytes are.
pub fn strip_ansi(raw: &[u8]) -> (s: String)
    ensures
        s@ == text::utf8_lossy(stripped(raw@)),
        vstd::utf8::valid_utf8(stripped(raw@)) ==> s@ == vstd::utf8::decode_utf8(stripped(raw@)),
        !s@.contains('\u{1b}'),
{
    let out = strip_escapes(raw);
    let s = decode_lossy(out.as_slice());
    proof {
        law_stripped_has_no_escape(raw@);
        if s@.contains('\u{1b}') {
            let i = choose|i: int| 0 <= i < s@.len() && s@[i] == '\u{1b}';
            assert(out@.contains(s@[i] as u8));
        }
    }
    s
}

/// No escape byte is left in stripped output.
pub proof fn law_stripped_has_no_escape(raw: Seq<u8>)
    ensures
        !stripped(raw).contains(ESC),
{
    lemma_no_escape(raw, 0);
}

proof fn lemma_no_escape(raw: Seq<u8>, i: int)
    requires
        0 <= i <= raw.len(),
    ensures
        !stripped_from(raw, i).contains(ESC),
    decreases raw.len() - i,
{
    if i < raw.len() {
        if raw[i] == ESC {
            lemma_sequence_end(raw, i);
            lemma_no_escape(raw, sequence_end(raw, i));
        } else {
            lemma_no_escape(raw, i + 1);
            let rest = stripped_from(raw, i + 1);
            let all = seq![raw[i]] + rest;
            assert forall|k: int| 0 <= k < all.len() implies all[k] != ESC by {
                if k > 0 {
                    assert(all[k] == rest[k - 1]);
                }
            }
        }
    }
}

/// Output without an escape byte is left as it is.
pub proof fn law_plain_output_kept(raw: Seq<u8>)
    requires
        !raw.contains(ESC),
    ensures
        stripped(raw) == raw,
{
    lemma_plain_kept(raw, 0);
    assert(raw.skip(0) =~= raw);
}

proof fn lemma_plain_kept(raw: Seq<u8>, i: int)
    requires
        0 <= i <= raw.len(),
        !raw.contains(ESC),
    ensures
        stripped_from(raw, i) == raw.skip(i),
    decreases raw.len() - i,
{
    if i < raw.len() {
        assert(raw.contains(raw[i]));
        lemma_plain_kept(raw, i + 1);
        assert(seq![raw[i]] + raw.skip(i + 1) =~= raw.skip(i));
    } else {
        assert(raw.skip(i) =~= Seq::empty());
    }
}

// ---------------------------------------------------------------------------
// The remote working directory
// ---------------------------------------------------------------------------

/// Whether the line says what the working directory is.
pub open spec fn names_directory(line: Seq<char>) -> bool {
    text::has_part(line, "working directory"@)
}

/// Whether the line is a path by itself.
pub open spec fn is_bare_path(line: Seq<char>) -> bool {
    let t = text::trimmed(line);
    t.len() > 0 && (t[0] == '/' || t[0] == '~') && !t.contains(' ')
}

/// The first line from `i` on that says what the working directory is.
pub open spec fn directory_line(ls: Seq<Seq<char>>, i: int) -> int
    decreases ls.len() - i,
{
    if i >= ls.len() {
        ls.len() as int
    } else if names_directory(ls[i]) {
        i
    } else {
        directory_line(ls, i + 1)
    }
}

/// The first line from `i` on that is a path by itself.
pub open spec fn path_line(ls: Seq<Seq<char>>, i: int) -> int
    decreases ls.len() - i,
{
    if i >= ls.len() {
        ls.len() as int
    } else if is_bare_path(ls[i]) {
        i
    } else {
        path_line(ls, i + 1)
    }
}

/// What follows the first colon, trimmed; nothing where there is no colon.
pub open spec fn after_colon(line: Seq<char>) -> Seq<char> {
    let i = text::find_from(line, ':', 0);
    if i < line.len() {
        text::trimmed(line.skip(i + 1))
    } else {
        Seq::empty()
    }
}

/// The directory that the output of `pwd` names: what follows the colon on the
/// line that says so, else the first line that is a path by itself.
pub open spec fn directory_in(ls: Seq<Seq<char>>) -> Option<Seq<char>> {
    let i = directory_line(ls, 0);
    if i < ls.len() && after_colon(ls[i]).len() > 0 {
        Some(after_colon(ls[i]))
    } else {
        let j = path_line(ls, 0);
        if j < ls.len() {
            Some(text::trimmed(ls[j]))
        } else {
            None
        }
    }
}

/// Extracts the remote working directory from the output of `pwd`.
pub fn parse_pwd(lines: &[String]) -> (r: Option<String>)
    ensures
        match r {
            Some(p) => directory_in(text::texts(lines@)) == Some(p@),
            None => directory_in(text::texts(lines@)) is None,
        },
{
    let ghost ls = text::texts(lines@);
    let mut i: usize = 0;
    while i < lines.len()
        invariant
            ls == text::texts(lines@),
            i <= lines@.len(),
            directory_line(ls, i as int) == directory_line(ls, 0),
        decreases lines@.len() - i,
    {
        let line = chars_of(lines[i].as_str());
        assert(ls[i as int] == line@);
        if contains(line.as_slice(), "working directory") {
            let at: usize = find(line.as_slice(), ':', 0);
            if at < line.len() {
                let rest = slice_subrange(line.as_slice(), at + 1, line.len());
                assert(rest@ =~= line@.skip(at + 1));
                let p = trim(rest);
                if p.len() > 0 {
                    return Some(string_of(p));
                }
            }
            return bare_path(lines);
        }
        i += 1;
    }
    bare_path(lines)
}

fn bare_path(lines: &[String]) -> (r: Option<String>)
    ensures
        ({
            let ls = text::texts(lines@);
            let j = path_line(ls, 0);
            match r {
                Some(p) => 0 <= j < ls.len() && p@ == text::trimmed(ls[j]),
                None => j >= ls.len(),
            }
        }),
{
    let ghost ls = text::texts(lines@);
    let mut i: usize = 0;
    while i < lines.len()
        invariant
            ls == text::texts(lines@),
            i <= lines@.len(),
            path_line(ls, i as int) == path_line(ls, 0),
        decreases lines@.len() - i,
    {
        let line = chars_of(lines[i].as_str());
        assert(ls[i as int] == line@);
        let t = trim(line.as_slice());
        if t.len() > 0 && (t[0] == '/' || t[0] == '~') && !has_char(t, ' ') {
            return Some(string_of(t));
        }
        i += 1;
    }
    None
}

// ---------------------------------------------------------------------------
// Directory entries
// ---------------------------------------------------------------------------

/// A single entry in a directory listing (local or remote).
#[derive(Debug)]
pub struct FsEntry {
    pub name: String,
    pub is_dir: bool,
    /// A symbolic link in a remote listing. Until it is entered it is taken
    /// for a directory.
    pub is_link: bool,
    pub size: String,
    pub perms: String,
    pub modified: String,
}

/// What a directory entry shows.
#[verifier::ext_equal]
pub struct EntryView {
    pub name: Seq<char>,
    pub is_dir: bool,
    pub is_link: bool,
    pub size: Seq<char>,
    pub perms: Seq<char>,
    pub modified: Seq<char>,
}

impl View for FsEntry {
    type V = EntryView;

    open spec fn view(&self) -> EntryView {
        EntryView {
            name: self.name@,
            is_dir: self.is_dir,
            is_link: self.is_link,
            size: self.size@,
            perms: self.perms@,
            modified: self.modified@,
        }
    }
}

/// What the entries of a listing show.
pub open spec fn entries_view(v: Seq<FsEntry>) -> Seq<EntryView> {
    v.map_values(|e: FsEntry| e@)
}

/// The entry with nothing in it.
pub open spec fn blank_entry() -> EntryView {
    EntryView {
        name: Seq::empty(),
        is_dir: false,
        is_link: false,
        size: Seq::empty(),
        perms: Seq::empty(),
        modified: Seq::empty(),
    }
}

/// The entry that stands for the parent directory.
pub open spec fn parent_entry() -> EntryView {
    EntryView { name: ".."@, is_dir: true, ..blank_entry() }
}

impl Default for FsEntry {
    fn default() -> (e: FsEntry)
        ensures
            e@ == blank_entry(),
    {
        FsEntry {
            name: String::new(),
            is_dir: false,
            is_link: false,
            size: String::new(),
            perms: String::new(),
            modified: String::new(),
        }
    }
}

impl Clone for FsEntry {
    fn clone(&self) -> (e: FsEntry)
        ensures
            e == *self,
    {
        FsEntry {
            name: self.name.clone(),
            is_dir: self.is_dir,
            is_link: self.is_link,
            size: self.size.clone(),
            perms: self.perms.clone(),
            modified: self.modified.clone(),
        }
    }
}

fn parent_link() -> (e: FsEntry)
    ensures
        e@ == parent_entry(),
{
    FsEntry {
        name: "..".to_owned(),
        is_dir: true,
        is_link: false,
        size: String::new(),
        perms: String::new(),
        modified: String::new(),
    }
}

// ---------------------------------------------------------------------------
// Order of a listing
// ---------------------------------------------------------------------------

/// Whether `a` may stand before `b`: directories come first, then names in
/// the order of their code points.
pub open spec fn may_precede(a: EntryView, b: EntryView) -> bool {
    (a.is_dir && !b.is_dir) || (a.is_dir == b.is_dir && !text::precedes(b.name, a.name))
}

/// `s` with `e` put after the last entry that may precede it.
pub open spec fn with_entry(s: Seq<EntryView>, e: EntryView) -> Seq<EntryView>
    decreases s.len(),
{
    if s.len() == 0 || may_precede(s.last(), e) {
        s.push(e)
    } else {
        with_entry(s.drop_last(), e).push(s.last())
    }
}

/// `s` in order; entries of one kind and name stay as they were.
pub open spec fn in_order(s: Seq<EntryView>) -> Seq<EntryView>
    decreases s.len(),
{
    if s.len() == 0 {
        s
    } else {
        with_entry(in_order(s.drop_last()), s.last())
    }
}

/// The listing of a directory with these entries: the link to the parent
/// directory comes first.
pub open spec fn listing_of(s: Seq<EntryView>) -> Seq<EntryView> {
    seq![parent_entry()] + in_order(s)
}

proof fn lemma_with_entry(s: Seq<EntryView>, e: EntryView)
    ensures
        with_entry(s, e).len() == s.len() + 1,
        with_entry(s, e).to_multiset() == s.to_multiset().insert(e),
        (forall|i: int, j: int| 0 <= i < j < s.len() ==> may_precede(s[i], s[j])) ==> forall|
            i: int,
            j: int,
        |
            0 <= i < j <= s.len() ==> may_precede(with_entry(s, e)[i], with_entry(s, e)[j]),
    decreases s.len(),
{
    broadcast use vstd::seq_lib::group_to_multiset_ensures;

    let t = with_entry(s, e);
    if s.len() == 0 || may_precede(s.last(), e) {
        if forall|i: int, j: int| 0 <= i < j < s.len() ==> may_precede(s[i], s[j]) {
            assert forall|i: int, j: int| 0 <= i < j <= s.len() implies may_precede(t[i], t[j]) by {
                if j == s.len() {
                    if i < s.len() - 1 {
                        assert(may_precede(s[i], s.last()));
                        lemma_may_precede_trans(s[i], s.last(), e);
                    }
                }
            }
        }
    } else {
        let l = s.last();
        let r = s.drop_last();
        lemma_with_entry(r, e);
        assert(s =~= r.push(l));
        assert(t.to_multiset() =~= r.to_multiset().insert(e).insert(l));
        assert(s.to_multiset().insert(e) =~= r.to_multiset().insert(l).insert(e));
        if forall|i: int, j: int| 0 <= i < j < s.len() ==> may_precede(s[i], s[j]) {
            assert(forall|i: int, j: int| 0 <= i < j < r.len() ==> may_precede(r[i], r[j]));
            let u = with_entry(r, e);
            lemma_may_precede_total(l, e);
            assert forall|i: int, j: int| 0 <= i < j <= s.len() implies may_precede(t[i], t[j]) by {
                if j == s.len() {
                    assert(t[i] == u[i]);
                    assert(u.contains(u[i]));
                    assert(u.to_multiset().count(u[i]) > 0);
                    if u[i] != e {
                        assert(r.to_multiset().count(u[i]) > 0);
                        assert(r.contains(u[i]));
                        let k = choose|k: int| 0 <= k < r.len() && r[k] == u[i];
                        assert(may_precede(s[k], s[s.len() - 1]));
                    }
                }
            }
        }
    }
}

proof fn lemma_may_precede_trans(a: EntryView, b: EntryView, c: EntryView)
    requires
        may_precede(a, b),
        may_precede(b, c),
    ensures
        may_precede(a, c),
{
    text::lemma_precedes_total(a.name, b.name);
    text::lemma_precedes_total(b.name, c.name);
    text::lemma_precedes_total(a.name, c.name);
    if text::precedes(c.name, a.name) {
        if text::precedes(a.name, b.name) {
            text::lemma_precedes_trans(c.name, a.name, b.name);
        }
    }
}

proof fn lemma_may_precede_total(a: EntryView, b: EntryView)
    ensures
        may_precede(a, b) || may_precede(b, a),
{
    text::lemma_precedes_total(a.name, b.name);
}

/// A listing holds each entry once, after the link to the parent directory,
/// with directories before files and names in order.
pub proof fn law_listing_is_sorted(s: Seq<EntryView>)
    ensures
        listing_of(s).len() == s.len() + 1,
        listing_of(s)[0] == parent_entry(),
        listing_of(s).skip(1).to_multiset() == s.to_multiset(),
        forall|i: int, j: int|
            1 <= i < j < listing_of(s).len() ==> may_precede(listing_of(s)[i], listing_of(s)[j]),
{
    lemma_in_order(s);
    assert(listing_of(s).skip(1) =~= in_order(s));
}

proof fn lemma_in_order(s: Seq<EntryView>)
    ensures
        in_order(s).len() == s.len(),
        in_order(s).to_multiset() == s.to_multiset(),
        forall|i: int, j: int|
            0 <= i < j < s.len() ==> may_precede(in_order(s)[i], in_order(s)[j]),
    decreases s.len(),
{
    broadcast use vstd::seq_lib::group_to_multiset_ensures;

    if s.len() > 0 {
        lemma_in_order(s.drop_last());
        lemma_with_entry(in_order(s.drop_last()), s.last());
        assert(s =~= s.drop_last().push(s.last()));
    }
}

fn precedes_entry(a: &FsEntry, b: &FsEntry) -> (r: bool)
    ensures
        r == may_precede(a@, b@),
{
    (a.is_dir && !b.is_dir) || (a.is_dir == b.is_dir && !less(b.name.as_str(), a.name.as_str()))
}

/// Puts `e` into an ordered run of entries.
fn insert_entry(v: &mut Vec<FsEntry>, e: FsEntry)
    ensures
        entries_view(final(v)@) == with_entry(entries_view(old(v)@), e@),
{
    let ghost all = entries_view(v@);
    let mut n: usize = v.len();
    assert(all.take(n as int) =~= all);
    assert(all.skip(n as int) =~= Seq::empty());
    assert(with_entry(all, e@) =~= with_entry(all.take(n as int), e@) + all.skip(n as int));
    while n > 0 && !precedes_entry(&v[n - 1], &e)
        invariant
            n <= v@.len(),
            all == entries_view(v@),
            with_entry(all, e@) == with_entry(all.take(n as int), e@) + all.skip(n as int),
        decreases n,
    {
        let ghost t = all.take(n as int);
        assert(t.last() == v@[n - 1]@);
        assert(t.drop_last() =~= all.take(n - 1));
        assert(with_entry(t.drop_last(), e@).push(t.last()) + all.skip(n as int) =~= with_entry(
            t.drop_last(),
            e@,
        ) + all.skip(n - 1));
        n -= 1;
    }
    proof {
        let t = all.take(n as int);
        if n > 0 {
            assert(t.last() == v@[n - 1]@);
        }
        assert(with_entry(t, e@) == t.push(e@));
    }
    let ghost view = e@;
    v.insert(n, e);
    assert(entries_view(v@) =~= all.take(n as int).push(view) + all.skip(n as int));
}

/// The listing of a directory with these entries.
fn make_listing(items: Vec<FsEntry>) -> (r: Vec<FsEntry>)
    ensures
        entries_view(r@) == listing_of(entries_view(items@)),
{
    let mut items = items;
    let ghost all = entries_view(items@);
    let mut sorted: Vec<FsEntry> = Vec::new();
    let mut i: usize = 0;
    assert(all.take(0) =~= Seq::empty());
    assert(entries_view(sorted@) =~= in_order(all.take(0)));
    while i < items.len()
        invariant
            i <= items@.len(),
            all == entries_view(items@),
            entries_view(sorted@) == in_order(all.take(i as int)),
        decreases items@.len() - i,
    {
        let ghost t = all.take(i + 1);
        assert(t.drop_last() =~= all.take(i as int));
        assert(t.last() == items@[i as int]@);
        insert_entry(&mut sorted, items[i].clone());
        i += 1;
    }
    assert(all.take(i as int) =~= all);
    let mut r: Vec<FsEntry> = Vec::new();
    r.push(parent_link());
    let ghost ordered = entries_view(sorted@);
    r.append(&mut sorted);
    assert(entries_view(r@) =~= seq![parent_entry()] + ordered);
    r
}

// ---------------------------------------------------------------------------
// The output of `ls -la`
// ---------------------------------------------------------------------------

/// The first place at or after `i` with ASCII white space, or the length.
pub open spec fn token_end(s: Seq<char>, i: int) -> int
    decreases s.len() - i,
{
    if i >= s.len() {
        s.len() as int
    } else if text::is_ascii_white(s[i]) {
        i
    } else {
        token_end(s, i + 1)
    }
}

proof fn lemma_token_end(s: Seq<char>, i: int)
    requires
        0 <= i <= s.len(),
    ensures
        i <= token_end(s, i) <= s.len(),
    decreases s.len() - i,
{
    if i < s.len() && !text::is_ascii_white(s[i]) {
        lemma_token_end(s, i + 1);
    }
}

/// What follows the first `n` tokens of a text that begins with a token.
pub open spec fn after_tokens(s: Seq<char>, n: nat) -> Seq<char>
    decreases n,
{
    if n == 0 {
        s
    } else {
        after_tokens(text::trimmed_start(s.skip(token_end(s, 0))), (n - 1) as nat)
    }
}

/// The part of `line` that follows its first `n` tokens.
pub fn skip_n_tokens(line: &str, n: usize) -> (r: String)
    ensures
        r@ == after_tokens(text::trimmed_start(line@), n as nat),
{
    let v = chars_of(line);
    string_of(rest_after_tokens(v.as_slice(), n))
}

fn rest_after_tokens(line: &[char], n: usize) -> (r: &[char])
    ensures
        r@ == after_tokens(text::trimmed_start(line@), n as nat),
{
    let mut rest = trim_start(line);
    let mut k: usize = n;
    while k > 0
        invariant
            after_tokens(rest@, k as nat) == after_tokens(text::trimmed_start(line@), n as nat),
        decreases k,
    {
        let mut e: usize = 0;
        while e < rest.len() && !ascii_white(rest[e])
            invariant
                e <= rest@.len(),
                token_end(rest@, e as int) == token_end(rest@, 0),
            decreases rest@.len() - e,
        {
            e += 1;
        }
        let after = slice_subrange(rest, e, rest.len());
        assert(after@ =~= rest@.skip(e as int));
        rest = trim_start(after);
        k -= 1;
    }
    rest
}

/// `s` trimmed, without the pair of quotes that `ls` puts around a name. The
/// quotes stay where the same quote occurs between them.
pub open spec fn unquoted(s: Seq<char>) -> Seq<char> {
    let t = text::trimmed(s);
    if quoted_by(t, '\'') || quoted_by(t, '"') {
        t.subrange(1, t.len() - 1)
    } else {
        t
    }
}

/// Whether `t` is a text between two `q` that holds no other `q`.
pub open spec fn quoted_by(t: Seq<char>, q: char) -> bool {
    t.len() >= 2 && t[0] == q && t.last() == q && !t.subrange(1, t.len() - 1).contains(q)
}

/// Takes the quotes off a name.
pub fn strip_shell_quote(s: &[char]) -> (r: &[char])
    ensures
        r@ == unquoted(s@),
{
    let t = trim(s);
    let n: usize = t.len();
    if n >= 2 && t[0] == '\'' && t[n - 1] == '\'' {
        let inner = slice_subrange(t, 1, n - 1);
        if !has_char(inner, '\'') {
            return inner;
        }
    }
    if n >= 2 && t[0] == '"' && t[n - 1] == '"' {
        let inner = slice_subrange(t, 1, n - 1);
        if !has_char(inner, '"') {
            return inner;
        }
    }
    t
}

/// Whether a trimmed line is a prompt, an echo or a heading, not an entry.
pub open spec fn is_noise(line: Seq<char>) -> bool {
    ||| line.len() == 0
    ||| text::has_prefix(line, "sftp>"@)
    ||| text::has_prefix(line, "SSHMUX>"@)
    ||| text::has_prefix(line, "Remote"@)
    ||| text::has_prefix(line, "Changing"@)
    ||| text::has_prefix(line, "total"@)
    ||| text::has_prefix(line, "ls"@)
}

/// The name in a trimmed line of `ls -la`: what follows eight tokens, for a
/// link up to the arrow, without quotes and without a directory in front.
pub open spec fn name_in(line: Seq<char>, is_link: bool) -> Seq<char> {
    let raw = text::trimmed_end(after_tokens(text::trimmed_start(line), 8));
    let shown = if is_link {
        raw.take(text::find_part(raw, " -> "@, 0))
    } else {
        raw
    };
    text::after_last(unquoted(shown), '/')
}

/// The entry that a line of `ls -la` shows, if it shows one.
pub open spec fn entry_in(text: Seq<char>) -> Option<EntryView> {
    let line = text::trimmed(text);
    let w = text::words_of(line);
    if is_noise(line) || w.len() < 9 {
        None
    } else {
        let is_dir = text::has_prefix(w[0], "d"@);
        let is_link = text::has_prefix(w[0], "l"@);
        let name = name_in(line, is_link);
        if !text::has_prefix(w[0], "-"@) && !is_dir && !is_link {
            None
        } else if name.len() == 0 || name == "."@ || name == ".."@ {
            None
        } else {
            Some(
                EntryView {
                    name,
                    is_dir: is_dir || is_link,
                    is_link,
                    size: if is_dir {
                        Seq::empty()
                    } else {
                        size_text(
                            match text::number_of(w[4], u64::MAX as nat) {
                                Some(n) => n,
                                None => 0,
                            },
                        )
                    },
                    perms: w[0],
                    modified: w[5] + " "@ + w[6] + " "@ + w[7],
                },
            )
        }
    }
}

/// The entries that the lines show, in order.
pub open spec fn entries_in(ls: Seq<Seq<char>>) -> Seq<EntryView>
    decreases ls.len(),
{
    if ls.len() == 0 {
        Seq::empty()
    } else {
        let before = entries_in(ls.drop_last());
        match entry_in(ls.last()) {
            Some(e) => before.push(e),
            None => before,
        }
    }
}

/// Parses the output of `ls -la` into a listing.
pub fn parse_ls(lines: &[String]) -> (r: Vec<FsEntry>)
    ensures
        entries_view(r@) == listing_of(entries_in(text::texts(lines@))),
{
    let ghost ls = text::texts(lines@);
    let mut items: Vec<FsEntry> = Vec::new();
    let mut i: usize = 0;
    assert(ls.take(0) =~= Seq::empty());
    assert(entries_view(items@) =~= entries_in(ls.take(0)));
    while i < lines.len()
        invariant
            i <= lines@.len(),
            ls == text::texts(lines@),
            entries_view(items@) == entries_in(ls.take(i as int)),
        decreases lines@.len() - i,
    {
        let ghost t = ls.take(i + 1);
        assert(t.drop_last() =~= ls.take(i as int));
        assert(t.last() == lines@[i as int]@);
        if let Some(e) = parse_entry(lines[i].as_str()) {
            let ghost before = entries_view(items@);
            let ghost view = e@;
            items.push(e);
            assert(entries_view(items@) =~= before.push(view));
        }
        i += 1;
    }
    assert(ls.take(i as int) =~= ls);
    make_listing(items)
}

fn noise(line: &[char]) -> (r: bool)
    ensures
        r == is_noise(line@),
{
    line.len() == 0 || starts_with(line, "sftp>") || starts_with(line, "SSHMUX>") || starts_with(
        line,
        "Remote",
    ) || starts_with(line, "Changing") || starts_with(line, "total") || starts_with(line, "ls")
}

/// Reads one line of `ls -la`.
fn parse_entry(text: &str) -> (r: Option<FsEntry>)
    ensures
        match r {
            Some(e) => entry_in(text@) == Some(e@),
            None => entry_in(text@) is None,
        },
{
    let all = chars_of(text);
    let line = trim(all.as_slice());
    if noise(line) {
        return None;
    }
    let w = words(line);
    let ghost ws = text::words_of(line@);
    if w.len() < 9 {
        return None;
    }
    assert(forall|k: int| 0 <= k < w@.len() ==> #[trigger] ws[k] == w@[k]@);
    let is_dir = starts_with(w[0], "d");
    let is_link = starts_with(w[0], "l");
    if !starts_with(w[0], "-") && !is_dir && !is_link {
        return None;
    }
    let raw = trim_end(rest_after_tokens(line, 8));
    let shown = if is_link {
        let arrow = chars_of(" -> ");
        let at: usize = find_str(raw, arrow.as_slice(), 0);
        let head = slice_subrange(raw, 0, at);
        assert(head@ =~= raw@.take(at as int));
        head
    } else {
        raw
    };
    let name = string_of(tail_after(strip_shell_quote(shown), '/'));
    if name.as_str().is_empty() || same(name.as_str(), ".") || same(name.as_str(), "..") {
        return None;
    }
    let size = if is_dir {
        String::new()
    } else {
        match parse_number(w[4], u64::MAX) {
            Some(n) => human_size(n),
            None => human_size(0),
        }
    };
    let modified = cat5(
        string_of(w[5]).as_str(),
        " ",
        string_of(w[6]).as_str(),
        " ",
        string_of(w[7]).as_str(),
    );
    Some(
        FsEntry {
            name,
            is_dir: is_dir || is_link,
            is_link,
            size,
            perms: string_of(w[0]),
            modified,
        },
    )
}

// ---------------------------------------------------------------------------
// Transfer progress
// ---------------------------------------------------------------------------

/// `s` without the percent signs at its end.
pub open spec fn without_percent(s: Seq<char>) -> Seq<char>
    decreases s.len(),
{
    if s.len() > 0 && s.last() == '%' {
        without_percent(s.drop_last())
    } else {
        s
    }
}

/// Whether a word is a percentage.
pub open spec fn is_percentage(w: Seq<char>) -> bool {
    w.len() > 0 && w.last() == '%' && text::number_of(without_percent(w), u32::MAX as nat) is Some
}

/// The first percentage among the words from `i` on.
pub open spec fn percentage_among(ws: Seq<Seq<char>>, i: int) -> Option<Seq<char>>
    decreases ws.len() - i,
{
    if i >= ws.len() {
        None
    } else if is_percentage(ws[i]) {
        Some(ws[i])
    } else {
        percentage_among(ws, i + 1)
    }
}

/// The percentage that a line ends up showing: `scp` overwrites its line after
/// a carriage return, so only what follows the last one counts.
pub open spec fn percentage_in(line: Seq<char>) -> Option<Seq<char>> {
    percentage_among(text::words_of(text::trimmed(text::after_last(line, '\r'))), 0)
}

/// The percentage on the last line that shows one.
pub open spec fn progress_in(ls: Seq<Seq<char>>) -> Option<Seq<char>>
    decreases ls.len(),
{
    if ls.len() == 0 {
        None
    } else {
        match percentage_in(ls.last()) {
            Some(p) => Some(p),
            None => progress_in(ls.drop_last()),
        }
    }
}

/// Scrapes a transfer progress percentage from the lines of output.
pub fn scrape_transfer_progress(lines: &[String]) -> (r: Option<String>)
    ensures
        match r {
            Some(p) => progress_in(text::texts(lines@)) == Some(p@),
            None => progress_in(text::texts(lines@)) is None,
        },
{
    let ghost ls = text::texts(lines@);
    let mut n: usize = lines.len();
    assert(ls.take(n as int) =~= ls);
    while n > 0
        invariant
            n <= lines@.len(),
            ls == text::texts(lines@),
            progress_in(ls.take(n as int)) == progress_in(ls),
        decreases n,
    {
        let ghost t = ls.take(n as int);
        assert(t.drop_last() =~= ls.take(n - 1));
        assert(t.last() == lines@[n - 1]@);
        let line = chars_of(lines[n - 1].as_str());
        if let Some(p) = line_percentage(line.as_slice()) {
            return Some(p);
        }
        n -= 1;
    }
    None
}

fn line_percentage(line: &[char]) -> (r: Option<String>)
    ensures
        match r {
            Some(p) => percentage_in(line@) == Some(p@),
            None => percentage_in(line@) is None,
        },
{
    let w = words(trim(tail_after(line, '\r')));
    let ghost ws = text::words_of(text::trimmed(text::after_last(line@, '\r')));
    let mut i: usize = 0;
    while i < w.len()
        invariant
            i <= w@.len(),
            text::slices(w@) == ws,
            percentage_among(ws, i as int) == percentage_among(ws, 0),
            percentage_in(line@) == percentage_among(ws, 0),
        decreases w@.len() - i,
    {
        assert(ws[i as int] == w@[i as int]@);
        if percentage(w[i]) {
            return Some(string_of(w[i]));
        }
        i += 1;
    }
    None
}

fn percentage(w: &[char]) -> (r: bool)
    ensures
        r == is_percentage(w@),
{
    if w.len() == 0 || w[w.len() - 1] != '%' {
        return false;
    }
    parse_number(strip_percent(w), u32::MAX as u64).is_some()
}

fn strip_percent(w: &[char]) -> (r: &[char])
    ensures
        r@ == without_percent(w@),
{
    let mut n: usize = w.len();
    assert(w@.take(n as int) =~= w@);
    while n > 0 && w[n - 1] == '%'
        invariant
            n <= w@.len(),
            without_percent(w@.take(n as int)) == without_percent(w@),
        decreases n,
    {
        assert(w@.take(n as int).drop_last() =~= w@.take(n - 1));
        n -= 1;
    }
    assert(w@.take(n as int) =~= w@.subrange(0, n as int));
    slice_subrange(w, 0, n)
}

// ---------------------------------------------------------------------------
// Dates
// ---------------------------------------------------------------------------

/// The leap years of the Gregorian calendar.
pub open spec fn is_leap(y: int) -> bool {
    y % 4 == 0 && (y % 100 != 0 || y % 400 == 0)
}

/// The number of days in year `y`.
pub open spec fn year_days(y: int) -> int {
    if is_leap(y) {
        366
    } else {
        365
    }
}

/// The number of days in month `m` of year `y`.
pub open spec fn month_days(y: int, m: int) -> int {
    if m == 2 {
        if is_leap(y) {
            29
        } else {
            28
        }
    } else if m == 4 || m == 6 || m == 9 || m == 11 {
        30
    } else {
        31
    }
}

/// The number of days from the start of 1970 to the start of year `y`.
pub open spec fn days_before_year(y: int) -> int
    decreases y - 1970,
{
    if y <= 1970 {
        0
    } else {
        days_before_year(y - 1) + year_days(y - 1)
    }
}

/// The number of days from the start of year `y` to the start of month `m`.
pub open spec fn days_before_month(y: int, m: int) -> int
    decreases m,
{
    if m <= 1 {
        0
    } else {
        days_before_month(y, m - 1) + month_days(y, m - 1)
    }
}

/// Whether the calendar has a day `d` in month `m` of year `y`.
pub open spec fn is_date(y: int, m: int, d: int) -> bool {
    y >= 1970 && 1 <= m <= 12 && 1 <= d <= month_days(y, m)
}

/// The number of days from the start of 1970 to a date.
pub open spec fn day_number(y: int, m: int, d: int) -> int {
    days_before_year(y) + days_before_month(y, m) + d - 1
}

/// Decomposes a Unix timestamp into year, month, day, hour and minute. The
/// number of days is taken modulo 2^32.
pub fn epoch_to_ymd(secs: u64) -> (r: (u32, u32, u32, u32, u32))
    ensures
        is_date(r.0 as int, r.1 as int, r.2 as int),
        day_number(r.0 as int, r.1 as int, r.2 as int) == (secs as int / 86400) % 0x1_0000_0000,
        r.3 == (secs as int / 3600) % 24,
        r.4 == (secs as int / 60) % 60,
{
    let mi: u64 = (secs / 60) % 60;
    let h: u64 = (secs / 3600) % 24;
    let days: u64 = secs / 86400;
    assert(days as u32 == days % 0x1_0000_0000) by (bit_vector);
    let total: u32 = days as u32;
    let mut y: u32 = 1970;
    let mut d: u32 = total;
    while d >= 366 || d >= days_in_year(y)
        invariant
            1970 <= y,
            d + days_before_year(y as int) == total,
            365 * (y - 1970) <= days_before_year(y as int),
        decreases d,
    {
        let n: u32 = days_in_year(y);
        assert(days_before_year(y + 1) == days_before_year(y as int) + year_days(y as int));
        d -= n;
        y += 1;
    }
    let mut mo: u32 = 1;
    assert(day_number(y as int, 1, d + 1) == total);
    while mo < 12 && d >= days_in_month(y, mo)
        invariant
            1970 <= y,
            1 <= mo <= 12,
            d + days_before_month(y as int, mo as int) < year_days(y as int),
            days_before_year(y as int) + days_before_month(y as int, mo as int) + d == total,
        decreases 12 - mo,
    {
        let n: u32 = days_in_month(y, mo);
        assert(days_before_month(y as int, mo + 1) == days_before_month(y as int, mo as int)
            + month_days(y as int, mo as int));
        d -= n;
        mo += 1;
    }
    proof {
        lemma_year_is_its_months(y as int);
    }
    (y, mo, d + 1, h as u32, mi as u32)
}

proof fn lemma_year_is_its_months(y: int)
    ensures
        days_before_month(y, 12) + 31 == year_days(y),
{
    reveal_with_fuel(days_before_month, 13);
}

fn days_in_year(y: u32) -> (n: u32)
    ensures
        n == year_days(y as int),
{
    if y % 4 == 0 && (y % 100 != 0 || y % 400 == 0) {
        366
    } else {
        365
    }
}

fn days_in_month(y: u32, m: u32) -> (n: u32)
    ensures
        n == month_days(y as int, m as int),
{
    if m == 2 {
        if y % 4 == 0 && (y % 100 != 0 || y % 400 == 0) {
            29
        } else {
            28
        }
    } else if m == 4 || m == 6 || m == 9 || m == 11 {
        30
    } else {
        31
    }
}

/// No two dates have the same day number.
pub proof fn law_day_number_tells_dates_apart(
    y1: int,
    m1: int,
    d1: int,
    y2: int,
    m2: int,
    d2: int,
)
    requires
        is_date(y1, m1, d1),
        is_date(y2, m2, d2),
        day_number(y1, m1, d1) == day_number(y2, m2, d2),
    ensures
        y1 == y2 && m1 == m2 && d1 == d2,
{
    lemma_day_of_year(y1, m1, d1);
    lemma_day_of_year(y2, m2, d2);
    if y1 < y2 {
        lemma_years_grow(y1 + 1, y2);
    } else if y2 < y1 {
        lemma_years_grow(y2 + 1, y1);
    } else if m1 < m2 {
        lemma_months_grow(y1, m1 + 1, m2);
    } else if m2 < m1 {
        lemma_months_grow(y1, m2 + 1, m1);
    }
}

proof fn lemma_years_grow(a: int, b: int)
    requires
        1970 <= a <= b,
    ensures
        days_before_year(a) <= days_before_year(b),
    decreases b - a,
{
    if a < b {
        lemma_years_grow(a, b - 1);
    }
}

proof fn lemma_months_grow(y: int, a: int, b: int)
    requires
        1 <= a <= b,
    ensures
        days_before_month(y, a) <= days_before_month(y, b),
    decreases b - a,
{
    if a < b {
        lemma_months_grow(y, a, b - 1);
    }
}

proof fn lemma_day_of_year(y: int, m: int, d: int)
    requires
        is_date(y, m, d),
    ensures
        0 <= days_before_month(y, m) + d - 1 < year_days(y),
{
    lemma_year_is_its_months(y);
    lemma_months_grow(y, 1, m);
    if m < 12 {
        lemma_months_grow(y, m + 1, 12);
    }
}

// ---------------------------------------------------------------------------
// Sizes
// ---------------------------------------------------------------------------

/// `a / b` rounded to the nearest integer, and to the even one of two.
pub open spec fn nearest(a: nat, b: nat) -> nat {
    let q = a / b;
    let r = a % b;
    if 2 * r < b || (2 * r == b && q % 2 == 0) {
        q
    } else {
        q + 1
    }
}

/// The distance between the 53-bit binary floating-point numbers around `n`.
pub open spec fn double_step(n: nat) -> nat
    decreases n,
{
    if n < 0x20_0000_0000_0000 {
        1
    } else {
        2 * double_step(n / 2)
    }
}

/// The number with a 53-bit significand that is nearest to `n`.
pub open spec fn nearest_double(n: nat) -> nat {
    nearest(n, double_step(n)) * double_step(n)
}

/// A number of bytes with one decimal, in the largest unit up to terabytes of
/// which there is at least one. Sizes that a double cannot hold are rounded
/// to one first.
pub open spec fn size_text(n: nat) -> Seq<char> {
    if n < 0x400 {
        text::decimal(n) + " B"@
    } else if n < 0x10_0000 {
        tenths_text(nearest(nearest_double(n) * 10, 0x400)) + " KB"@
    } else if n < 0x4000_0000 {
        tenths_text(nearest(nearest_double(n) * 10, 0x10_0000)) + " MB"@
    } else if n < 0x100_0000_0000 {
        tenths_text(nearest(nearest_double(n) * 10, 0x4000_0000)) + " GB"@
    } else {
        tenths_text(nearest(nearest_double(n) * 10, 0x100_0000_0000)) + " TB"@
    }
}

/// A number of tenths with one decimal.
pub open spec fn tenths_text(t: nat) -> Seq<char> {
    text::decimal(t / 10) + "."@ + text::decimal(t % 10)
}

/// Writes a number of bytes for people to read.
pub fn human_size(bytes: u64) -> (r: String)
    ensures
        r@ == size_text(bytes as nat),
{
    if bytes < 0x400 {
        return cat(decimal_of(bytes).as_str(), " B");
    }
    let tens: u128 = round_to_double(bytes) * 10;
    if bytes < 0x10_0000 {
        with_tenths(tens, 0x400, " KB")
    } else if bytes < 0x4000_0000 {
        with_tenths(tens, 0x10_0000, " MB")
    } else if bytes < 0x100_0000_0000 {
        with_tenths(tens, 0x4000_0000, " GB")
    } else {
        with_tenths(tens, 0x100_0000_0000, " TB")
    }
}

fn with_tenths(tens: u128, unit: u128, name: &str) -> (r: String)
    requires
        0x400 <= unit <= 0x100_0000_0000,
        tens <= 0x1_0000_0000_0000_1000 * 10,
    ensures
        r@ == tenths_text(nearest(tens as nat, unit as nat)) + name@,
{
    proof {
        lemma_quotient_fits(tens as nat, unit as nat);
    }
    let t: u64 = round_quotient(tens, unit) as u64;
    cat4(decimal_of(t / 10).as_str(), ".", decimal_of(t % 10).as_str(), name)
}

proof fn lemma_quotient_fits(tens: nat, unit: nat)
    requires
        0x400 <= unit,
        tens <= 0x1_0000_0000_0000_1000 * 10,
    ensures
        tens / unit < u64::MAX,
{
    assert(tens / unit < 0xffff_ffff_ffff_ffff) by (nonlinear_arith)
        requires
            0x400 <= unit,
            tens <= 0x1_0000_0000_0000_1000 * 10,
    ;
}

fn round_quotient(a: u128, b: u128) -> (r: u128)
    requires
        0 < b <= 0x100_0000_0000,
        a <= 0x1_0000_0000_0000_1000 * 10,
    ensures
        r == nearest(a as nat, b as nat),
        r <= a / b + 1,
{
    let q: u128 = a / b;
    let rem: u128 = a % b;
    proof {
        assert(a / b <= a) by (nonlinear_arith)
            requires
                b > 0,
        ;
    }
    if 2 * rem < b || (2 * rem == b && q % 2 == 0) {
        q
    } else {
        q + 1
    }
}

fn round_to_double(n: u64) -> (r: u128)
    ensures
        r == nearest_double(n as nat),
        r <= 0x1_0000_0000_0000_1000,
{
    let mut m: u64 = n;
    let mut step: u64 = 1;
    while m >= 0x20_0000_0000_0000
        invariant
            double_step(n as nat) == step as nat * double_step(m as nat),
            m as nat * step as nat <= n,
            1 <= step <= 0x1000,
            m >= 1 || n < 0x20_0000_0000_0000,
        decreases m,
    {
        proof {
            assert(step < 0x800) by (nonlinear_arith)
                requires
                    m as nat * step as nat <= 0xffff_ffff_ffff_ffff,
                    m >= 0x20_0000_0000_0000,
            ;
            assert((m / 2) as nat * (2 * step) as nat <= m as nat * step as nat)
                by (nonlinear_arith)
                requires
                    m >= 0,
                    step >= 0,
            ;
            let half = double_step((m / 2) as nat);
            assert(step as nat * (2 * half) == (2 * step) as nat * half) by (nonlinear_arith);
        }
        m = m / 2;
        step = step * 2;
    }
    assert(double_step(m as nat) == 1);
    assert(double_step(n as nat) == step as nat) by (nonlinear_arith)
        requires
            double_step(n as nat) == step as nat * double_step(m as nat),
            double_step(m as nat) == 1,
    ;
    let q: u128 = round_quotient(n as u128, step as u128);
    proof {
        assert(q * step <= n + step) by (nonlinear_arith)
            requires
                q <= n / step + 1,
                step > 0,
        ;
    }
    q * (step as u128)
}

// ---------------------------------------------------------------------------
// Local directories
// ---------------------------------------------------------------------------

/// Returns a list of available root paths to browse.
pub fn list_drives() -> (r: Vec<String>)
    ensures
        text::texts(r@) == seq!["/"@],
{
    let mut r: Vec<String> = Vec::new();
    r.push("/".to_owned());
    assert(text::texts(r@) =~= seq!["/"@]);
    r
}

/// What the file system says about an item of a directory.
#[derive(Clone, Copy, Debug, PartialEq, Eq)]
pub struct ItemMeta {
    pub is_dir: bool,
    pub len: u64,
    /// Seconds since the start of 1970, where the time of the last change is
    /// known.
    pub modified: Option<u64>,
}

/// An item of a local directory.
#[derive(Debug)]
pub struct DirItem {
    pub name: String,
    /// What is known of the item; nothing where it cannot be inspected.
    pub meta: Option<ItemMeta>,
}

/// Whether the five numbers are the date and time of day at `secs`.
pub open spec fn is_moment(secs: nat, y: nat, m: nat, d: nat, h: nat, mi: nat) -> bool {
    &&& is_date(y as int, m as int, d as int)
    &&& day_number(y as int, m as int, d as int) == (secs as int / 86400) % 0x1_0000_0000
    &&& h == (secs as int / 3600) % 24
    &&& mi == (secs as int / 60) % 60
}

/// A moment written as year, month, day and time of day.
pub open spec fn moment_text(y: nat, m: nat, d: nat, h: nat, mi: nat) -> Seq<char> {
    text::zero_padded(text::decimal(y), 4) + "-"@ + text::zero_padded(text::decimal(m), 2) + "-"@ + text::zero_padded(
        text::decimal(d),
        2,
    ) + " "@ + text::zero_padded(text::decimal(h), 2) + ":"@ + text::zero_padded(text::decimal(mi), 2)
}

/// How the time `secs` after the start of 1970 is shown.
pub open spec fn timestamp_text(secs: nat) -> Seq<char> {
    let (y, m, d, h, mi) = choose|y: nat, m: nat, d: nat, h: nat, mi: nat|
        is_moment(secs, y, m, d, h, mi);
    moment_text(y, m, d, h, mi)
}

/// The entry that shows an item of a local directory.
pub open spec fn item_entry(name: Seq<char>, meta: Option<ItemMeta>) -> EntryView {
    EntryView {
        name,
        is_dir: meta is Some && meta->0.is_dir,
        size: if meta is Some && !meta->0.is_dir {
            size_text(meta->0.len as nat)
        } else {
            Seq::empty()
        },
        modified: if meta is Some && meta->0.modified is Some {
            timestamp_text(meta->0.modified->0 as nat)
        } else {
            Seq::empty()
        },
        ..blank_entry()
    }
}

/// The entries that show the items of a local directory.
pub open spec fn item_entries(items: Seq<DirItem>) -> Seq<EntryView> {
    items.map_values(|d: DirItem| item_entry(d.name@, d.meta))
}

fn timestamp(secs: u64) -> (r: String)
    ensures
        r@ == timestamp_text(secs as nat),
{
    let (y, mo, d, h, mi) = epoch_to_ymd(secs);
    proof {
        assert(is_moment(secs as nat, y as nat, mo as nat, d as nat, h as nat, mi as nat));
        let (y2, m2, d2, h2, mi2) = choose|y2: nat, m2: nat, d2: nat, h2: nat, mi2: nat|
            is_moment(secs as nat, y2, m2, d2, h2, mi2);
        assert(is_moment(secs as nat, y2, m2, d2, h2, mi2));
        law_day_number_tells_dates_apart(
            y as int,
            mo as int,
            d as int,
            y2 as int,
            m2 as int,
            d2 as int,
        );
    }
    let date = cat5(
        decimal_padded(y as u64, 4).as_str(),
        "-",
        decimal_padded(mo as u64, 2).as_str(),
        "-",
        decimal_padded(d as u64, 2).as_str(),
    );
    cat5(
        date.as_str(),
        " ",
        decimal_padded(h as u64, 2).as_str(),
        ":",
        decimal_padded(mi as u64, 2).as_str(),
    )
}

/// Makes a listing of the items of a local directory.
pub fn local_listing(items: &[DirItem]) -> (r: Vec<FsEntry>)
    ensures
        entries_view(r@) == listing_of(item_entries(items@)),
{
    let mut v: Vec<FsEntry> = Vec::new();
    let mut i: usize = 0;
    while i < items.len()
        invariant
            i <= items@.len(),
            entries_view(v@) == item_entries(items@).take(i as int),
        decreases items@.len() - i,
    {
        let ghost before = entries_view(v@);
        let e = local_entry(&items[i]);
        let ghost view = e@;
        v.push(e);
        assert(entries_view(v@) =~= before.push(view));
        i += 1;
        assert(entries_view(v@) =~= item_entries(items@).take(i as int));
    }
    assert(entries_view(v@) =~= item_entries(items@));
    make_listing(v)
}

fn local_entry(item: &DirItem) -> (e: FsEntry)
    ensures
        e@ == item_entry(item.name@, item.meta),
{
    let mut is_dir = false;
    let mut size = String::new();
    let mut modified = String::new();
    if let Some(m) = item.meta {
        is_dir = m.is_dir;
        if !m.is_dir {
            size = human_size(m.len);
        }
        if let Some(secs) = m.modified {
            modified = timestamp(secs);
        }
    }
    FsEntry { name: item.name.clone(), is_dir, is_link: false, size, perms: String::new(), modified }
}

// ---------------------------------------------------------------------------
// Shell quoting
// ---------------------------------------------------------------------------

/// `s` with every single quote written as `'\''`.
pub open spec fn quotes_escaped(s: Seq<char>) -> Seq<char>
    decreases s.len(),
{
    if s.len() == 0 {
        Seq::empty()
    } else if s.last() == '\'' {
        quotes_escaped(s.drop_last()) + seq!['\'', '\\', '\'', '\'']
    } else {
        quotes_escaped(s.drop_last()).push(s.last())
    }
}

/// `s` as one word of the shell, in single quotes.
pub open spec fn shell_quoted(s: Seq<char>) -> Seq<char> {
    seq!['\''] + quotes_escaped(s) + seq!['\'']
}

/// Quotes `s` so that the shell reads it as one word.
pub fn shell_quote(s: &str) -> (r: String)
    ensures
        r@ == shell_quoted(s@),
{
    let v = chars_of(s);
    let mut r = String::new();
    r.push('\'');
    let mut i: usize = 0;
    assert(s@.take(0) =~= Seq::empty());
    assert(r@ =~= seq!['\''] + quotes_escaped(s@.take(0)));
    while i < v.len()
        invariant
            v@ == s@,
            i <= v@.len(),
            r@ == seq!['\''] + quotes_escaped(s@.take(i as int)),
        decreases v@.len() - i,
    {
        let ghost t = s@.take(i + 1);
        assert(t.drop_last() =~= s@.take(i as int));
        if v[i] == '\'' {
            r.push('\'');
            r.push('\\');
            r.push('\'');
            r.push('\'');
        } else {
            r.push(v[i]);
        }
        assert(r@ =~= seq!['\''] + quotes_escaped(t));
        i += 1;
    }
    assert(s@.take(i as int) =~= s@);
    r.push('\'');
    r
}

/// What a POSIX shell makes of a text that holds single quotes, backslashes
/// outside of quotes, and inside of quotes anything: the word it stands for,
/// and whether a quote is still open.
pub open spec fn shell_word(s: Seq<char>) -> (Seq<char>, bool, bool)
    decreases s.len(),
{
    if s.len() == 0 {
        (Seq::empty(), false, false)
    } else {
        let (word, open, escaped) = shell_word(s.drop_last());
        let c = s.last();
        if open {
            if c == '\'' {
                (word, false, false)
            } else {
                (word.push(c), true, false)
            }
        } else if escaped {
            (word.push(c), false, false)
        } else if c == '\'' {
            (word, true, false)
        } else if c == '\\' {
            (word, false, true)
        } else {
            (word.push(c), false, false)
        }
    }
}

/// The shell reads a quoted text back as that text, with no quote left open.
pub proof fn law_shell_reads_back(s: Seq<char>)
    ensures
        shell_word(shell_quoted(s)) == (s, false, false),
{
    lemma_shell_prefix(s);
    assert(shell_quoted(s).drop_last() =~= seq!['\''] + quotes_escaped(s));
}

/// Taking the quotes off a quoted text gives that text back, where it holds no
/// single quote.
pub proof fn law_stripping_undoes_quoting(x: Seq<char>)
    requires
        !x.contains('\''),
    ensures
        unquoted(shell_quoted(x)) == x,
{
    lemma_nothing_to_escape(x);
    let q = shell_quoted(x);
    assert(q.len() == x.len() + 2 && q[0] == '\'' && q.last() == '\'');
    assert(text::trimmed_start(q) == q);
    assert(text::trimmed_end(q) == q);
    assert(q.subrange(1, q.len() - 1) =~= x);
    assert(quoted_by(q, '\''));
}

/// Where a text holds no single quote, none is escaped.
proof fn lemma_nothing_to_escape(x: Seq<char>)
    requires
        !x.contains('\''),
    ensures
        quotes_escaped(x) == x,
    decreases x.len(),
{
    if x.len() > 0 {
        let r = x.drop_last();
        assert(x[x.len() - 1] == x.last());
        assert forall|i: int| 0 <= i < r.len() implies r[i] != '\'' by {
            assert(r[i] == x[i]);
        }
        lemma_nothing_to_escape(r);
        assert(x =~= r.push(x.last()));
    } else {
        assert(x =~= Seq::empty());
    }
}

proof fn lemma_shell_prefix(s: Seq<char>)
    ensures
        shell_word(seq!['\''] + quotes_escaped(s)) == (s, true, false),
    decreases s.len(),
{
    let q = seq!['\''] + quotes_escaped(s);
    reveal_with_fuel(shell_word, 5);
    if s.len() == 0 {
        assert(q =~= seq!['\'']);
        assert(q.drop_last() =~= Seq::empty());
        assert(s =~= Seq::empty());
    } else {
        let r = s.drop_last();
        lemma_shell_prefix(r);
        let p = seq!['\''] + quotes_escaped(r);
        assert(s =~= r.push(s.last()));
        if s.last() == '\'' {
            assert(q.drop_last() =~= p + seq!['\'', '\\', '\'']);
            assert(q.drop_last().drop_last() =~= p + seq!['\'', '\\']);
            assert(q.drop_last().drop_last().drop_last() =~= p + seq!['\'']);
            assert(q.drop_last().drop_last().drop_last().drop_last() =~= p);
        } else {
            assert(q.drop_last() =~= p);
        }
    }
}

// ---------------------------------------------------------------------------
// Prompts and errors
// ---------------------------------------------------------------------------

/// The last line that is not blank.
pub open spec fn last_shown(ls: Seq<Seq<char>>) -> Option<Seq<char>>
    decreases ls.len(),
{
    if ls.len() == 0 {
        None
    } else if text::trimmed(ls.last()).len() > 0 {
        Some(ls.last())
    } else {
        last_shown(ls.drop_last())
    }
}

/// Finds the last line that is not blank.
pub fn last_shown_line(lines: &Vec<String>) -> (r: Option<&String>)
    ensures
        match r {
            Some(l) => last_shown(text::texts(lines@)) == Some(l@),
            None => last_shown(text::texts(lines@)) is None,
        },
{
    let ghost ls = text::texts(lines@);
    let mut n: usize = lines.len();
    assert(ls.take(n as int) =~= ls);
    while n > 0
        invariant
            n <= lines@.len(),
            ls == text::texts(lines@),
            last_shown(ls.take(n as int)) == last_shown(ls),
        decreases n,
    {
        let ghost t = ls.take(n as int);
        assert(t.drop_last() =~= ls.take(n - 1));
        assert(t.last() == lines@[n - 1]@);
        let line = chars_of(lines[n - 1].as_str());
        if trim(line.as_slice()).len() > 0 {
            return Some(&lines[n - 1]);
        }
        n -= 1;
    }
    None
}

/// Whether a line shows one of the messages, in small or capital letters.
pub open spec fn line_shows(line: Seq<char>, messages: Seq<Seq<char>>) -> bool {
    exists|k: int|
        0 <= k < messages.len() && text::has_part(text::unicode_lowercase(line), #[trigger] messages[k])
}

/// Whether one of the lines shows one of the messages.
pub open spec fn shows_any(ls: Seq<Seq<char>>, messages: Seq<Seq<char>>) -> bool {
    exists|i: int| 0 <= i < ls.len() && line_shows(#[trigger] ls[i], messages)
}

/// The texts of a list of string slices.
pub open spec fn str_texts(v: Seq<&str>) -> Seq<Seq<char>> {
    v.map_values(|s: &str| s@)
}

/// Whether one of the lines shows one of the messages, which are in small
/// letters.
pub fn contains_any_error(lines: &[String], messages: &[&str]) -> (r: bool)
    ensures
        r == shows_any(text::texts(lines@), str_texts(messages@)),
{
    let ghost ls = text::texts(lines@);
    let ghost ms = str_texts(messages@);
    let mut i: usize = 0;
    while i < lines.len()
        invariant
            i <= lines@.len(),
            ls == text::texts(lines@),
            ms == str_texts(messages@),
            forall|k: int| 0 <= k < i ==> !line_shows(#[trigger] ls[k], ms),
        decreases lines@.len() - i,
    {
        let low = to_lowercase(lines[i].as_str());
        let line = chars_of(low.as_str());
        assert(line@ == text::unicode_lowercase(ls[i as int]));
        let mut j: usize = 0;
        while j < messages.len()
            invariant
                i < lines@.len(),
                ls == text::texts(lines@),
                j <= messages@.len(),
                ms == str_texts(messages@),
                line@ == text::unicode_lowercase(ls[i as int]),
                forall|k: int| 0 <= k < j ==> !text::has_part(line@, #[trigger] ms[k]),
            decreases messages@.len() - j,
        {
            assert(ms[j as int] == messages@[j as int]@);
            if contains(line.as_slice(), messages[j]) {
                assert(line_shows(ls[i as int], ms));
                return true;
            }
            j += 1;
        }
        i += 1;
    }
    false
}

/// The value of a percentage, but no more than a hundred.
pub open spec fn percent_value(p: Seq<char>) -> nat {
    match text::number_of(without_percent(p), u32::MAX as nat) {
        Some(n) => if n <= 100 {
            n
        } else {
            100
        },
        None => 0,
    }
}

/// The value of the percentage on the last line that shows one.
pub open spec fn progress_value(ls: Seq<Seq<char>>) -> Option<nat> {
    match progress_in(ls) {
        Some(p) => Some(percent_value(p)),
        None => None,
    }
}

/// Reads the transfer progress from the lines of output.
pub fn transfer_percent(lines: &[String]) -> (r: Option<u8>)
    ensures
        match r {
            Some(n) => progress_value(text::texts(lines@)) == Some(n as nat),
            None => progress_value(text::texts(lines@)) is None,
        },
{
    match scrape_transfer_progress(lines) {
        Some(p) => {
            let v = chars_of(p.as_str());
            let n: u64 = match parse_number(strip_percent(v.as_slice()), u32::MAX as u64) {
                Some(n) => n,
                None => 0,
            };
            Some(
                if n <= 100 {
                    n as u8
                } else {
                    100
                },
            )
        },
        None => None,
    }
}

} // verus!
