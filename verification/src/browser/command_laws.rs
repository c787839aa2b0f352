//! What the commands that the browsers send mean to the programs that read them.
use vstd::prelude::*;
use crate::browser::common::{
    BrowserFocus, CoreView, DeleteKind, DeleteLocation, PanelView, TransferDirection,
};
use crate::browser::parse;
use crate::browser::path;
use crate::browser::sftp;
use crate::browser::sftp::{SftpState, SftpView};
use crate::browser::ssh::{SshBrowserState, SshView};

verus! {

// ---------------------------------------------------------------------------
// Reading a command
// ---------------------------------------------------------------------------

/// How far a reader of commands has come: the words that are complete, the one
/// that it is in, and whether a quote or a backslash is open.
#[verifier::ext_equal]
pub struct Reading {
    pub words: Seq<Seq<char>>,
    pub word: Seq<char>,
    /// Whether a word was begun.
    pub begun: bool,
    pub quoted: bool,
    pub escaped: bool,
    /// Whether nothing outside of quotes meant more than itself.
    pub clean: bool,
}

/// The start of a command.
pub open spec fn nothing_read() -> Reading {
    Reading {
        words: Seq::empty(),
        word: Seq::empty(),
        begun: false,
        quoted: false,
        escaped: false,
        clean: true,
    }
}

/// Whether a character outside of quotes means more than itself.
pub open spec fn is_special(c: char) -> bool {
    c == '\r' || c == '\n' || c == ';' || c == '&' || c == '|' || c == '<' || c == '>' || c == '('
        || c == ')' || c == '$' || c == '`' || c == '"' || c == '*' || c == '?' || c == '['
        || c == '#' || c == '~'
}

/// What a reader makes of one more character. Words end at blanks; between single
/// quotes, and behind a backslash, every character stands for itself.
pub open spec fn read_char(r: Reading, c: char) -> Reading {
    if r.quoted {
        if c == '\'' {
            Reading { quoted: false, ..r }
        } else {
            Reading { word: r.word.push(c), ..r }
        }
    } else if r.escaped {
        Reading { word: r.word.push(c), escaped: false, ..r }
    } else if c == '\'' {
        Reading { begun: true, quoted: true, ..r }
    } else if c == '\\' {
        Reading { begun: true, escaped: true, ..r }
    } else if c == ' ' || c == '\t' {
        if r.begun {
            Reading { words: r.words.push(r.word), word: Seq::empty(), begun: false, ..r }
        } else {
            r
        }
    } else {
        Reading {
            word: r.word.push(c),
            begun: true,
            clean: r.clean && !is_special(c),
            ..r
        }
    }
}

/// What a reader makes of a text.
pub open spec fn read_on(r: Reading, s: Seq<char>) -> Reading
    decreases s.len(),
{
    if s.len() == 0 {
        r
    } else {
        read_char(read_on(r, s.drop_last()), s.last())
    }
}

/// The words of a text. A text with an open quote, or with a character outside of
/// quotes that means more than itself, has none.
pub open spec fn command_words(s: Seq<char>) -> Option<Seq<Seq<char>>> {
    let r = read_on(nothing_read(), s);
    if r.quoted || r.escaped || !r.clean {
        None
    } else if r.begun {
        Some(r.words.push(r.word))
    } else {
        Some(r.words)
    }
}

/// Whether a text is one line that is read as these words.
pub open spec fn is_command(s: Seq<char>, words: Seq<Seq<char>>) -> bool {
    &&& s.len() >= 2
    &&& s[s.len() - 2] == '\r'
    &&& s[s.len() - 1] == '\n'
    &&& command_words(s.take(s.len() - 2)) == Some(words)
}

proof fn lemma_read_concat(r: Reading, a: Seq<char>, b: Seq<char>)
    ensures
        read_on(r, a + b) == read_on(read_on(r, a), b),
    decreases b.len(),
{
    if b.len() == 0 {
        assert(a + b =~= a);
    } else {
        lemma_read_concat(r, a, b.drop_last());
        assert((a + b).drop_last() =~= a + b.drop_last());
        assert((a + b).last() == b.last());
    }
}

proof fn lemma_read_one(r: Reading, c: char)
    ensures
        read_on(r, seq![c]) == read_char(r, c),
{
    assert(seq![c].drop_last() =~= Seq::empty());
    assert(read_on(r, seq![c].drop_last()) == r);
}

/// A quoted text is read as a part of one word, as it is.
proof fn lemma_read_quoted(r: Reading, x: Seq<char>)
    requires
        !r.quoted,
        !r.escaped,
    ensures
        read_on(r, parse::shell_quoted(x)) == (Reading { begun: true, word: r.word + x, ..r }),
{
    let open = seq!['\''];
    lemma_read_one(r, '\'');
    lemma_read_concat(r, open, parse::quotes_escaped(x));
    lemma_read_escaped(read_on(r, open), x);
    lemma_read_concat(r, open + parse::quotes_escaped(x), seq!['\'']);
    lemma_read_one(read_on(r, open + parse::quotes_escaped(x)), '\'');
}

proof fn lemma_read_escaped(r: Reading, x: Seq<char>)
    requires
        r.quoted,
        r.begun,
        !r.escaped,
    ensures
        read_on(r, parse::quotes_escaped(x)) == (Reading { word: r.word + x, ..r }),
    decreases x.len(),
{
    if x.len() == 0 {
        assert(r.word + x =~= r.word);
    } else {
        let y = x.drop_last();
        lemma_read_escaped(r, y);
        let m = read_on(r, parse::quotes_escaped(y));
        if x.last() == '\'' {
            let q = seq!['\'', '\\', '\'', '\''];
            lemma_read_concat(r, parse::quotes_escaped(y), q);
            assert(q =~= seq!['\''] + seq!['\\'] + seq!['\''] + seq!['\'']);
            lemma_read_concat(m, seq!['\''] + seq!['\\'] + seq!['\''], seq!['\'']);
            lemma_read_concat(m, seq!['\''] + seq!['\\'], seq!['\'']);
            lemma_read_concat(m, seq!['\''], seq!['\\']);
            lemma_read_one(m, '\'');
            let m1 = read_char(m, '\'');
            lemma_read_one(m1, '\\');
            let m2 = read_char(m1, '\\');
            lemma_read_one(m2, '\'');
            let m3 = read_char(m2, '\'');
            lemma_read_one(m3, '\'');
        } else {
            assert(parse::quotes_escaped(x).drop_last() =~= parse::quotes_escaped(y));
        }
        assert(r.word + x =~= (r.word + y).push(x.last()));
    }
}

/// A word without anything special, and a blank behind it.
proof fn lemma_read_bare(r: Reading, w: Seq<char>)
    requires
        w.len() > 0,
        !r.quoted,
        !r.escaped,
        !r.begun,
        r.word == Seq::<char>::empty(),
        forall|i: int| 0 <= i < w.len() ==> is_bare(#[trigger] w[i]),
    ensures
        read_on(r, w.push(' ')) == (Reading { words: r.words.push(w), ..r }),
{
    lemma_read_bare_part(r, w, w.len() as int);
    assert(w.take(w.len() as int) =~= w);
    assert(w.push(' ').drop_last() =~= w);
}

/// Whether a character stands for itself, and ends no word.
pub open spec fn is_bare(c: char) -> bool {
    !is_special(c) && c != ' ' && c != '\t' && c != '\'' && c != '\\'
}

proof fn lemma_read_bare_part(r: Reading, w: Seq<char>, n: int)
    requires
        0 <= n <= w.len(),
        !r.quoted,
        !r.escaped,
        !r.begun,
        r.word == Seq::<char>::empty(),
        forall|i: int| 0 <= i < w.len() ==> is_bare(#[trigger] w[i]),
    ensures
        read_on(r, w.take(n)) == (Reading { word: w.take(n), begun: n > 0, ..r }),
    decreases n,
{
    if n > 0 {
        lemma_read_bare_part(r, w, n - 1);
        assert(w.take(n).drop_last() =~= w.take(n - 1));
        assert(w.take(n).last() == w[n - 1]);
        assert(w.take(n) =~= w.take(n - 1).push(w[n - 1]));
    } else {
        assert(w.take(n) =~= Seq::empty());
    }
}

/// A line of bare words, each with a blank behind it, and a quoted text is read as
/// those words and that text.
proof fn lemma_one_argument(s: Seq<char>, head: Seq<char>, words: Seq<Seq<char>>, x: Seq<char>)
    requires
        s == head + parse::shell_quoted(x) + "\r\n"@,
        read_on(nothing_read(), head) == (Reading { words, ..nothing_read() }),
    ensures
        is_command(s, words.push(x)),
{
    reveal_strlit("\r\n");
    let t = head + parse::shell_quoted(x);
    lemma_read_concat(nothing_read(), head, parse::shell_quoted(x));
    lemma_read_quoted(read_on(nothing_read(), head), x);
    assert(s.take(s.len() - 2) =~= t);
    assert(Seq::<char>::empty() + x =~= x);
}

/// The same with a second quoted text behind a blank.
proof fn lemma_two_arguments(
    s: Seq<char>,
    head: Seq<char>,
    words: Seq<Seq<char>>,
    x: Seq<char>,
    y: Seq<char>,
)
    requires
        s == head + parse::shell_quoted(x) + " "@ + (parse::shell_quoted(y) + "\r\n"@),
        read_on(nothing_read(), head) == (Reading { words, ..nothing_read() }),
    ensures
        is_command(s, words.push(x).push(y)),
{
    reveal_strlit(" ");
    let t = head + parse::shell_quoted(x);
    lemma_read_concat(nothing_read(), head, parse::shell_quoted(x));
    lemma_read_quoted(read_on(nothing_read(), head), x);
    lemma_read_concat(nothing_read(), t, " "@);
    assert(" "@ =~= seq![' ']);
    lemma_read_one(read_on(nothing_read(), t), ' ');
    assert(Seq::<char>::empty() + x =~= x);
    assert(s =~= (t + " "@) + parse::shell_quoted(y) + "\r\n"@);
    lemma_one_argument(s, t + " "@, words.push(x), y);
}

/// The head of a command: its name and a blank.
proof fn lemma_head(name: Seq<char>)
    requires
        name.len() > 0,
        forall|i: int| 0 <= i < name.len() ==> is_bare(#[trigger] name[i]),
    ensures
        read_on(nothing_read(), name.push(' ')) == (Reading {
            words: seq![name],
            ..nothing_read()
        }),
{
    lemma_read_bare(nothing_read(), name);
    assert(Seq::<Seq<char>>::empty().push(name) =~= seq![name]);
}

/// One more bare word in the head of a command.
proof fn lemma_longer_head(head: Seq<char>, words: Seq<Seq<char>>, w: Seq<char>)
    requires
        read_on(nothing_read(), head) == (Reading { words, ..nothing_read() }),
        w.len() > 0,
        forall|i: int| 0 <= i < w.len() ==> is_bare(#[trigger] w[i]),
    ensures
        read_on(nothing_read(), head + w.push(' ')) == (Reading {
            words: words.push(w),
            ..nothing_read()
        }),
{
    lemma_read_concat(nothing_read(), head, w.push(' '));
    lemma_read_bare(read_on(nothing_read(), head), w);
}

// ---------------------------------------------------------------------------
// Directories and what is in them
// ---------------------------------------------------------------------------

/// Whether `d` is the directory `dir` with exactly one slash at its end.
pub open spec fn closes_directory(dir: Seq<char>, d: Seq<char>) -> bool {
    &&& d.len() > 0
    &&& d.last() == '/'
    &&& d.len() > 1 ==> d[d.len() - 2] != '/'
    &&& d.len() <= dir.len() + 1
    &&& forall|i: int| 0 <= i < d.len() - 1 ==> #[trigger] d[i] == dir[i]
    &&& forall|i: int| d.len() - 1 <= i < dir.len() ==> #[trigger] dir[i] == '/'
}

/// Whether `p` is the path of `name` in the remote directory `dir`.
pub open spec fn lies_in(dir: Seq<char>, name: Seq<char>, p: Seq<char>) -> bool {
    &&& p.len() >= name.len()
    &&& p.skip(p.len() - name.len()) == name
    &&& closes_directory(dir, p.take(p.len() - name.len()))
}

/// Whether `p` is the path of `name` in the local directory `dir`: the directory,
/// a slash where it does not end in one, and the name.
pub open spec fn lies_in_local(dir: Seq<char>, name: Seq<char>, p: Seq<char>) -> bool {
    let n = p.len() - name.len();
    &&& n >= dir.len()
    &&& p.skip(n) == name
    &&& p.take(dir.len() as int) == dir
    &&& if dir.len() == 0 || dir.last() == '/' {
        n == dir.len()
    } else {
        n == dir.len() + 1 && p[n - 1] == '/'
    }
}

/// Whether `t` is `s` with a slash for every backslash.
pub open spec fn slashes_turned(s: Seq<char>, t: Seq<char>) -> bool {
    &&& t.len() == s.len()
    &&& forall|i: int|
        0 <= i < s.len() ==> #[trigger] t[i] == if s[i] == '\\' {
            '/'
        } else {
            s[i]
        }
}

proof fn lemma_without_slashes(dir: Seq<char>)
    ensures
        closes_directory(dir, path::without_slashes(dir).push('/')),
    decreases dir.len(),
{
    if dir.len() > 0 && dir.last() == '/' {
        let r = dir.drop_last();
        lemma_without_slashes(r);
        let d = path::without_slashes(r).push('/');
        assert forall|i: int| 0 <= i < d.len() - 1 implies #[trigger] d[i] == dir[i] by {
            assert(d[i] == r[i]);
        }
        assert forall|i: int| d.len() - 1 <= i < dir.len() implies #[trigger] dir[i] == '/' by {
            if i < r.len() {
                assert(r[i] == '/');
            }
        }
    }
}

/// The slashes at the end of a directory, however many there are, make no
/// difference to what is in it, and nothing else of the directory is lost.
pub proof fn law_remote_children_lie_in_their_directory(dir: Seq<char>, name: Seq<char>)
    ensures
        lies_in(dir, name, path::remote_child(dir, name)),
{
    reveal_strlit("/");
    lemma_without_slashes(dir);
    let p = path::remote_child(dir, name);
    assert(p.skip(p.len() - name.len()) =~= name);
    assert(p.take(p.len() - name.len()) =~= path::without_slashes(dir).push('/'));
}

/// A local name that is not a path from the root lies in its directory.
pub proof fn law_local_children_lie_in_their_directory(dir: Seq<char>, name: Seq<char>)
    requires
        name.len() == 0 || name[0] != '/',
    ensures
        lies_in_local(dir, name, path::joined(dir, name)),
{
    let p = path::joined(dir, name);
    assert(p.skip(p.len() - name.len()) =~= name);
    assert(p.take(dir.len() as int) =~= dir);
}

/// Turning backslashes into slashes leaves every other character in its place.
pub proof fn law_backslashes_become_slashes(s: Seq<char>)
    ensures
        slashes_turned(s, path::with_slashes(s)),
        !path::with_slashes(s).contains('\\'),
{
    let t = path::with_slashes(s);
    assert forall|i: int| 0 <= i < t.len() implies t[i] != '\\' by {
        assert(t[i] == if s[i] == '\\' {
            '/'
        } else {
            s[i]
        });
    }
}

// ---------------------------------------------------------------------------
// What is transferred
// ---------------------------------------------------------------------------

/// The row under the cursor of a panel, where there is one and it does not lead to
/// the parent directory.
pub open spec fn row_to_take(panel: PanelView) -> Option<int> {
    match panel.sel.selected {
        Some(i) => if i < panel.entries.len() && panel.entries[i as int].name != ".."@ {
            Some(i as int)
        } else {
            None
        },
        None => None,
    }
}

/// What waits is transferred first, in its order. Otherwise a download takes what
/// is under the cursor of the remote panel, by its full path.
pub proof fn law_download_takes_what_is_under_the_cursor(c: CoreView)
    ensures
        c.transfer.pending.len() > 0 ==> c.source(TransferDirection::Download) == Some(
            c.transfer.pending[0],
        ),
        c.transfer.pending.len() == 0 ==> match (
            c.source(TransferDirection::Download),
            row_to_take(c.remote),
        ) {
            (Some(p), Some(i)) => {
                &&& p.name == c.remote.entries[i].name
                &&& p.is_dir == c.remote.entries[i].is_dir
                &&& lies_in(c.remote.path, p.name, p.path)
            },
            (None, None) => true,
            _ => false,
        },
{
    if let Some(i) = row_to_take(c.remote) {
        law_remote_children_lie_in_their_directory(c.remote.path, c.remote.entries[i].name);
    }
}

/// What waits is transferred first, in its order. Otherwise an upload takes what is
/// under the cursor of the local panel, by its full path, with slashes.
pub proof fn law_upload_takes_what_is_under_the_cursor(c: CoreView)
    ensures
        c.transfer.pending.len() > 0 ==> c.source(TransferDirection::Upload) == Some(
            c.transfer.pending[0],
        ),
        c.transfer.pending.len() == 0 ==> match (
            c.source(TransferDirection::Upload),
            row_to_take(c.local),
        ) {
            (Some(p), Some(i)) => {
                &&& p.name == c.local.entries[i].name
                &&& p.is_dir == c.local.entries[i].is_dir
                &&& p.name.len() == 0 || p.name[0] != '/' ==> is_turned_child(
                    c.local.path,
                    p.name,
                    p.path,
                )
            },
            (None, None) => true,
            _ => false,
        },
{
    if let Some(i) = row_to_take(c.local) {
        let name = c.local.entries[i].name;
        let full = path::joined(c.local.path, name);
        law_backslashes_become_slashes(full);
        if name.len() == 0 || name[0] != '/' {
            law_local_children_lie_in_their_directory(c.local.path, name);
            assert(lies_in_local(c.local.path, name, full));
        }
    }
}

/// Whether `p` is the path of `name` in the local directory `dir`, with slashes for
/// backslashes.
pub open spec fn is_turned_child(dir: Seq<char>, name: Seq<char>, p: Seq<char>) -> bool {
    exists|full: Seq<char>| #[trigger] lies_in_local(dir, name, full) && slashes_turned(full, p)
}

/// Whether one more text was sent than before, and nothing else was changed.
pub open spec fn one_more(before: Seq<Seq<char>>, after: Seq<Seq<char>>) -> bool {
    &&& after.len() == before.len() + 1
    &&& after.drop_last() == before
}

/// The words of a transfer command: its name, an option for directories, the
/// source and the destination.
pub open spec fn transfer_words(
    name: Seq<char>,
    is_dir: bool,
    from: Seq<char>,
    to: Seq<char>,
) -> Seq<Seq<char>> {
    if is_dir {
        seq![name, "-r"@, from, to]
    } else {
        seq![name, from, to]
    }
}

proof fn lemma_transfer(
    s: Seq<char>,
    name: Seq<char>,
    is_dir: bool,
    from: Seq<char>,
    to: Seq<char>,
)
    requires
        name.len() > 0,
        forall|i: int| 0 <= i < name.len() ==> is_bare(#[trigger] name[i]),
        s == name.push(' ') + sftp::recursive_flag(is_dir) + parse::shell_quoted(from) + " "@ + (
        parse::shell_quoted(to) + "\r\n"@),
    ensures
        is_command(s, transfer_words(name, is_dir, from, to)),
{
    reveal_strlit("-r");
    reveal_strlit("-r ");
    reveal_strlit("");
    lemma_head(name);
    if is_dir {
        lemma_longer_head(name.push(' '), seq![name], "-r"@);
        assert("-r"@.push(' ') =~= "-r "@);
        lemma_two_arguments(s, name.push(' ') + "-r "@, seq![name].push("-r"@), from, to);
        assert(seq![name].push("-r"@).push(from).push(to) =~= transfer_words(
            name,
            is_dir,
            from,
            to,
        ));
    } else {
        assert(name.push(' ') + ""@ =~= name.push(' '));
        lemma_two_arguments(s, name.push(' '), seq![name], from, to);
        assert(seq![name].push(from).push(to) =~= transfer_words(name, is_dir, from, to));
    }
}

/// An upload over `sftp` is one command, read as `put`, an option for directories,
/// the path of what was chosen, and the directory that the remote panel shows, with
/// one slash at its end.
pub proof fn law_sftp_upload_goes_where_the_panel_is(s: SftpView, now: u64)
    requires
        s.state == SftpState::Idle,
        s.core.source(TransferDirection::Upload) is Some,
    ensures
        ({
            let p = s.core.source(TransferDirection::Upload)->0;
            let n = s.transfer_asked(TransferDirection::Upload, now);
            &&& one_more(s.sftp.outbox, n.sftp.outbox)
            &&& n.state == SftpState::Transferring
            &&& exists|to: Seq<char>| #[trigger]
                closes_directory(s.core.remote.path, to) && is_command(
                    n.sftp.outbox.last(),
                    transfer_words("put"@, p.is_dir, p.path, to),
                )
        }),
{
    reveal_strlit("put");
    reveal_strlit("put ");
    reveal_strlit("/");
    let p = s.core.source(TransferDirection::Upload)->0;
    let n = s.transfer_asked(TransferDirection::Upload, now);
    let sent = sftp::put_command(p, s.core.remote.path);
    let to = path::without_slashes(s.core.remote.path) + "/"@;
    lemma_without_slashes(s.core.remote.path);
    assert(to =~= path::without_slashes(s.core.remote.path).push('/'));
    assert("put"@.push(' ') =~= "put "@);
    lemma_transfer(sent, "put"@, p.is_dir, p.path, to);
    assert(n.sftp.outbox == s.sftp.outbox.push(sent));
    assert(n.sftp.outbox.drop_last() =~= s.sftp.outbox);
    assert(closes_directory(s.core.remote.path, to));
}

/// A download over `sftp` is one command, read as `get`, an option for
/// directories, the path of what was chosen, and the directory that the local
/// panel shows, with a slash behind it.
pub proof fn law_sftp_download_goes_where_the_panel_is(s: SftpView, now: u64)
    requires
        s.state == SftpState::Idle,
        s.core.source(TransferDirection::Download) is Some,
    ensures
        ({
            let p = s.core.source(TransferDirection::Download)->0;
            let n = s.transfer_asked(TransferDirection::Download, now);
            &&& one_more(s.sftp.outbox, n.sftp.outbox)
            &&& n.state == SftpState::Transferring
            &&& exists|dir: Seq<char>| #[trigger]
                slashes_turned(s.core.local.path, dir) && is_command(
                    n.sftp.outbox.last(),
                    transfer_words("get"@, p.is_dir, p.path, dir.push('/')),
                )
        }),
{
    reveal_strlit("get");
    reveal_strlit("get ");
    reveal_strlit("/");
    let p = s.core.source(TransferDirection::Download)->0;
    let n = s.transfer_asked(TransferDirection::Download, now);
    let sent = sftp::get_command(p, s.core.local.path);
    let dir = path::with_slashes(s.core.local.path);
    law_backslashes_become_slashes(s.core.local.path);
    assert(dir + "/"@ =~= dir.push('/'));
    assert("get"@.push(' ') =~= "get "@);
    lemma_transfer(sent, "get"@, p.is_dir, p.path, dir.push('/'));
    assert(n.sftp.outbox == s.sftp.outbox.push(sent));
    assert(n.sftp.outbox.drop_last() =~= s.sftp.outbox);
    assert(slashes_turned(s.core.local.path, dir));
}

/// Uploads of the same thing into directories that differ in more than slashes at
/// the end are told apart by what is sent.
pub proof fn law_sftp_uploads_into_different_directories_differ(
    s: SftpView,
    t: SftpView,
    now: u64,
    d: Seq<char>,
)
    requires
        s.state == SftpState::Idle,
        t.state == SftpState::Idle,
        s.core.source(TransferDirection::Upload) is Some,
        s.core.source(TransferDirection::Upload) == t.core.source(TransferDirection::Upload),
        closes_directory(s.core.remote.path, d),
        !closes_directory(t.core.remote.path, d),
    ensures
        s.transfer_asked(TransferDirection::Upload, now).sftp.outbox.last() != t.transfer_asked(
            TransferDirection::Upload,
            now,
        ).sftp.outbox.last(),
{
    law_sftp_upload_goes_where_the_panel_is(s, now);
    law_sftp_upload_goes_where_the_panel_is(t, now);
    let p = s.core.source(TransferDirection::Upload)->0;
    let a = s.transfer_asked(TransferDirection::Upload, now).sftp.outbox.last();
    let b = t.transfer_asked(TransferDirection::Upload, now).sftp.outbox.last();
    let x = choose|to: Seq<char>| #[trigger]
        closes_directory(s.core.remote.path, to) && is_command(
            a,
            transfer_words("put"@, p.is_dir, p.path, to),
        );
    let y = choose|to: Seq<char>| #[trigger]
        closes_directory(t.core.remote.path, to) && is_command(
            b,
            transfer_words("put"@, p.is_dir, p.path, to),
        );
    lemma_closed_once(s.core.remote.path, x, d);
    if a == b {
        let u = transfer_words("put"@, p.is_dir, p.path, x);
        let v = transfer_words("put"@, p.is_dir, p.path, y);
        assert(u == v);
        assert(u.last() == x);
        assert(v.last() == y);
    }
}

proof fn lemma_closed_once(dir: Seq<char>, x: Seq<char>, y: Seq<char>)
    requires
        closes_directory(dir, x),
        closes_directory(dir, y),
    ensures
        x == y,
{
    if x.len() < y.len() {
        assert(dir[y.len() - 2] == '/');
        assert(y[y.len() - 2] == dir[y.len() - 2]);
    } else if y.len() < x.len() {
        assert(dir[x.len() - 2] == '/');
        assert(x[x.len() - 2] == dir[x.len() - 2]);
    } else {
        assert forall|i: int| 0 <= i < x.len() implies x[i] == y[i] by {
            if i < x.len() - 1 {
                assert(x[i] == dir[i] && y[i] == dir[i]);
            }
        }
        assert(x =~= y);
    }
}

// ---------------------------------------------------------------------------
// The `scp` that is asked for
// ---------------------------------------------------------------------------

/// The `scp` of a download copies from the host to the local directory: the last
/// argument is the directory that the local panel shows, and the one before it is
/// the host, a colon and the path of what was chosen.
pub proof fn law_scp_download_copies_from_the_host(s: SshView)
    requires
        s.free(),
        s.core.source(TransferDirection::Download) is Some,
    ensures
        ({
            let p = s.core.source(TransferDirection::Download)->0;
            let r = s.transfer_asked(TransferDirection::Download).request;
            let a = r->0.args;
            &&& r is Some
            &&& options_before(a, p.is_dir)
            &&& slashes_turned(s.core.local.path, a[a.len() - 1])
            &&& on_host(s.core.host, p.path, a[a.len() - 2])
            &&& r->0.name == p.name
            &&& r->0.is_dir == p.is_dir
            &&& r->0.direction == TransferDirection::Download
        }),
{
    reveal_strlit(":");
    let p = s.core.source(TransferDirection::Download)->0;
    let a = s.transfer_asked(TransferDirection::Download).request->0.args;
    law_backslashes_become_slashes(s.core.local.path);
    let from = s.core.host + ":"@ + p.path;
    assert(a[a.len() - 2] == from);
    assert(from.take(s.core.host.len() as int) =~= s.core.host);
    assert(from.skip(s.core.host.len() as int + 1) =~= p.path);
}

/// The `scp` of an upload copies to the host: the last argument is the host, a
/// colon and the directory that the remote panel shows, and the one before it is
/// the path of what was chosen.
pub proof fn law_scp_upload_copies_to_the_host(s: SshView)
    requires
        s.free(),
        s.core.source(TransferDirection::Upload) is Some,
    ensures
        ({
            let p = s.core.source(TransferDirection::Upload)->0;
            let r = s.transfer_asked(TransferDirection::Upload).request;
            let a = r->0.args;
            &&& r is Some
            &&& options_before(a, p.is_dir)
            &&& a[a.len() - 2] == p.path
            &&& exists|dir: Seq<char>| #[trigger]
                closes_directory(s.core.remote.path, dir.push('/')) && on_host(
                    s.core.host,
                    dir,
                    a[a.len() - 1],
                )
            &&& r->0.name == p.name
            &&& r->0.is_dir == p.is_dir
            &&& r->0.direction == TransferDirection::Upload
        }),
{
    reveal_strlit(":");
    let p = s.core.source(TransferDirection::Upload)->0;
    let a = s.transfer_asked(TransferDirection::Upload).request->0.args;
    let dir = path::without_slashes(s.core.remote.path);
    lemma_without_slashes(s.core.remote.path);
    let to = s.core.host + ":"@ + dir;
    assert(a[a.len() - 1] == to);
    assert(to.take(s.core.host.len() as int) =~= s.core.host);
    assert(to.skip(s.core.host.len() as int + 1) =~= dir);
    assert(closes_directory(s.core.remote.path, dir.push('/')));
}

/// Whether `a` names `p` on a host.
pub open spec fn on_host(host: Seq<char>, p: Seq<char>, a: Seq<char>) -> bool {
    &&& a.len() == host.len() + 1 + p.len()
    &&& a.take(host.len() as int) == host
    &&& a[host.len() as int] == ':'
    &&& a.skip(host.len() as int + 1) == p
}

/// Whether two arguments stand behind the options: `-O`, and for directories `-r`.
pub open spec fn options_before(a: Seq<Seq<char>>, is_dir: bool) -> bool {
    &&& a.len() == if is_dir {
        4int
    } else {
        3
    }
    &&& a[0] == "-O"@
    &&& is_dir ==> a[1] == "-r"@
}

// ---------------------------------------------------------------------------
// Deletion
// ---------------------------------------------------------------------------

/// A confirmed remote deletion over `sftp` is one command, read as its name and
/// the full path that the question named.
pub proof fn law_sftp_deletes_what_the_question_named(s: SftpView)
    requires
        s.core.delete.confirm is Some,
        s.core.delete.confirm->0.location == DeleteLocation::Remote,
    ensures
        ({
            let t = s.core.delete.confirm->0;
            let n = s.delete_confirmed();
            &&& one_more(s.sftp.outbox, n.sftp.outbox)
            &&& is_command(
                n.sftp.outbox.last(),
                seq![
                    if t.kind == DeleteKind::Dir {
                        "rmdir"@
                    } else {
                        "rm"@
                    },
                    t.path,
                ],
            )
            &&& n.state == SftpState::WaitingDelete
            &&& n.core.delete.confirm is None
            &&& n.core.delete.pending_name == Some(t.path)
            &&& n.core.delete.pending == s.core.delete.pending
        }),
{
    reveal_strlit("rmdir");
    reveal_strlit("rmdir ");
    reveal_strlit("rm");
    reveal_strlit("rm ");
    let t = s.core.delete.confirm->0;
    let n = s.delete_confirmed();
    let sent = sftp::sftp_delete_command(t.kind, t.path);
    let name = if t.kind == DeleteKind::Dir {
        "rmdir"@
    } else {
        "rm"@
    };
    assert("rmdir"@.push(' ') =~= "rmdir "@);
    assert("rm"@.push(' ') =~= "rm "@);
    lemma_head(name);
    lemma_one_argument(sent, name.push(' '), seq![name], t.path);
    assert(seq![name].push(t.path) =~= seq![name, t.path]);
    assert(n.sftp.outbox == s.sftp.outbox.push(sent));
    assert(n.sftp.outbox.drop_last() =~= s.sftp.outbox);
}

/// A confirmed remote deletion over the shell is one command, read as `rm`, an
/// option for directories, the end of the options, and the full path that the
/// question named.
pub proof fn law_ssh_deletes_what_the_question_named(s: SshView)
    requires
        s.core.delete.confirm is Some,
        s.core.delete.confirm->0.location == DeleteLocation::Remote,
        s.request is None,
    ensures
        ({
            let t = s.core.delete.confirm->0;
            let n = s.delete_confirmed();
            &&& one_more(s.ssh.outbox, n.ssh.outbox)
            &&& is_command(
                n.ssh.outbox.last(),
                if t.kind == DeleteKind::Dir {
                    seq!["rm"@, "-rf"@, "--"@, t.path]
                } else {
                    seq!["rm"@, "--"@, t.path]
                },
            )
            &&& n.state == SshBrowserState::WaitingDelete
            &&& n.core.delete.confirm is None
            &&& n.core.delete.pending_name == Some(t.path)
            &&& n.core.delete.pending == s.core.delete.pending
        }),
{
    reveal_strlit("rm");
    reveal_strlit("-rf");
    reveal_strlit("--");
    reveal_strlit("rm -rf -- ");
    reveal_strlit("rm -- ");
    let t = s.core.delete.confirm->0;
    let n = s.delete_confirmed();
    let sent = n.ssh.outbox.last();
    lemma_head("rm"@);
    let rm = "rm"@.push(' ');
    if t.kind == DeleteKind::Dir {
        lemma_longer_head(rm, seq!["rm"@], "-rf"@);
        lemma_longer_head(rm + "-rf"@.push(' '), seq!["rm"@].push("-rf"@), "--"@);
        let head = rm + "-rf"@.push(' ') + "--"@.push(' ');
        assert(head =~= "rm -rf -- "@);
        lemma_one_argument(sent, head, seq!["rm"@].push("-rf"@).push("--"@), t.path);
        assert(seq!["rm"@].push("-rf"@).push("--"@).push(t.path) =~= seq![
            "rm"@,
            "-rf"@,
            "--"@,
            t.path,
        ]);
    } else {
        lemma_longer_head(rm, seq!["rm"@], "--"@);
        let head = rm + "--"@.push(' ');
        assert(head =~= "rm -- "@);
        lemma_one_argument(sent, head, seq!["rm"@].push("--"@), t.path);
        assert(seq!["rm"@].push("--"@).push(t.path) =~= seq!["rm"@, "--"@, t.path]);
    }
    assert(n.ssh.outbox.drop_last() =~= s.ssh.outbox);
}

/// The question about the entry under the cursor names that entry, by its full
/// path in the directory that its panel shows, and says on which side it is and
/// whether it is a directory. The link to the parent directory is not asked about.
pub proof fn law_question_names_what_is_under_the_cursor(c: CoreView, location: DeleteLocation)
    ensures
        ({
            let panel = if location == DeleteLocation::Local {
                c.local
            } else {
                c.remote
            };
            let at = panel.sel.selected;
            let d = c.asked_to_delete_one(location).delete;
            if at is Some && at->0 < panel.entries.len() && panel.entries[at->0 as int].name
                != ".."@ {
                let e = panel.entries[at->0 as int];
                &&& d.confirm is Some
                &&& d.confirm->0.location == location
                &&& (d.confirm->0.kind == DeleteKind::Dir) == e.is_dir
                &&& location == DeleteLocation::Remote ==> lies_in(
                    panel.path,
                    e.name,
                    d.confirm->0.path,
                )
                &&& location == DeleteLocation::Local && (e.name.len() == 0 || e.name[0] != '/')
                    ==> lies_in_local(panel.path, e.name, d.confirm->0.path)
            } else {
                d == c.delete
            }
        }),
{
    let panel = c.panel_at(location);
    if let Some(i) = panel.sel.selected {
        if i < panel.entries.len() {
            let name = panel.entries[i as int].name;
            law_remote_children_lie_in_their_directory(panel.path, name);
            if name.len() == 0 || name[0] != '/' {
                law_local_children_lie_in_their_directory(panel.path, name);
            }
        }
    }
}

// ---------------------------------------------------------------------------
// Listing
// ---------------------------------------------------------------------------

/// A listing is asked for by one command, read as its name, its options and the
/// directory.
pub proof fn law_ls_is_read_back(path: Seq<char>)
    ensures
        is_command(sftp::ls_command(path), seq!["ls"@, "-la"@, path]),
{
    reveal_strlit("ls");
    reveal_strlit("-la");
    reveal_strlit("ls -la ");
    lemma_head("ls"@);
    let ls = "ls"@.push(' ');
    lemma_longer_head(ls, seq!["ls"@], "-la"@);
    let head = ls + "-la"@.push(' ');
    assert(head =~= "ls -la "@);
    lemma_one_argument(sftp::ls_command(path), head, seq!["ls"@].push("-la"@), path);
    assert(seq!["ls"@].push("-la"@).push(path) =~= seq!["ls"@, "-la"@, path]);
}

/// Whether a browser has gone from `from` to `to`, into what is called `name`: up
/// to what is before the last slash for `..`, and otherwise into that directory.
pub open spec fn went_to(from: Seq<char>, name: Seq<char>, to: Seq<char>) -> bool {
    if name != ".."@ {
        lies_in(from, name, to)
    } else if !from.contains('/') {
        to == from
    } else {
        &&& to.len() > 0
        &&& to.len() <= from.len()
        &&& forall|i: int| 0 <= i < to.len() ==> #[trigger] to[i] == from[i]
        &&& {
            let end = if to.len() == 1 && to[0] == '/' && !(from.len() > 1 && from[1] == '/') {
                0
            } else {
                to.len() as int
            };
            &&& end < from.len()
            &&& from[end] == '/'
            &&& forall|i: int| end < i < from.len() ==> #[trigger] from[i] != '/'
        }
    }
}

proof fn lemma_last_slash(s: Seq<char>, n: int)
    requires
        0 <= n <= s.len(),
    ensures
        ({
            let i = path::last_slash(s, n);
            &&& -1 <= i < n
            &&& i >= 0 ==> s[i] == '/'
            &&& forall|j: int| i < j < n ==> #[trigger] s[j] != '/'
        }),
    decreases n,
{
    if n > 0 && s[n - 1] != '/' {
        lemma_last_slash(s, n - 1);
    }
}

/// Going to a remote directory leads there.
pub proof fn law_changing_the_directory_leads_there(from: Seq<char>, name: Seq<char>)
    ensures
        went_to(from, name, path::changed_directory(from, name)),
{
    reveal_strlit("/");
    law_remote_children_lie_in_their_directory(from, name);
    lemma_last_slash(from, from.len() as int);
    let i = path::last_slash(from, from.len() as int);
    if name == ".."@ {
        if i < 0 {
            assert(!from.contains('/'));
        } else {
            assert(from[i] == '/');
            assert(from.contains('/'));
            let to = path::changed_directory(from, name);
            if i == 0 {
                assert(to =~= seq!['/']);
                assert(from.len() > 1 ==> from[1] != '/');
            } else {
                assert(to =~= from.take(i));
            }
        }
    }
}

/// Going into a remote directory, or up, sends one command, read as `ls -la` and
/// the directory that the panel then shows.
pub proof fn law_sftp_lists_where_it_goes(s: SftpView, now: u64)
    requires
        s.state == SftpState::Idle,
        s.core.focus == BrowserFocus::Remote,
    ensures
        ({
            let n = s.went_up(now);
            &&& one_more(s.sftp.outbox, n.sftp.outbox)
            &&& went_to(s.core.remote.path, ".."@, n.core.remote.path)
            &&& is_command(n.sftp.outbox.last(), seq!["ls"@, "-la"@, n.core.remote.path])
            &&& n.state == SftpState::WaitingLs
        }),
        s.core.remote.focused() is Some && s.core.remote.focused()->0.is_dir ==> {
            let n = s.entered(now);
            let e = s.core.remote.focused()->0;
            &&& one_more(s.sftp.outbox, n.sftp.outbox)
            &&& went_to(s.core.remote.path, e.name, n.core.remote.path)
            &&& is_command(n.sftp.outbox.last(), seq!["ls"@, "-la"@, n.core.remote.path])
            &&& n.state == SftpState::WaitingLs
            &&& e.is_link ==> n.core.link_probe == Some(e.name)
        },
        s.core.remote.focused() is Some && !s.core.remote.focused()->0.is_dir ==> s.entered(now)
            == s.transfer_asked(TransferDirection::Download, now),
{
    let up = s.went_up(now);
    law_changing_the_directory_leads_there(s.core.remote.path, ".."@);
    law_ls_is_read_back(up.core.remote.path);
    assert(up.sftp.outbox.drop_last() =~= s.sftp.outbox);
    if let Some(e) = s.core.remote.focused() {
        if e.is_dir {
            let n = s.entered(now);
            law_changing_the_directory_leads_there(s.core.remote.path, e.name);
            law_ls_is_read_back(n.core.remote.path);
            assert(n.sftp.outbox.drop_last() =~= s.sftp.outbox);
        }
    }
}

/// Going into a remote directory, or up, sends one command, read as `ls -la` and
/// the directory that the panel then shows.
pub proof fn law_ssh_lists_where_it_goes(s: SshView, now: u64)
    requires
        s.free(),
        s.core.focus == BrowserFocus::Remote,
    ensures
        ({
            let n = s.went_up(now);
            &&& one_more(s.ssh.outbox, n.ssh.outbox)
            &&& went_to(s.core.remote.path, ".."@, n.core.remote.path)
            &&& is_command(n.ssh.outbox.last(), seq!["ls"@, "-la"@, n.core.remote.path])
            &&& n.state == SshBrowserState::WaitingLs
        }),
        s.core.remote.focused() is Some && s.core.remote.focused()->0.is_dir ==> {
            let n = s.entered(now);
            &&& one_more(s.ssh.outbox, n.ssh.outbox)
            &&& went_to(
                s.core.remote.path,
                s.core.remote.focused()->0.name,
                n.core.remote.path,
            )
            &&& is_command(n.ssh.outbox.last(), seq!["ls"@, "-la"@, n.core.remote.path])
            &&& n.state == SshBrowserState::WaitingLs
        },
        s.core.remote.focused() is Some && !s.core.remote.focused()->0.is_dir ==> s.entered(now)
            == s.transfer_asked(TransferDirection::Download),
{
    let up = s.went_up(now);
    law_changing_the_directory_leads_there(s.core.remote.path, ".."@);
    law_ls_is_read_back(up.core.remote.path);
    assert(up.ssh.outbox.drop_last() =~= s.ssh.outbox);
    if let Some(e) = s.core.remote.focused() {
        if e.is_dir {
            let n = s.entered(now);
            law_changing_the_directory_leads_there(s.core.remote.path, e.name);
            law_ls_is_read_back(n.core.remote.path);
            assert(n.ssh.outbox.drop_last() =~= s.ssh.outbox);
        }
    }
}

/// Once `sftp` has told where it is, it is asked to list the directory that the
/// panel then shows.
pub proof fn law_sftp_lists_where_it_is(s: SftpView, now: u64)
    requires
        s.state == SftpState::WaitingPwd,
        s.watched(now).core.prompt_ready(),
        !s.sftp.exited,
        !sftp::timed_out(s.core.cmd_start, now),
    ensures
        ({
            let n = s.ticked(now);
            &&& one_more(s.sftp.outbox, n.sftp.outbox)
            &&& is_command(n.sftp.outbox.last(), seq!["ls"@, "-la"@, n.core.remote.path])
            &&& match parse::directory_in(s.sftp.lines()) {
                Some(p) => n.core.remote.path == p,
                None => n.core.remote.path == s.core.remote.path,
            }
            &&& n.state == SftpState::WaitingLs
        }),
{
    reveal(SftpView::ticked);
    let n = s.ticked(now);
    law_ls_is_read_back(n.core.remote.path);
    assert(n.sftp.outbox.drop_last() =~= s.sftp.outbox);
}

/// Once the shell has told where it is, it is asked to list the directory that the
/// panel then shows.
pub proof fn law_ssh_lists_where_it_is(s: SshView, now: u64)
    requires
        s.state == SshBrowserState::WaitingPwd,
        s.watched().core.prompt_ready(),
        !sftp::timed_out(s.core.cmd_start, now),
    ensures
        ({
            let n = s.ticked(now);
            &&& one_more(s.ssh.outbox, n.ssh.outbox)
            &&& is_command(n.ssh.outbox.last(), seq!["ls"@, "-la"@, n.core.remote.path])
            &&& match parse::directory_in(s.ssh.lines()) {
                Some(p) => n.core.remote.path == p,
                None => n.core.remote.path == s.core.remote.path,
            }
            &&& n.state == SshBrowserState::WaitingLs
        }),
{
    reveal(SshView::ticked);
    let n = s.ticked(now);
    law_ls_is_read_back(n.core.remote.path);
    assert(n.ssh.outbox.drop_last() =~= s.ssh.outbox);
}

/// Where a transfer over `sftp` is asked for while the browser is idle, what was
/// chosen is what is then under way.
pub proof fn law_sftp_transfer_under_way_is_the_chosen(
    s: SftpView,
    direction: TransferDirection,
    now: u64,
)
    requires
        s.state == SftpState::Idle,
    ensures
        match s.core.source(direction) {
            Some(p) => {
                let n = s.transfer_asked(direction, now);
                let t = n.core.transfer.last;
                &&& n.core.transfer.current == Some(p)
                &&& t is Some && t->0.filename == p.name && t->0.is_dir == p.is_dir
                &&& t->0.direction == direction && !t->0.done && t->0.progress == 0
                &&& n.core.transfer.start == Some(now)
                &&& s.core.transfer.pending.len() > 0 ==> n.core.transfer.pending
                    == s.core.transfer.pending.skip(1)
            },
            None => s.transfer_asked(direction, now) == s,
        },
{
    if let Some(p) = s.core.source(direction) {
        let n = s.transfer_asked(direction, now);
        if s.core.transfer.pending.len() > 0 {
            assert(n.core.transfer.pending =~= s.core.transfer.pending.skip(1));
        }
    }
}

} // verus!
