//! The hosts of an SSH configuration file.
use vstd::prelude::*;
use crate::connect;
use crate::text;
use crate::connect::SshHost;
use crate::text::{chars_of, has_char, is_str, lines, lower_ascii, string_of, words};

verus! {

/// Whether a name of a `Host` line stands for one host, not for a pattern.
pub open spec fn is_host_name(s: Seq<char>) -> bool {
    !s.contains('*') && !s.contains('?') && !s.contains('!')
}

/// The hosts among the first `n` words of a line, but for the first word.
pub open spec fn hosts_among(w: Seq<Seq<char>>, n: int) -> Seq<Seq<char>>
    decreases n,
{
    if n <= 1 {
        Seq::empty()
    } else if is_host_name(w[n - 1]) {
        hosts_among(w, n - 1).push(w[n - 1])
    } else {
        hosts_among(w, n - 1)
    }
}

/// The hosts that a line names.
pub open spec fn hosts_in(line: Seq<char>) -> Seq<Seq<char>> {
    let w = text::words_of(line);
    if w.len() > 0 && text::ascii_lowered(w[0]) == "host"@ {
        hosts_among(w, w.len() as int)
    } else {
        Seq::empty()
    }
}

/// The hosts that the first `n` lines name.
pub open spec fn hosts_before(s: Seq<Seq<char>>, n: int) -> Seq<Seq<char>>
    decreases n,
{
    if n <= 0 {
        Seq::empty()
    } else {
        hosts_before(s, n - 1) + hosts_in(s[n - 1])
    }
}

/// Lists the hosts of an SSH configuration file that are not patterns.
pub fn parse_ssh_config(text: &str) -> (r: Vec<SshHost>)
    ensures
        connect::labels(r@) == hosts_before(text::lines_of(text@), text::lines_of(text@).len() as int),
{
    let ls = lines(text);
    let ghost model = text::lines_of(text@);
    let mut r: Vec<SshHost> = Vec::new();
    let mut i: usize = 0;
    assert(connect::labels(r@) =~= Seq::empty());
    while i < ls.len()
        invariant
            model == text::texts(ls@),
            i <= ls@.len(),
            connect::labels(r@) == hosts_before(model, i as int),
        decreases ls@.len() - i,
    {
        assert(model[i as int] == ls@[i as int]@);
        add_hosts(&mut r, chars_of(ls[i].as_str()).as_slice());
        i += 1;
    }
    r
}

fn add_hosts(r: &mut Vec<SshHost>, line: &[char])
    ensures
        connect::labels(final(r)@) == connect::labels(old(r)@) + hosts_in(line@),
{
    let ghost start = connect::labels(r@);
    let w = words(line);
    let ghost model = text::words_of(line@);
    if w.len() == 0 {
        assert(connect::labels(r@) =~= start + hosts_in(line@));
        return ;
    }
    assert(model[0] == w@[0]@);
    let first = lower_ascii(w[0]);
    if !is_str(first.as_slice(), "host") {
        assert(connect::labels(r@) =~= start + hosts_in(line@));
        return ;
    }
    let mut k: usize = 1;
    assert(connect::labels(r@) =~= start + hosts_among(model, 1));
    while k < w.len()
        invariant
            model == text::slices(w@),
            1 <= k <= w@.len(),
            connect::labels(r@) == start + hosts_among(model, k as int),
        decreases w@.len() - k,
    {
        assert(model[k as int] == w@[k as int]@);
        let ghost before = connect::labels(r@);
        if !has_char(w[k], '*') && !has_char(w[k], '?') && !has_char(w[k], '!') {
            r.push(SshHost { label: string_of(w[k]) });
            assert(connect::labels(r@) =~= before.push(model[k as int]));
        }
        k += 1;
        assert(connect::labels(r@) =~= start + hosts_among(model, k as int));
    }
}

} // verus!
