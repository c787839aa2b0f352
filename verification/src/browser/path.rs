//! Paths of local and remote files. Components are separated by `/`.
use vstd::prelude::*;
use vstd::slice::slice_subrange;
use crate::text::{cat3, chars_of, string_of};

verus! {

/// The place where the components of a path begin: after the root, or after a
/// leading component `.`.
pub open spec fn body_start(p: Seq<char>) -> int {
    if is_absolute(p) || starts_here(p) {
        1
    } else {
        0
    }
}

/// Whether the path begins at the root.
pub open spec fn is_absolute(p: Seq<char>) -> bool {
    p.len() > 0 && p[0] == '/'
}

/// Whether the first component is `.`, the current directory.
pub open spec fn starts_here(p: Seq<char>) -> bool {
    p.len() > 0 && p[0] == '.' && (p.len() == 1 || p[1] == '/')
}

/// The place where the last component of `p` begins, looking back from `i` no
/// further than `b`.
pub open spec fn component_start(p: Seq<char>, b: int, i: int) -> int
    decreases i - b,
{
    if i <= b {
        b
    } else if p[i - 1] == '/' {
        i
    } else {
        component_start(p, b, i - 1)
    }
}

/// The last component of `p`, whose components begin at `b`.
pub open spec fn last_component(p: Seq<char>, b: int) -> Seq<char> {
    p.skip(component_start(p, b, p.len() as int))
}

/// `p` without its last component and the separator in front of it.
pub open spec fn without_last(p: Seq<char>, b: int) -> Seq<char> {
    let s = component_start(p, b, p.len() as int);
    if s > b {
        p.take(s - 1)
    } else {
        p.take(b)
    }
}

/// Whether a component stands for nothing.
pub open spec fn is_idle(c: Seq<char>) -> bool {
    c.len() == 0 || c == seq!['.']
}

proof fn lemma_component_start(p: Seq<char>, b: int, i: int)
    requires
        0 <= b <= i <= p.len(),
    ensures
        b <= component_start(p, b, i) <= i,
    decreases i - b,
{
    if i > b && p[i - 1] != '/' {
        lemma_component_start(p, b, i - 1);
    }
}

/// `p` without the components at its end that stand for nothing.
pub open spec fn tidied(p: Seq<char>, b: int) -> Seq<char>
    decreases p.len(),
    when 0 <= b
    via tidied_decreases
{
    if p.len() <= b || !is_idle(last_component(p, b)) {
        p
    } else {
        tidied(without_last(p, b), b)
    }
}

#[via_fn]
proof fn tidied_decreases(p: Seq<char>, b: int) {
    if p.len() > b {
        lemma_component_start(p, b, p.len() as int);
    }
}

/// The directory that holds `p`. The root and the empty path have none.
pub open spec fn parent_of(p: Seq<char>) -> Option<Seq<char>> {
    let b = body_start(p);
    let t = tidied(p, b);
    if t.len() > b {
        Some(tidied(without_last(t, b), b))
    } else if starts_here(p) {
        Some(Seq::empty())
    } else {
        None
    }
}

/// The name of the file that `p` leads to; nothing where it ends in `..`, at
/// the root or at the current directory.
pub open spec fn name_of(p: Seq<char>) -> Seq<char> {
    let b = body_start(p);
    let t = tidied(p, b);
    if t.len() > b && last_component(t, b) != seq!['.', '.'] {
        last_component(t, b)
    } else {
        Seq::empty()
    }
}

/// `name` inside the directory `p`; an absolute name takes the place of `p`.
pub open spec fn joined(p: Seq<char>, name: Seq<char>) -> Seq<char> {
    if is_absolute(name) {
        name
    } else if p.len() > 0 && p.last() != '/' {
        p.push('/') + name
    } else {
        p + name
    }
}

/// `s` with every backslash turned into a slash.
pub open spec fn with_slashes(s: Seq<char>) -> Seq<char> {
    s.map_values(
        |c: char|
            if c == '\\' {
                '/'
            } else {
                c
            },
    )
}

/// `s` without the slashes at its end.
pub open spec fn without_slashes(s: Seq<char>) -> Seq<char>
    decreases s.len(),
{
    if s.len() > 0 && s.last() == '/' {
        without_slashes(s.drop_last())
    } else {
        s
    }
}

/// `name` inside the remote directory `dir`.
pub open spec fn remote_child(dir: Seq<char>, name: Seq<char>) -> Seq<char> {
    without_slashes(dir) + "/"@ + name
}

/// The place of the last slash in the first `i` characters, or -1.
pub open spec fn last_slash(s: Seq<char>, i: int) -> int
    decreases i,
{
    if i <= 0 {
        -1
    } else if s[i - 1] == '/' {
        i - 1
    } else {
        last_slash(s, i - 1)
    }
}

/// The remote directory above `dir`: what is before its last slash, but never
/// less than the root. A path without a slash is left as it is.
pub open spec fn remote_parent(dir: Seq<char>) -> Seq<char> {
    let i = last_slash(dir, dir.len() as int);
    if i < 0 {
        dir
    } else if i == 0 {
        "/"@
    } else {
        dir.take(i)
    }
}

/// The remote directory that `cd name` leads to from `dir`.
pub open spec fn changed_directory(dir: Seq<char>, name: Seq<char>) -> Seq<char> {
    if name == ".."@ {
        remote_parent(dir)
    } else {
        remote_child(dir, name)
    }
}

fn body(p: &[char]) -> (b: usize)
    ensures
        b == body_start(p@),
        b <= p@.len(),
{
    if p.len() > 0 && (p[0] == '/' || (p[0] == '.' && (p.len() == 1 || p[1] == '/'))) {
        1
    } else {
        0
    }
}

fn find_component(p: &[char], b: usize) -> (s: usize)
    requires
        b <= p@.len(),
    ensures
        s == component_start(p@, b as int, p@.len() as int),
        b <= s <= p@.len(),
{
    let mut i: usize = p.len();
    while i > b && p[i - 1] != '/'
        invariant
            b <= i <= p@.len(),
            component_start(p@, b as int, i as int) == component_start(
                p@,
                b as int,
                p@.len() as int,
            ),
        decreases i,
    {
        i -= 1;
    }
    i
}

fn cut_last(p: &[char], b: usize) -> (r: &[char])
    requires
        b <= p@.len(),
    ensures
        r@ == without_last(p@, b as int),
        b <= r@.len() <= p@.len(),
        p@.len() > b ==> r@.len() < p@.len(),
{
    let s: usize = find_component(p, b);
    let n: usize = if s > b {
        s - 1
    } else {
        b
    };
    assert(p@.subrange(0, n as int) =~= p@.take(n as int));
    slice_subrange(p, 0, n)
}

fn idle(c: &[char]) -> (r: bool)
    ensures
        r == is_idle(c@),
{
    if c.len() == 0 {
        return true;
    }
    proof {
        if c@.len() == 1 && c@[0] == '.' {
            assert(c@ =~= seq!['.']);
        }
    }
    c.len() == 1 && c[0] == '.'
}

fn tidy(p: &[char], b: usize) -> (r: &[char])
    requires
        b <= p@.len(),
    ensures
        r@ == tidied(p@, b as int),
        b <= r@.len() <= p@.len(),
    decreases p@.len(),
{
    if p.len() <= b {
        return p;
    }
    let s: usize = find_component(p, b);
    assert(p@.subrange(s as int, p@.len() as int) =~= last_component(p@, b as int));
    if idle(slice_subrange(p, s, p.len())) {
        tidy(cut_last(p, b), b)
    } else {
        p
    }
}

/// The directory that holds `p`.
pub fn parent(p: &str) -> (r: Option<String>)
    ensures
        match r {
            Some(q) => parent_of(p@) == Some(q@),
            None => parent_of(p@) is None,
        },
{
    let v = chars_of(p);
    let b: usize = body(v.as_slice());
    let t = tidy(v.as_slice(), b);
    if t.len() > b {
        Some(string_of(tidy(cut_last(t, b), b)))
    } else if v.len() > 0 && v[0] == '.' && (v.len() == 1 || v[1] == '/') {
        Some(String::new())
    } else {
        None
    }
}

/// The name of the file that `p` leads to.
pub fn file_name(p: &str) -> (r: String)
    ensures
        r@ == name_of(p@),
{
    let v = chars_of(p);
    let b: usize = body(v.as_slice());
    let t = tidy(v.as_slice(), b);
    if t.len() > b {
        let s: usize = find_component(t, b);
        let last = slice_subrange(t, s, t.len());
        assert(last@ =~= last_component(t@, b as int));
        proof {
            if last@.len() == 2 && last@[0] == '.' && last@[1] == '.' {
                assert(last@ =~= seq!['.', '.']);
            }
        }
        if !(last.len() == 2 && last[0] == '.' && last[1] == '.') {
            return string_of(last);
        }
    }
    String::new()
}

/// The path of `name` inside the directory `p`.
pub fn join(p: &str, name: &str) -> (r: String)
    ensures
        r@ == joined(p@, name@),
{
    let v = chars_of(p);
    let w = chars_of(name);
    if w.len() > 0 && w[0] == '/' {
        return name.to_owned();
    }
    let mut r = p.to_owned();
    if v.len() > 0 && v[v.len() - 1] != '/' {
        r.push('/');
    }
    r.append(name);
    r
}

/// Turns every backslash into a slash.
pub fn to_slashes(s: &str) -> (r: String)
    ensures
        r@ == with_slashes(s@),
{
    let v = chars_of(s);
    let mut r = String::new();
    let mut i: usize = 0;
    while i < v.len()
        invariant
            v@ == s@,
            i <= v@.len(),
            r@ == with_slashes(s@).take(i as int),
        decreases v@.len() - i,
    {
        if v[i] == '\\' {
            r.push('/');
        } else {
            r.push(v[i]);
        }
        i += 1;
        assert(r@ =~= with_slashes(s@).take(i as int));
    }
    assert(with_slashes(s@).take(i as int) =~= with_slashes(s@));
    r
}

/// Drops the slashes at the end.
pub fn strip_slashes(s: &str) -> (r: String)
    ensures
        r@ == without_slashes(s@),
{
    let v = chars_of(s);
    let mut n: usize = v.len();
    assert(v@.take(n as int) =~= v@);
    while n > 0 && v[n - 1] == '/'
        invariant
            n <= v@.len(),
            without_slashes(v@.take(n as int)) == without_slashes(v@),
        decreases n,
    {
        assert(v@.take(n as int).drop_last() =~= v@.take(n - 1));
        n -= 1;
    }
    assert(v@.take(n as int) =~= v@.subrange(0, n as int));
    string_of(slice_subrange(v.as_slice(), 0, n))
}

/// The path of `name` inside the remote directory `dir`.
pub fn remote_join(dir: &str, name: &str) -> (r: String)
    ensures
        r@ == remote_child(dir@, name@),
{
    cat3(strip_slashes(dir).as_str(), "/", name)
}

/// The remote directory above `dir`.
pub fn remote_up(dir: &str) -> (r: String)
    ensures
        r@ == remote_parent(dir@),
{
    let v = chars_of(dir);
    let mut i: usize = v.len();
    while i > 0 && v[i - 1] != '/'
        invariant
            i <= v@.len(),
            last_slash(v@, i as int) == last_slash(v@, v@.len() as int),
        decreases i,
    {
        i -= 1;
    }
    if i == 0 {
        return dir.to_owned();
    }
    if i == 1 {
        return "/".to_owned();
    }
    assert(v@.subrange(0, i - 1) =~= v@.take(i - 1));
    string_of(slice_subrange(v.as_slice(), 0, i - 1))
}

/// Going into a directory whose name holds no slash and coming back up leads
/// to where it started, up to slashes at the end. From the root it leads back
/// to the root.
pub proof fn law_cd_and_back(dir: Seq<char>, name: Seq<char>)
    requires
        name.len() > 0,
        !name.contains('/'),
        name != ".."@,
    ensures
        changed_directory(changed_directory(dir, name), ".."@) == if without_slashes(dir).len()
            == 0 {
            "/"@
        } else {
            without_slashes(dir)
        },
{
    reveal_strlit("/");
    let base = without_slashes(dir);
    let child = remote_child(dir, name);
    assert(child =~= base.push('/') + name);
    lemma_last_slash(base, name, name.len() as int);
    assert(child.take(base.len() as int) =~= base);
}

proof fn lemma_last_slash(base: Seq<char>, name: Seq<char>, i: int)
    requires
        0 <= i <= name.len(),
        !name.contains('/'),
    ensures
        last_slash(base.push('/') + name, base.len() + 1 + i) == base.len(),
    decreases i,
{
    let s = base.push('/') + name;
    if i > 0 {
        assert(s[base.len() + i] == name[i - 1]);
        assert(name.contains(name[i - 1]));
        lemma_last_slash(base, name, i - 1);
    } else {
        assert(s[base.len() as int] == '/');
    }
}

} // verus!
