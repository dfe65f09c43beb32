//! File paths as text, with `/` between components.

use crate::text::{chars_of, starts_with_at, string_of};
use vstd::prelude::*;
use vstd::string::StringExecFns;

verus! {

/// `path` without what follows its last component: trailing separators and
/// trailing components that are a single dot.
pub open spec fn trimmed(path: Seq<char>) -> Seq<char>
    decreases path.len(),
{
    if path.len() == 0 {
        path
    } else if path.last() == '/' {
        trimmed(path.drop_last())
    } else if path.last() == '.' && (path.len() == 1 || path[path.len() - 2] == '/') {
        trimmed(path.drop_last())
    } else {
        path
    }
}

/// The index after the last separator of `path`, or zero where it has
/// none.
pub open spec fn after_last_separator(path: Seq<char>) -> int
    decreases path.len(),
{
    if path.len() == 0 {
        0
    } else if path.last() == '/' {
        path.len() as int
    } else {
        after_last_separator(path.drop_last())
    }
}

/// The last component of `path`, unless the path ends in the root, in the
/// current directory or in `..`.
pub open spec fn file_name(path: Seq<char>) -> Option<Seq<char>> {
    let t = trimmed(path);
    let name = t.skip(after_last_separator(t));
    if t.len() == 0 || name == seq!['.', '.'] {
        None
    } else {
        Some(name)
    }
}

/// The name under which an upload is stored: the last component of the name
/// it came with, or `file` where that has none.
pub open spec fn sanitized(filename: Seq<char>) -> Seq<char> {
    match file_name(filename) {
        Some(name) => name,
        None => "file"@,
    }
}

/// Whether `s` holds a separator.
pub open spec fn has_separator(s: Seq<char>) -> bool {
    exists|i: int| 0 <= i < s.len() && s[i] == '/'
}

proof fn lemma_after_last_separator(path: Seq<char>)
    ensures
        0 <= after_last_separator(path) <= path.len(),
        forall|i: int| after_last_separator(path) <= i < path.len() ==> path[i] != '/',
        after_last_separator(path) > 0 ==> path[after_last_separator(path) - 1] == '/',
    decreases path.len(),
{
    if path.len() > 0 && path.last() != '/' {
        let front = path.drop_last();
        lemma_after_last_separator(front);
        assert forall|i: int| after_last_separator(path) <= i < path.len() implies path[i]
            != '/' by {
            if i < front.len() {
                assert(front[i] == path[i]);
            }
        }
        if after_last_separator(path) > 0 {
            assert(front[after_last_separator(path) - 1] == path[after_last_separator(path) - 1]);
        }
    }
}

proof fn lemma_trimmed(path: Seq<char>)
    ensures
        trimmed(path).len() <= path.len(),
        trimmed(path) == path.take(trimmed(path).len() as int),
        trimmed(path).len() > 0 ==> trimmed(path).last() != '/',
        trimmed(path).len() > 0 ==> after_last_separator(trimmed(path)) < trimmed(path).len(),
        trimmed(path).len() > 0 ==> !(trimmed(path).last() == '.' && (trimmed(path).len() == 1
            || trimmed(path)[trimmed(path).len() - 2] == '/')),
    decreases path.len(),
{
    if path.len() == 0 {
        assert(path.take(0) =~= path);
    } else if path.last() == '/' || (path.last() == '.' && (path.len() == 1 || path[path.len()
        - 2] == '/')) {
        lemma_trimmed(path.drop_last());
        let n = trimmed(path).len() as int;
        assert(path.drop_last().take(n) =~= path.take(n));
    } else {
        assert(path.take(path.len() as int) =~= path);
        lemma_after_last_separator(path);
    }
}

/// The last component of a path holds no separator and is not empty.
pub proof fn lemma_file_name_is_plain(path: Seq<char>)
    ensures
        file_name(path) matches Some(name) ==> name.len() > 0 && !has_separator(name) && name
            != seq!['.', '.'] && name != seq!['.'],
{
    let t = trimmed(path);
    lemma_trimmed(path);
    lemma_after_last_separator(t);
    let from = after_last_separator(t);
    if t.len() > 0 && t.skip(from) == seq!['.'] {
        assert(t.skip(from).len() == 1);
        assert(t.skip(from)[0] == '.');
        assert(t.last() == '.');
        if t.len() > 1 {
            assert(from == t.len() - 1);
            assert(t[from - 1] == '/');
        }
    }
}

/// A sanitized name holds no separator, whatever name came in.
pub proof fn lemma_sanitized_has_no_separator(filename: Seq<char>)
    ensures
        !has_separator(sanitized(filename)),
        sanitized(filename).len() > 0,
{
    lemma_file_name_is_plain(filename);
    reveal_strlit("file");
    if file_name(filename) is None {
        let s = "file"@;
        assert(s.len() == 4);
        assert(s[0] == 'f' && s[1] == 'i' && s[2] == 'l' && s[3] == 'e');
    }
}

/// A sanitized name stays as it is when it is sanitized again.
pub proof fn lemma_sanitized_twice(filename: Seq<char>)
    ensures
        sanitized(sanitized(filename)) == sanitized(filename),
{
    let name = sanitized(filename);
    lemma_file_name_is_plain(filename);
    lemma_sanitized_has_no_separator(filename);
    reveal_strlit("file");
    assert("file"@.len() == 4);
    assert(name != seq!['.']) by {
        if name == seq!['.'] {
            assert(name.len() == 1);
        }
    }
    assert(name != seq!['.', '.']) by {
        if name == seq!['.', '.'] {
            assert(name.len() == 2);
        }
    }
    lemma_joined_file_name(Seq::empty(), name);
    assert(name[0] != '/');
    assert(joined(Seq::empty(), name) =~= name);
}

/// The last component of `path`.
pub fn base_name(path: &str) -> (r: Option<String>)
    ensures
        r matches Some(name) ==> file_name(path@) == Some(name@),
        r is None ==> file_name(path@) is None,
{
    let v = chars_of(path);
    let mut end: usize = v.len();
    assert(v@.take(end as int) =~= v@);
    while end > 0 && (v[end - 1] == '/' || (v[end - 1] == '.' && (end == 1 || v[end - 2] == '/')))
        invariant
            end <= v.len(),
            trimmed(v@) == trimmed(v@.take(end as int)),
        decreases end,
    {
        assert(v@.take(end as int).drop_last() =~= v@.take(end - 1));
        end -= 1;
    }
    let ghost t = v@.take(end as int);
    assert(trimmed(t) == t);
    if end == 0 {
        return None;
    }
    let mut start: usize = end;
    assert(t.take(start as int) =~= t);
    while start > 0 && v[start - 1] != '/'
        invariant
            start <= end <= v.len(),
            t == v@.take(end as int),
            after_last_separator(t) == after_last_separator(t.take(start as int)),
        decreases start,
    {
        assert(t.take(start as int).drop_last() =~= t.take(start - 1));
        start -= 1;
    }
    assert(after_last_separator(t) == start);
    assert(t.skip(start as int) =~= v@.subrange(start as int, end as int));
    if end - start == 2 && v[start] == '.' && v[start + 1] == '.' {
        assert(t.skip(start as int) =~= seq!['.', '.']);
        return None;
    }
    assert(t.skip(start as int) != seq!['.', '.']) by {
        if t.skip(start as int) == seq!['.', '.'] {
            assert(t.skip(start as int).len() == 2);
            assert(t.skip(start as int)[0] == '.');
            assert(t.skip(start as int)[1] == '.');
        }
    }
    Some(string_of(&v, start, end))
}

/// Reduces the name that an upload came with to a name that is safe to
/// store under: its last component, or `file` where it has none. The result
/// holds no separator and names no parent directory.
pub fn sanitize_filename(filename: &str) -> (r: String)
    ensures
        r@ == sanitized(filename@),
        !has_separator(r@),
        r@.len() > 0,
{
    proof {
        lemma_sanitized_has_no_separator(filename@);
    }
    match base_name(filename) {
        Some(name) => name,
        None => "file".to_owned(),
    }
}

/// `name` below the directory `base`: `name` itself where it starts at the
/// root; else `base`, a separator unless `base` is empty or ends in one,
/// and `name`.
pub open spec fn joined(base: Seq<char>, name: Seq<char>) -> Seq<char> {
    if name.len() > 0 && name[0] == '/' {
        name
    } else if base.len() == 0 || base.last() == '/' {
        base + name
    } else {
        base + seq!['/'] + name
    }
}

/// The path of `name` below the directory `base`.
pub fn join(base: &str, name: &str) -> (r: String)
    ensures
        r@ == joined(base@, name@),
{
    let b = chars_of(base);
    let n = chars_of(name);
    if n.len() > 0 && n[0] == '/' {
        name.to_owned()
    } else if b.len() == 0 || b[b.len() - 1] == '/' {
        base.to_owned().concat(name)
    } else {
        let mut r = base.to_owned();
        r.push('/');
        assert(r@ =~= base@ + seq!['/']);
        r.concat(name)
    }
}

/// Joining a plain name to a directory gives a path that is not empty and
/// whose last component is that name.
pub proof fn lemma_joined_file_name(base: Seq<char>, name: Seq<char>)
    requires
        name.len() > 0,
        !has_separator(name),
        name != seq!['.'],
        name != seq!['.', '.'],
    ensures
        joined(base, name).len() > 0,
        file_name(joined(base, name)) == Some(name),
{
    let p = joined(base, name);
    let front = if base.len() == 0 || base.last() == '/' {
        base
    } else {
        base + seq!['/']
    };
    assert(name[0] != '/');
    assert(p =~= front + name);
    assert(p.last() == name.last());
    assert(name.last() != '/');
    if p.last() == '.' && (p.len() == 1 || p[p.len() - 2] == '/') {
        if name.len() >= 2 {
            assert(p[p.len() - 2] == name[name.len() - 2]);
            assert(false);
        } else {
            assert(name =~= seq!['.']);
            assert(false);
        }
    }
    assert(trimmed(p) == p);
    lemma_after_front(front, name, name.len() as int);
    assert(p.take(p.len() as int) =~= p);
    assert(p.skip(front.len() as int) =~= name);
}

proof fn lemma_after_front(front: Seq<char>, name: Seq<char>, n: int)
    requires
        !has_separator(name),
        0 <= n <= name.len(),
        front.len() == 0 || front.last() == '/',
    ensures
        after_last_separator((front + name).take(front.len() + n)) == front.len(),
    decreases n,
{
    let p = (front + name).take(front.len() + n);
    if n == 0 {
        assert(p =~= front);
    } else {
        lemma_after_front(front, name, n - 1);
        assert(p.last() == name[n - 1]);
        assert(p.drop_last() =~= (front + name).take(front.len() + n - 1));
    }
}

/// What is left of `path` below the directory `root`: the text after
/// `root` and the separators that follow it, where `path` is `root` itself
/// or begins with `root` and a separator; nothing otherwise.
pub open spec fn relative_to(path: Seq<char>, root: Seq<char>) -> Option<Seq<char>> {
    if root.len() <= path.len() && path.subrange(0, root.len() as int) == root && (path.len()
        == root.len() || root.len() == 0 || root.last() == '/' || path[root.len() as int] == '/') {
        Some(without_leading_separators(path.skip(root.len() as int)))
    } else {
        None
    }
}

/// `s` without the separators that it begins with.
pub open spec fn without_leading_separators(s: Seq<char>) -> Seq<char>
    decreases s.len(),
{
    if s.len() > 0 && s[0] == '/' {
        without_leading_separators(s.skip(1))
    } else {
        s
    }
}

/// The path of `path` relative to the directory `root`.
pub fn strip_root(path: &str, root: &str) -> (r: Option<String>)
    ensures
        r matches Some(rest) ==> relative_to(path@, root@) == Some(rest@),
        r is None ==> relative_to(path@, root@) is None,
{
    let p = chars_of(path);
    let b = chars_of(root);
    if !starts_with_at(&p, 0, &b) {
        return None;
    }
    let n = b.len();
    if !(p.len() == n || n == 0 || b[n - 1] == '/' || p[n] == '/') {
        return None;
    }
    let mut i: usize = n;
    assert(p@.skip(n as int).skip(0) =~= p@.skip(n as int));
    while i < p.len() && p[i] == '/'
        invariant
            n <= i <= p.len(),
            without_leading_separators(p@.skip(n as int)) == without_leading_separators(
                p@.skip(i as int),
            ),
        decreases p.len() - i,
    {
        assert(p@.skip(i as int).skip(1) =~= p@.skip(i + 1));
        i += 1;
    }
    assert(p@.skip(i as int) =~= p@.subrange(i as int, p.len() as int));
    Some(string_of(&p, i, p.len()))
}

} // verus!
