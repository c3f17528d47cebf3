//! Paths as text.
//!
//! A path is a string of components separated by `/`. As in the standard
//! library, a `/` at the end of a path and a `.` component at its end are of
//! no account: the last component of `/a/b/` and of `/a/b/.` is `b`, and their
//! directory is `/a`. A last component that is empty or `..`, or a `.` with
//! nothing before it, is not taken for the name of a file.

use crate::text::{after_last_char, chars_of, find, find_char, lemma_find_is, string_of};
use vstd::prelude::*;
use vstd::string::*;

verus! {

/// The position of the last `c` in `s`, or -1 where there is none.
pub open spec fn rfind(s: Seq<char>, c: char) -> int
    decreases s.len(),
{
    if s.len() == 0 {
        -1
    } else if s.last() == c {
        s.len() - 1
    } else {
        rfind(s.drop_last(), c)
    }
}

pub proof fn lemma_rfind(s: Seq<char>, c: char)
    ensures
        -1 <= rfind(s, c) < s.len(),
        rfind(s, c) >= 0 ==> s[rfind(s, c)] == c,
        forall|k: int| rfind(s, c) < k < s.len() ==> s[k] != c,
    decreases s.len(),
{
    if s.len() > 0 && s.last() != c {
        lemma_rfind(s.drop_last(), c);
        assert forall|k: int| rfind(s, c) < k < s.len() implies s[k] != c by {
            if k < s.len() - 1 {
                assert(s.drop_last()[k] == s[k]);
            }
        }
    }
}

/// The last occurrence is the one that no other follows.
pub proof fn lemma_rfind_is(s: Seq<char>, c: char, i: int)
    requires
        -1 <= i < s.len(),
        i >= 0 ==> s[i] == c,
        forall|k: int| i < k < s.len() ==> s[k] != c,
    ensures
        rfind(s, c) == i,
{
    lemma_rfind(s, c);
}

/// The length of `path` without what is of no account at its end: every `/`
/// there, and every `.` that stands there as a component after a `/`.
pub open spec fn trimmed_len(path: Seq<char>) -> nat
    decreases path.len(),
{
    let n = path.len() as int;
    if n > 0 && path[n - 1] == '/' {
        trimmed_len(path.take(n - 1))
    } else if n >= 2 && path[n - 1] == '.' && path[n - 2] == '/' {
        trimmed_len(path.take(n - 2))
    } else {
        path.len()
    }
}

/// `path` without what is of no account at its end.
pub open spec fn trimmed(path: Seq<char>) -> Seq<char> {
    path.take(trimmed_len(path) as int)
}

/// The last component of `path`: what follows the last `/` of the trimmed
/// path, and all of it where it has none.
pub open spec fn last_component(path: Seq<char>) -> Seq<char> {
    trimmed(path).skip(rfind(trimmed(path), '/') + 1)
}

pub proof fn lemma_trimmed_len(path: Seq<char>)
    ensures
        trimmed_len(path) <= path.len(),
    decreases path.len(),
{
    let n = path.len() as int;
    if n > 0 && path[n - 1] == '/' {
        lemma_trimmed_len(path.take(n - 1));
    } else if n >= 2 && path[n - 1] == '.' && path[n - 2] == '/' {
        lemma_trimmed_len(path.take(n - 2));
    }
}

/// Whether `name` can be the name of a file: it is not empty, `.` or `..`.
pub open spec fn is_file_name(name: Seq<char>) -> bool {
    name.len() > 0 && name != seq!['.'] && name != seq!['.', '.']
}

/// The name of the file that `path` leads to, if it ends in one.
pub open spec fn file_name(path: Seq<char>) -> Option<Seq<char>> {
    if is_file_name(last_component(path)) {
        Some(last_component(path))
    } else {
        None
    }
}

/// The directory of the last component of `path`: what precedes the last `/`
/// of the trimmed path, trimmed in its turn; `/` itself where nothing is left
/// of that, and nothing where the trimmed path has no `/`.
pub open spec fn parent(path: Seq<char>) -> Seq<char> {
    let t = trimmed(path);
    let i = rfind(t, '/');
    if i < 0 {
        Seq::empty()
    } else if trimmed_len(t.take(i)) == 0 {
        seq!['/']
    } else {
        trimmed(t.take(i))
    }
}

/// What follows the last `.` of a file name, unless that `.` is its first
/// character or it has none.
pub open spec fn extension(name: Seq<char>) -> Option<Seq<char>> {
    let i = rfind(name, '.');
    if i > 0 {
        Some(name.skip(i + 1))
    } else {
        None
    }
}

/// A file name without its extension and the `.` before it.
pub open spec fn file_stem(name: Seq<char>) -> Seq<char> {
    let i = rfind(name, '.');
    if i > 0 {
        name.take(i)
    } else {
        name
    }
}

/// What precedes the first `.` of a file name.
pub open spec fn first_part(name: Seq<char>) -> Seq<char> {
    name.take(find(name, '.'))
}

/// `base` with `name` as a further component: `name` alone where it begins
/// at the root or `base` is empty, else `base`, a `/` unless `base` ends in
/// one, and `name`.
pub open spec fn join(base: Seq<char>, name: Seq<char>) -> Seq<char> {
    if name.len() > 0 && name[0] == '/' {
        name
    } else if base.len() == 0 {
        name
    } else if base.last() == '/' {
        base + name
    } else {
        base.push('/') + name
    }
}

/// The length of `v[..to]` without what is of no account at its end.
pub fn trimmed_end(v: &Vec<char>, to: usize) -> (e: usize)
    requires
        to <= v@.len(),
    ensures
        e <= to,
        e == trimmed_len(v@.take(to as int)),
{
    let mut e: usize = to;
    loop
        invariant
            e <= to <= v@.len(),
            trimmed_len(v@.take(to as int)) == trimmed_len(v@.take(e as int)),
        ensures
            e <= to,
            e == trimmed_len(v@.take(to as int)),
        decreases e,
    {
        let ghost p = v@.take(e as int);
        if e > 0 && v[e - 1] == '/' {
            assert(p.take(e as int - 1) == v@.take(e as int - 1));
            e -= 1;
        } else if e >= 2 && v[e - 1] == '.' && v[e - 2] == '/' {
            assert(p.take(e as int - 2) == v@.take(e as int - 2));
            e -= 2;
        } else {
            break ;
        }
    }
    e
}

/// The range of the last component in the characters `v` of a path.
pub fn last_component_range(v: &Vec<char>) -> (r: (usize, usize))
    ensures
        r.0 <= r.1 <= v@.len(),
        r.1 == trimmed_len(v@),
        r.0 == rfind(trimmed(v@), '/') + 1,
        v@.subrange(r.0 as int, r.1 as int) == last_component(v@),
{
    let e = trimmed_end(v, v.len());
    let i = after_last_char(v, 0, e, '/');
    proof {
        assert(v@.take(v@.len() as int) == v@);
        let t = trimmed(v@);
        assert forall|k: int| i <= k < t.len() implies t[k] != '/' by {
            assert(t[k] == v@[k]);
        }
        lemma_rfind_is(t, '/', i as int - 1);
        assert(t.skip(i as int) == v@.subrange(i as int, e as int));
    }
    (i, e)
}

/// Whether `v[from..to]` can be the name of a file.
pub fn is_file_name_range(v: &Vec<char>, from: usize, to: usize) -> (b: bool)
    requires
        from <= to <= v@.len(),
    ensures
        b == is_file_name(v@.subrange(from as int, to as int)),
{
    let ghost name = v@.subrange(from as int, to as int);
    if to == from {
        false
    } else if to - from == 1 && v[from] == '.' {
        assert(name =~= seq!['.']);
        false
    } else if to - from == 2 && v[from] == '.' && v[from + 1] == '.' {
        assert(name =~= seq!['.', '.']);
        false
    } else {
        proof {
            if name == seq!['.'] {
                assert(seq!['.'].len() == 1);
                assert(seq!['.'][0] == '.');
                assert(name[0] == v@[from as int]);
            }
            if name == seq!['.', '.'] {
                assert(seq!['.', '.'].len() == 2);
                assert(seq!['.', '.'][0] == '.' && seq!['.', '.'][1] == '.');
                assert(name[0] == v@[from as int] && name[1] == v@[from as int + 1]);
            }
        }
        true
    }
}

/// The position of the `.` that begins the extension of the file name
/// `v[from..to]`, or `to` where the name has no extension.
pub fn extension_dot(v: &Vec<char>, from: usize, to: usize) -> (d: usize)
    requires
        from <= to <= v@.len(),
    ensures
        from <= d <= to,
        d < to <==> extension(v@.subrange(from as int, to as int)) is Some,
        d < to ==> extension(v@.subrange(from as int, to as int)) == Some(
            v@.subrange(d as int + 1, to as int),
        ),
        v@.subrange(from as int, d as int) == file_stem(v@.subrange(from as int, to as int)),
{
    let ghost name = v@.subrange(from as int, to as int);
    let i = after_last_char(v, from, to, '.');
    proof {
        lemma_rfind_is(name, '.', i as int - 1 - from as int);
    }
    if i - from >= 2 {
        proof {
            assert(name.skip(i as int - from as int) == v@.subrange(i as int, to as int));
            assert(name.take(i as int - 1 - from as int) == v@.subrange(
                from as int,
                i as int - 1,
            ));
        }
        i - 1
    } else {
        to
    }
}

/// The directory of the last component of `path`.
pub fn parent_of(path: &str) -> (r: String)
    ensures
        r@ == parent(path@),
{
    let v = chars_of(path);
    let (a, e) = last_component_range(&v);
    if a == 0 {
        String::new()
    } else {
        let d = trimmed_end(&v, a - 1);
        proof {
            assert(trimmed(v@).take(a as int - 1) == v@.take(a as int - 1));
            assert(v@.take(a as int - 1).take(d as int) == v@.subrange(0, d as int));
        }
        if d == 0 {
            let r = String::from_str("/");
            proof {
                reveal_strlit("/");
                assert(r@ =~= seq!['/']);
            }
            r
        } else {
            string_of(&v, 0, d)
        }
    }
}

/// What precedes the first `.` of the file name `name`.
pub fn first_part_of(name: &str) -> (r: String)
    ensures
        r@ == first_part(name@),
{
    let v = chars_of(name);
    let i = find_char(&v, 0, v.len(), '.');
    proof {
        lemma_find_is(v@, '.', i as int);
        assert(v@.subrange(0, i as int) == v@.take(i as int));
    }
    string_of(&v, 0, i)
}

/// `base` with `name` as a further component.
pub fn join_paths(base: &str, name: &str) -> (r: String)
    ensures
        r@ == join(base@, name@),
{
    let n = chars_of(name);
    if n.len() > 0 && n[0] == '/' {
        return String::from_str(name);
    }
    let b = chars_of(base);
    if b.len() == 0 {
        return String::from_str(name);
    }
    let mut r = String::from_str(base);
    if b[b.len() - 1] != '/' {
        proof {
            reveal_strlit("/");
            assert("/"@ =~= seq!['/']);
        }
        r.append("/");
        assert(r@ == base@.push('/'));
    }
    r.append(name);
    r
}

} // verus!
