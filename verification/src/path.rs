//! Paths as text, with `/` between their components.
use crate::text::str_eq;
use vstd::prelude::*;
use vstd::string::*;

verus! {

/// Where the last `/` of `s` stands; -1 if there is none.
pub open spec fn last_slash(s: Seq<char>) -> int
    decreases s.len(),
{
    if s.len() == 0 {
        -1
    } else if s.last() == '/' {
        s.len() - 1
    } else {
        last_slash(s.drop_last())
    }
}

/// The last component of a path, and the text before it. Empty components and `.` do not count.
pub open spec fn last_component(s: Seq<char>) -> Option<(Seq<char>, Seq<char>)>
    decreases s.len(),
    via last_component_decreases
{
    let i = last_slash(s);
    let name = s.skip(i + 1);
    if name.len() == 0 || name == "."@ {
        if i < 0 {
            None
        } else {
            last_component(s.take(i))
        }
    } else {
        Some((s.take(if i < 0 { 0 } else { i }), name))
    }
}

#[via_fn]
proof fn last_component_decreases(s: Seq<char>) {
    lemma_last_slash(s);
}

/// The name of the file that a path leads to: its last component, unless that is `..`.
pub open spec fn file_name_of(s: Seq<char>) -> Option<Seq<char>> {
    match last_component(s) {
        Some((_, name)) => if name == ".."@ {
            None
        } else {
            Some(name)
        },
        None => None,
    }
}

/// The name of the directory that holds what a path leads to.
pub open spec fn parent_name_of(s: Seq<char>) -> Option<Seq<char>> {
    match last_component(s) {
        Some((before, _)) => file_name_of(before),
        None => None,
    }
}

/// The path of what is called `name` in the directory `dir`. A name from the root on stands for
/// itself.
pub open spec fn joined(dir: Seq<char>, name: Seq<char>) -> Seq<char> {
    if name.len() > 0 && name[0] == '/' {
        name
    } else if dir.len() == 0 || dir.last() == '/' {
        dir + name
    } else {
        dir + "/"@ + name
    }
}

/// The last `/` is in the text, and none follows it.
pub proof fn lemma_last_slash(s: Seq<char>)
    ensures
        -1 <= last_slash(s) < s.len(),
        last_slash(s) >= 0 ==> s[last_slash(s)] == '/',
        forall|j: int| last_slash(s) < j < s.len() ==> s[j] != '/',
    decreases s.len(),
{
    if s.len() > 0 && s.last() != '/' {
        lemma_last_slash(s.drop_last());
        assert forall|j: int| last_slash(s) < j < s.len() implies s[j] != '/' by {
            if j < s.len() - 1 {
                assert(s.drop_last()[j] == s[j]);
            }
        }
    }
}

/// What follows the last `/` that stands at `i` with none behind it.
proof fn lemma_last_slash_is(s: Seq<char>, i: int)
    requires
        -1 <= i < s.len(),
        i >= 0 ==> s[i] == '/',
        forall|j: int| i < j < s.len() ==> s[j] != '/',
    ensures
        last_slash(s) == i,
{
    lemma_last_slash(s);
}

/// Finds the last component of a path, and the text before it.
fn split_last(path: &str) -> (res: Option<(&str, &str)>)
    ensures
        match res {
            Some((before, name)) => last_component(path@) == Some((before@, name@)),
            None => last_component(path@) is None,
        },
{
    let mut end: usize = path.unicode_len();
    proof {
        assert(path@.take(end as int) =~= path@);
    }
    loop
        invariant
            end <= path@.len(),
            path@.len() <= usize::MAX,
            last_component(path@.take(end as int)) == last_component(path@),
        decreases end,
    {
        let ghost s = path@.take(end as int);
        let mut begin: usize = end;
        while begin > 0 && path.get_char(begin - 1) != '/'
            invariant
                begin <= end <= path@.len(),
                path@.len() <= usize::MAX,
                s == path@.take(end as int),
                forall|j: int| begin <= j < end ==> s[j] != '/',
            decreases begin,
        {
            begin = begin - 1;
        }
        proof {
            lemma_last_slash_is(s, begin - 1);
            lemma_last_slash(s);
            reveal_strlit(".");
        }
        let name = path.substring_char(begin, end);
        assert(name@ =~= s.skip(last_slash(s) + 1));
        if begin == end || str_eq(name, ".") {
            if begin == 0 {
                return None;
            }
            end = begin - 1;
            assert(path@.take(end as int) =~= s.take(last_slash(s)));
        } else {
            let before = path.substring_char(0, if begin == 0 { 0 } else { begin - 1 });
            assert(before@ =~= s.take(if last_slash(s) < 0 { 0 } else { last_slash(s) }));
            return Some((before, name));
        }
    }
}

/// The path of what is called `name` in the directory `dir`.
pub fn join(dir: &str, name: &str) -> (res: String)
    ensures
        res@ == joined(dir@, name@),
{
    if name.unicode_len() > 0 && name.get_char(0) == '/' {
        return name.to_owned();
    }
    let len: usize = dir.unicode_len();
    let mut path: String = dir.to_owned();
    if len > 0 && dir.get_char(len - 1) != '/' {
        path.append("/");
    }
    path.append(name);
    path
}

/// The name of the file that a path leads to, if it has one.
pub fn file_name(path: &str) -> (res: Option<&str>)
    ensures
        match res {
            Some(name) => file_name_of(path@) == Some(name@),
            None => file_name_of(path@) is None,
        },
{
    match split_last(path) {
        Some((_, name)) => if str_eq(name, "..") {
            None
        } else {
            Some(name)
        },
        None => None,
    }
}

/// The name of the directory that holds what a path leads to, if it has one.
pub fn parent_name(path: &str) -> (res: Option<&str>)
    ensures
        match res {
            Some(name) => parent_name_of(path@) == Some(name@),
            None => parent_name_of(path@) is None,
        },
{
    match split_last(path) {
        Some((before, _)) => file_name(before),
        None => None,
    }
}

} // verus!
