//! Paths as text: the target of `cd`, the search-path list, and where a
//! command may be found. Nothing here looks at the file system.

use vstd::prelude::*;
use crate::command::texts;
use crate::text::{chars_of, is_word, push_char};

verus! {

/// The directory names after reading the path component `name`: `.` and empty
/// components are dropped, and `..` removes the last name, if there is one.
pub open spec fn enter(names: Seq<Seq<char>>, name: Seq<char>) -> Seq<Seq<char>> {
    if name.len() == 0 || name == seq!['.'] {
        names
    } else if name == seq!['.', '.'] {
        if names.len() > 0 {
            names.drop_last()
        } else {
            names
        }
    } else {
        names.push(name)
    }
}

/// After reading `cs`: the names kept so far, and the component being read.
pub open spec fn walk(cs: Seq<char>) -> (Seq<Seq<char>>, Seq<char>)
    decreases cs.len(),
{
    if cs.len() == 0 {
        (seq![], seq![])
    } else {
        let w = walk(cs.drop_last());
        if cs.last() == '/' {
            (enter(w.0, w.1), seq![])
        } else {
            (w.0, w.1.push(cs.last()))
        }
    }
}

/// The directory names that the path `cs` leads to.
pub open spec fn resolved_names(cs: Seq<char>) -> Seq<Seq<char>> {
    enter(walk(cs).0, walk(cs).1)
}

/// The names joined by `/`.
pub open spec fn join_names(names: Seq<Seq<char>>) -> Seq<char>
    decreases names.len(),
{
    if names.len() == 0 {
        seq![]
    } else if names.len() == 1 {
        names[0]
    } else {
        join_names(names.drop_last()) + seq!['/'] + names.last()
    }
}

pub open spec fn is_absolute(p: Seq<char>) -> bool {
    p.len() > 0 && p[0] == '/'
}

/// `path`, taken relative to `pwd` unless it is absolute.
pub open spec fn full_path(path: Seq<char>, pwd: Seq<char>) -> Seq<char> {
    if is_absolute(path) {
        path
    } else {
        pwd + seq!['/'] + path
    }
}

/// `path` resolved against `pwd` by its components alone.
pub open spec fn standardized(path: Seq<char>, pwd: Seq<char>) -> Seq<char> {
    let full = full_path(path, pwd);
    let names = join_names(resolved_names(full));
    if is_absolute(full) {
        seq!['/'] + names
    } else {
        names
    }
}

/// Reads the component `current` into `names`.
fn enter_name(names: &mut Vec<String>, current: String)
    ensures
        texts(final(names)@) == enter(texts(old(names)@), current@),
{
    proof {
        reveal_strlit(".");
        reveal_strlit("..");
        assert("."@ =~= seq!['.']);
        assert(".."@ =~= seq!['.', '.']);
    }
    if current.as_str().is_empty() || is_word(&current, ".") {
    } else if is_word(&current, "..") {
        assert(current@ != seq!['.']);
        if names.len() > 0 {
            names.pop();
            assert(texts(names@) =~= texts(old(names)@).drop_last());
        }
    } else {
        assert(current@ != seq!['.']);
        assert(current@ != seq!['.', '.']);
        names.push(current);
        assert(texts(names@) =~= texts(old(names)@).push(current@));
    }
}

/// The directory names that the path `cs` leads to.
fn resolve_names(cs: &Vec<char>) -> (r: Vec<String>)
    ensures
        texts(r@) == resolved_names(cs@),
{
    let mut names: Vec<String> = Vec::new();
    let mut current = String::new();
    let mut i: usize = 0;
    assert(texts(names@) =~= seq![]);
    while i < cs.len()
        invariant
            i <= cs@.len(),
            (texts(names@), current@) == walk(cs@.subrange(0, i as int)),
        decreases cs.len() - i,
    {
        let c = cs[i];
        proof {
            let p = cs@.subrange(0, i + 1);
            assert(p.drop_last() =~= cs@.subrange(0, i as int));
        }
        if c == '/' {
            let mut name = String::new();
            std::mem::swap(&mut current, &mut name);
            enter_name(&mut names, name);
        } else {
            push_char(&mut current, c);
        }
        i = i + 1;
    }
    assert(cs@.subrange(0, cs@.len() as int) =~= cs@);
    enter_name(&mut names, current);
    names
}

/// `path` resolved against the directory `pwd` by its components alone: `.`
/// is dropped and `..` removes the name before it. The file system is not
/// consulted, so symbolic links are not followed.
pub fn standardize_path(path: &str, pwd: &str) -> (r: String)
    ensures
        r@ == standardized(path@, pwd@),
{
    let mut full = chars_of(path);
    if !(full.len() > 0 && full[0] == '/') {
        let mut p = full;
        full = chars_of(pwd);
        full.push('/');
        full.append(&mut p);
    }
    assert(full@ == full_path(path@, pwd@));
    let absolute = full.len() > 0 && full[0] == '/';
    let names = resolve_names(&full);
    let mut r = String::new();
    if absolute {
        push_char(&mut r, '/');
    }
    let ghost prefix = r@;
    let mut k: usize = 0;
    while k < names.len()
        invariant
            k <= names@.len(),
            r@ == prefix + join_names(texts(names@).subrange(0, k as int)),
        decreases names.len() - k,
    {
        let ghost before = r@;
        proof {
            let s = texts(names@).subrange(0, k + 1);
            assert(s.drop_last() =~= texts(names@).subrange(0, k as int));
        }
        if k > 0 {
            push_char(&mut r, '/');
        }
        r.append(names[k].as_str());
        proof {
            let s = texts(names@).subrange(0, k + 1);
            if k == 0 {
                assert(join_names(texts(names@).subrange(0, 0)) =~= seq![]);
                assert(r@ =~= prefix + join_names(s));
            } else {
                assert(r@ =~= prefix + join_names(s));
            }
        }
        k = k + 1;
    }
    assert(texts(names@).subrange(0, names@.len() as int) =~= texts(names@));
    r
}

/// The parts of `cs` between colons, in order; an empty text is one empty part.
pub open spec fn split_colons(cs: Seq<char>) -> Seq<Seq<char>>
    decreases cs.len(),
{
    if cs.len() == 0 {
        seq![seq![]]
    } else {
        let p = split_colons(cs.drop_last());
        if cs.last() == ':' {
            p.push(seq![])
        } else {
            p.drop_last().push(p.last().push(cs.last()))
        }
    }
}

proof fn lemma_split_colons_nonempty(cs: Seq<char>)
    ensures
        split_colons(cs).len() >= 1,
    decreases cs.len(),
{
    if cs.len() > 0 {
        lemma_split_colons_nonempty(cs.drop_last());
    }
}

/// The directories searched when no search path is set.
pub open spec fn default_path_list() -> Seq<Seq<char>> {
    seq![seq!['/', 'b', 'i', 'n'], seq!['/', 'u', 's', 'r', '/', 'b', 'i', 'n']]
}

/// The directories to search for a command: the parts of the search-path
/// value between colons, or the default list when it is not set.
pub fn get_path_list(path_value: Option<&str>) -> (r: Vec<String>)
    ensures
        path_value matches Some(v) ==> texts(r@) == split_colons(v@),
        path_value is None ==> texts(r@) == default_path_list(),
{
    match path_value {
        None => {
            let mut r: Vec<String> = Vec::new();
            let bin = String::from_str("/bin");
            let usr_bin = String::from_str("/usr/bin");
            proof {
                reveal_strlit("/bin");
                reveal_strlit("/usr/bin");
            }
            assert(bin@ =~= seq!['/', 'b', 'i', 'n']);
            assert(usr_bin@ =~= seq!['/', 'u', 's', 'r', '/', 'b', 'i', 'n']);
            r.push(bin);
            r.push(usr_bin);
            assert(texts(r@) =~= default_path_list());
            r
        },
        Some(v) => {
            let cs = chars_of(v);
            let mut parts: Vec<String> = Vec::new();
            let mut current = String::new();
            let mut i: usize = 0;
            assert(texts(parts@).push(current@) =~= split_colons(cs@.subrange(0, 0)));
            while i < cs.len()
                invariant
                    i <= cs@.len(),
                    texts(parts@).push(current@) == split_colons(cs@.subrange(0, i as int)),
                decreases cs.len() - i,
            {
                let c = cs[i];
                let ghost p = split_colons(cs@.subrange(0, i as int));
                proof {
                    let s = cs@.subrange(0, i + 1);
                    assert(s.drop_last() =~= cs@.subrange(0, i as int));
                    lemma_split_colons_nonempty(cs@.subrange(0, i as int));
                }
                if c == ':' {
                    let mut part = String::new();
                    std::mem::swap(&mut current, &mut part);
                    parts.push(part);
                    assert(texts(parts@).push(current@) =~= p.push(seq![]));
                } else {
                    let ghost before = texts(parts@);
                    push_char(&mut current, c);
                    assert(p.drop_last() =~= before);
                    assert(texts(parts@).push(current@) =~= p.drop_last().push(p.last().push(c)));
                }
                i = i + 1;
            }
            assert(cs@.subrange(0, cs@.len() as int) =~= cs@);
            parts.push(current);
            assert(texts(parts@) =~= split_colons(v@));
            parts
        },
    }
}

/// `dir` joined with the file name `name`: a `/` goes between them unless
/// `dir` is empty or already ends with one.
pub open spec fn join_path(dir: Seq<char>, name: Seq<char>) -> Seq<char> {
    if dir.len() == 0 {
        name
    } else if dir.last() == '/' {
        dir + name
    } else {
        dir + seq!['/'] + name
    }
}

pub open spec fn has_slash(s: Seq<char>) -> bool {
    exists|i: int| 0 <= i < s.len() && s[i] == '/'
}

/// Where a command may be found, in the order to try: a name that holds a `/`
/// is a path of its own; any other is looked for in each directory of
/// `path_list`.
pub open spec fn candidates(name: Seq<char>, path_list: Seq<Seq<char>>) -> Seq<Seq<char>> {
    if has_slash(name) {
        seq![name]
    } else {
        path_list.map_values(|d: Seq<char>| join_path(d, name))
    }
}

fn contains_slash(s: &String) -> (r: bool)
    ensures
        r == has_slash(s@),
{
    let cs = chars_of(s.as_str());
    let mut i: usize = 0;
    while i < cs.len()
        invariant
            i <= cs@.len(),
            cs@ == s@,
            forall|j: int| 0 <= j < i ==> cs@[j] != '/',
        decreases cs.len() - i,
    {
        if cs[i] == '/' {
            return true;
        }
        i = i + 1;
    }
    false
}

fn join_dir(dir: &String, name: &String) -> (r: String)
    ensures
        r@ == join_path(dir@, name@),
{
    let cs = chars_of(dir.as_str());
    let mut r = dir.clone();
    if cs.len() > 0 && cs[cs.len() - 1] != '/' {
        push_char(&mut r, '/');
    }
    r.append(name.as_str());
    r
}

/// The paths at which the command `command_name` may be found, in the order to try.
pub fn command_candidates(command_name: &String, path_list: &Vec<String>) -> (r: Vec<String>)
    ensures
        texts(r@) == candidates(command_name@, texts(path_list@)),
{
    let mut r: Vec<String> = Vec::new();
    if contains_slash(command_name) {
        r.push(command_name.clone());
        assert(texts(r@) =~= seq![command_name@]);
        return r;
    }
    let mut k: usize = 0;
    while k < path_list.len()
        invariant
            k <= path_list@.len(),
            !has_slash(command_name@),
            texts(r@) == texts(path_list@).subrange(0, k as int).map_values(
                |d: Seq<char>| join_path(d, command_name@),
            ),
        decreases path_list.len() - k,
    {
        let ghost before = texts(r@);
        let p = join_dir(&path_list[k], command_name);
        r.push(p);
        assert(texts(r@) =~= before.push(join_path(path_list@[k as int]@, command_name@)));
        assert(texts(path_list@).subrange(0, k + 1).map_values(
            |d: Seq<char>| join_path(d, command_name@),
        ) =~= texts(path_list@).subrange(0, k as int).map_values(
            |d: Seq<char>| join_path(d, command_name@),
        ).push(join_path(path_list@[k as int]@, command_name@)));
        k = k + 1;
    }
    assert(texts(path_list@).subrange(0, path_list@.len() as int) =~= texts(path_list@));
    r
}

/// Where `cd` goes: the standardized first argument when there is one, else
/// the home directory as given; `None` when there is no argument and no home
/// directory is known.
pub fn cd_target(arguments: &Vec<String>, pwd: &str, home: Option<&str>) -> (r: Option<String>)
    ensures
        arguments@.len() > 1 ==> (r matches Some(d) && d@ == standardized(arguments@[1]@, pwd@)),
        arguments@.len() <= 1 ==> (match home {
            Some(h) => (r matches Some(d) && d@ == h@),
            None => r is None,
        }),
{
    if arguments.len() > 1 {
        Some(standardize_path(arguments[1].as_str(), pwd))
    } else {
        match home {
            Some(h) => Some(String::from_str(h)),
            None => None,
        }
    }
}

/// The first candidate that exists, given for each candidate whether it does.
pub fn first_existing(exists: &Vec<bool>) -> (r: Option<usize>)
    ensures
        r is None <==> forall|k: int| 0 <= k < exists@.len() ==> !exists@[k],
        r matches Some(i) ==> (i < exists@.len() && exists@[i as int] && forall|k: int|
            0 <= k < i ==> !exists@[k]),
{
    let mut i: usize = 0;
    while i < exists.len()
        invariant
            i <= exists@.len(),
            forall|k: int| 0 <= k < i ==> !exists@[k],
        decreases exists.len() - i,
    {
        if exists[i] {
            return Some(i);
        }
        i = i + 1;
    }
    None
}

} // verus!
