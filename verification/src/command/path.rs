//! Finding a program on the search path.
//!
//! The search path is a list of directories with `:` between them. A name
//! is looked for in each directory in turn, and the first directory that
//! holds an executable file of that name wins. The library names the files
//! to look at; the caller looks at them and reports what it saw.
use vstd::prelude::*;
use crate::command::{kind_of, CommandType};
use crate::text::{chars_of, texts, trimmed};
use crate::util::RushError;

verus! {

/// What the caller saw at one path: whether anything is there, and the
/// permission bits of what is there, if they could be read.
#[derive(Clone, Copy, Debug)]
pub struct Probe {
    pub exists: bool,
    pub mode: Option<u32>,
}

/// The three permission bits that let someone execute a file.
pub open spec fn execute_bits() -> u32 {
    0o111
}

/// Whether permission bits that were read allow anyone to execute.
pub open spec fn executable_mode(mode: Option<u32>) -> bool {
    match mode {
        Some(bits) => bits & execute_bits() != 0,
        None => false,
    }
}

impl Probe {
    /// Whether the path holds an executable file.
    pub open spec fn hit(self) -> bool {
        self.exists && executable_mode(self.mode)
    }
}

/// The pieces of `s` between the occurrences of `sep`; one piece more than
/// there are occurrences, so the empty text has one empty piece.
pub open spec fn split_on(s: Seq<char>, sep: char) -> Seq<Seq<char>>
    decreases s.len(),
{
    if s.len() == 0 {
        seq![Seq::<char>::empty()]
    } else {
        let head = split_on(s.drop_last(), sep);
        if s.last() == sep {
            head.push(Seq::<char>::empty())
        } else {
            head.update(head.len() - 1, head.last().push(s.last()))
        }
    }
}

/// The path of `name` as seen from the directory `dir`: `name` itself
/// where it starts at the root, and otherwise `dir` and `name` with one
/// `/` between them, which an empty `dir` and a `dir` that ends in `/` do
/// not need.
pub open spec fn candidate(dir: Seq<char>, name: Seq<char>) -> Seq<char> {
    if name.len() > 0 && name[0] == '/' {
        name
    } else if dir.len() == 0 || dir.last() == '/' {
        dir + name
    } else {
        dir + seq!['/'] + name
    }
}

/// The paths at which `name` is looked for, in the order of the search
/// path; none where there is no search path.
pub open spec fn candidates(name: Seq<char>, search_path: Option<Seq<char>>) -> Seq<Seq<char>> {
    match search_path {
        Some(list) => {
            let dirs = split_on(list, ':');
            Seq::new(dirs.len(), |i: int| candidate(dirs[i], name))
        },
        None => Seq::empty(),
    }
}

/// The first path whose probe found an executable file, if any. A path
/// that has no probe counts as not found.
pub open spec fn first_hit(paths: Seq<Seq<char>>, probes: Seq<Probe>) -> Option<Seq<char>>
    decreases paths.len(),
{
    if paths.len() == 0 || probes.len() == 0 {
        None
    } else if probes[0].hit() {
        Some(paths[0])
    } else {
        first_hit(paths.drop_first(), probes.drop_first())
    }
}

/// First match wins: the search gives the path at `i` exactly when the
/// probe at `i` found an executable file and no probe before it did, and
/// gives nothing exactly when no probe found one.
pub proof fn law_first_match_wins(paths: Seq<Seq<char>>, probes: Seq<Probe>)
    ensures
        forall|i: int|
            0 <= i < paths.len() && i < probes.len() && (#[trigger] probes[i]).hit() && (forall|
                j: int,
            |
                0 <= j < i ==> !(#[trigger] probes[j]).hit()) ==> first_hit(paths, probes) == Some(
                paths[i],
            ),
        first_hit(paths, probes) is None <==> (forall|i: int|
            0 <= i < paths.len() && i < probes.len() ==> !(#[trigger] probes[i]).hit()),
    decreases paths.len(),
{
    if paths.len() == 0 || probes.len() == 0 {
    } else if probes[0].hit() {
    } else {
        let rest_paths = paths.drop_first();
        let rest_probes = probes.drop_first();
        law_first_match_wins(rest_paths, rest_probes);
        assert forall|i: int|
            0 <= i < paths.len() && i < probes.len() && (#[trigger] probes[i]).hit() && (forall|
                j: int,
            |
                0 <= j < i ==> !(#[trigger] probes[j]).hit()) implies first_hit(paths, probes)
            == Some(paths[i]) by {
            assert(i > 0);
            assert(rest_probes[i - 1] == probes[i]);
            assert(rest_paths[i - 1] == paths[i]);
            assert forall|j: int| 0 <= j < i - 1 implies !(#[trigger] rest_probes[j]).hit() by {
                assert(rest_probes[j] == probes[j + 1]);
            }
        }
        if first_hit(paths, probes) is None {
            assert forall|i: int| 0 <= i < paths.len() && i < probes.len() implies !(
            #[trigger] probes[i]).hit() by {
                if i > 0 {
                    assert(rest_probes[i - 1] == probes[i]);
                }
            }
        } else {
            let k = choose|k: int|
                0 <= k < rest_paths.len() && k < rest_probes.len() && (
                #[trigger] rest_probes[k]).hit();
            assert(probes[k + 1] == rest_probes[k]);
        }
    }
}

/// Without a search path nothing is found, whatever the probes say.
pub proof fn law_no_search_path(name: Seq<char>, probes: Seq<Probe>)
    ensures
        first_hit(candidates(name, None), probes) is None,
{
}

/// Whether permission bits that were read allow anyone to execute; bits
/// that could not be read allow nothing.
pub fn is_executable(mode: Option<u32>) -> (r: bool)
    ensures
        r == executable_mode(mode),
{
    match mode {
        Some(bits) => bits & 0o111 != 0,
        None => false,
    }
}

/// Whether a name, trimmed of white space at its two ends, is the name of
/// a builtin.
pub fn is_builtin(cmd_name: &str) -> (r: bool)
    ensures
        r == kind_of(trimmed(cmd_name@)).is_builtin(),
{
    match CommandType::from_str(cmd_name) {
        CommandType::Cd => true,
        CommandType::Echo => true,
        CommandType::Exit => true,
        CommandType::Pwd => true,
        CommandType::Type => true,
        _ => false,
    }
}

/// The path of `name` as seen from the directory `dir`.
pub fn join_path(dir: &str, name: &str) -> (path: String)
    ensures
        path@ == candidate(dir@, name@),
{
    let d = chars_of(dir);
    let n = chars_of(name);
    let mut path = String::new();
    if n.len() > 0 && n[0] == '/' {
        path.append(name);
        assert(path@ =~= name@);
    } else if d.len() == 0 || d[d.len() - 1] == '/' {
        path.append(dir);
        path.append(name);
        assert(path@ =~= dir@ + name@);
    } else {
        path.append(dir);
        path.push('/');
        path.append(name);
        assert(path@ =~= dir@ + seq!['/'] + name@);
    }
    path
}

/// The directories of a search path, in order.
pub fn split_search_path(search_path: &str) -> (dirs: Vec<String>)
    ensures
        texts(dirs@) == split_on(search_path@, ':'),
{
    let mut dirs: Vec<String> = Vec::new();
    let mut dir = String::new();
    let ghost list = search_path@;
    for c in it: search_path.chars()
        invariant
            it.seq() == list,
            split_on(list.take(it.index()), ':') == texts(dirs@).push(dir@),
    {
        proof {
            let next = list.take(it.index() + 1);
            assert(next.drop_last() =~= list.take(it.index()));
            assert(next.last() == c);
            let head = texts(dirs@).push(dir@);
            assert(texts(dirs@.push(dir)) =~= head);
            assert(head.update(head.len() - 1, head.last().push(c)) =~= texts(dirs@).push(
                dir@.push(c),
            ));
        }
        if c == ':' {
            dirs.push(dir);
            dir = String::new();
        } else {
            dir.push(c);
        }
    }
    proof {
        assert(list.take(list.len() as int) =~= list);
        assert(texts(dirs@.push(dir)) =~= texts(dirs@).push(dir@));
    }
    dirs.push(dir);
    dirs
}

/// The paths at which `cmd_name` is to be looked for, in order: one for
/// each directory of the search path, and none where there is no search
/// path.
pub fn search_candidates(cmd_name: &str, search_path: Option<&str>) -> (paths: Vec<String>)
    ensures
        texts(paths@) == candidates(
            cmd_name@,
            match search_path {
                Some(list) => Some(list@),
                None => None,
            },
        ),
{
    let mut paths: Vec<String> = Vec::new();
    match search_path {
        Some(list) => {
            let dirs = split_search_path(list);
            let mut i: usize = 0;
            while i < dirs.len()
                invariant
                    i <= dirs.len(),
                    texts(dirs@) == split_on(list@, ':'),
                    paths.len() == i,
                    forall|k: int|
                        0 <= k < i ==> (#[trigger] paths@[k])@ == candidate(
                            dirs@[k]@,
                            cmd_name@,
                        ),
                decreases dirs.len() - i,
            {
                let path = join_path(dirs[i].as_str(), cmd_name);
                paths.push(path);
                i += 1;
            }
            proof {
                let want = candidates(cmd_name@, Some(list@));
                assert(texts(dirs@).len() == dirs.len());
                assert forall|k: int| 0 <= k < want.len() implies texts(paths@)[k] == want[k] by {
                    assert(texts(dirs@)[k] == dirs@[k]@);
                }
                assert(texts(paths@) =~= want);
            }
        },
        None => {
            assert(texts(paths@) =~= Seq::<Seq<char>>::empty());
        },
    }
    paths
}

/// Looks `cmd_name` up on the search path, given what the caller saw at
/// each of the paths that `search_candidates` names, in the same order. It
/// gives the first path that holds an executable file, and nothing where
/// there is no search path or no such path. It never fails.
#[verifier::loop_isolation(false)]
pub fn find_in_path(cmd_name: &str, search_path: Option<&str>, probes: &Vec<Probe>) -> (r: Result<
    Option<String>,
    RushError,
>)
    ensures
        r matches Ok(found) && (match first_hit(
            candidates(
                cmd_name@,
                match search_path {
                    Some(list) => Some(list@),
                    None => None,
                },
            ),
            probes@,
        ) {
            Some(path) => found matches Some(p) && p@ == path,
            None => found is None,
        }),
{
    let paths = search_candidates(cmd_name, search_path);
    let ghost all = texts(paths@);
    let ghost whole = first_hit(all, probes@);
    let mut i: usize = 0;
    proof {
        assert(all.skip(0) =~= all);
        assert(probes@.skip(0) =~= probes@);
    }
    while i < paths.len() && i < probes.len()
        invariant
            i <= paths.len(),
            i <= probes.len(),
            all == texts(paths@),
            whole == first_hit(all.skip(i as int), probes@.skip(i as int)),
        decreases paths.len() - i,
    {
        let probe = probes[i];
        proof {
            let rest_paths = all.skip(i as int);
            let rest_probes = probes@.skip(i as int);
            assert(rest_probes[0] == probe);
            assert(rest_paths[0] == paths@[i as int]@);
            assert(rest_paths.drop_first() =~= all.skip(i + 1));
            assert(rest_probes.drop_first() =~= probes@.skip(i + 1));
        }
        if probe.exists && is_executable(probe.mode) {
            let path = paths[i].clone();
            assert(whole == Some(path@));
            return Ok(Some(path));
        }
        i += 1;
    }
    proof {
        let rest_paths = all.skip(i as int);
        let rest_probes = probes@.skip(i as int);
        assert(rest_paths.len() == 0 || rest_probes.len() == 0);
        assert(whole is None);
    }
    Ok(None)
}

} // verus!
