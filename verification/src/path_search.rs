//! Finding the program that a command name refers to: the places to look,
//! and which one to take.

use vstd::prelude::*;
use crate::text::{contains_char, owned, split_on, split_str};

verus! {

/// The path under `dir` at which `cmd` is looked for; an empty entry of the
/// search path stands for the current directory.
pub open spec fn candidate_in(dir: Seq<char>, cmd: Seq<char>) -> Seq<char> {
    (if dir.len() == 0 { "."@ } else { dir }) + "/"@ + cmd
}

/// The paths at which `cmd` is looked for, in order: `cmd` itself when it
/// holds a `/`; otherwise one path under each entry of the `:`-separated
/// search path, and none when the search path is unset.
pub open spec fn spec_candidates(cmd: Seq<char>, path_var: Option<Seq<char>>) -> Seq<Seq<char>> {
    if cmd.contains('/') {
        seq![cmd]
    } else {
        match path_var {
            None => Seq::empty(),
            Some(p) => split_on(p, ':').map_values(|dir: Seq<char>| candidate_in(dir, cmd)),
        }
    }
}

/// The paths to try for `cmd`, given `path_var`, the value of the search
/// path variable when it is set.
pub fn candidate_paths(cmd: &str, path_var: Option<String>) -> (res: Vec<String>)
    ensures
        res.deep_view() == spec_candidates(cmd@, path_var.deep_view()),
{
    let mut res: Vec<String> = Vec::new();
    if contains_char(cmd, '/') {
        res.push(owned(cmd));
        assert(res.deep_view() =~= seq![cmd@]);
        return res;
    }
    match path_var {
        None => {
            assert(res.deep_view() =~= Seq::<Seq<char>>::empty());
            res
        },
        Some(p) => {
            let dirs = split_str(p.as_str(), ':');
            let ghost all = dirs.deep_view();
            let n = dirs.len();
            let mut i: usize = 0;
            assert(res.deep_view() =~= all.take(0).map_values(|dir: Seq<char>| candidate_in(dir, cmd@)));
            while i < n
                invariant
                    n == dirs@.len(),
                    all == dirs.deep_view(),
                    i <= n,
                    res.deep_view() == all.take(i as int).map_values(|dir: Seq<char>| candidate_in(dir, cmd@)),
                decreases n - i,
            {
                let dir = dirs[i];
                let base = if dir.unicode_len() == 0 { owned(".") } else { owned(dir) };
                let full = base.concat("/").concat(cmd);
                let ghost before = res.deep_view();
                res.push(full);
                assert(res.deep_view() =~= before.push(full@));
                assert(all.take(i + 1).map_values(|dir: Seq<char>| candidate_in(dir, cmd@)) =~= all.take(
                    i as int,
                ).map_values(|dir: Seq<char>| candidate_in(dir, cmd@)).push(candidate_in(dir@, cmd@)));
                i = i + 1;
            }
            assert(all.take(n as int) =~= all);
            res
        },
    }
}

/// The first of `candidates` that is marked executable in `executable`
/// (position by position), if any.
pub open spec fn first_executable(candidates: Seq<Seq<char>>, executable: Seq<bool>) -> Option<Seq<char>>
    decreases candidates.len(),
{
    if candidates.len() == 0 || executable.len() == 0 {
        None
    } else if executable[0] {
        Some(candidates[0])
    } else {
        first_executable(candidates.drop_first(), executable.drop_first())
    }
}

/// Takes the first candidate that was found executable: `executable[i]`
/// tells whether `candidates[i]` is an executable file.
pub fn pick_command(candidates: &Vec<String>, executable: &Vec<bool>) -> (res: Option<String>)
    ensures
        res.deep_view() == first_executable(candidates.deep_view(), executable@),
{
    let n = candidates.len();
    let m = executable.len();
    let ghost cs = candidates.deep_view();
    let mut i: usize = 0;
    assert(cs.skip(0) =~= cs);
    assert(executable@.skip(0) =~= executable@);
    while i < n && i < m
        invariant
            n == candidates@.len(),
            m == executable@.len(),
            cs == candidates.deep_view(),
            i <= n,
            i <= m,
            first_executable(cs, executable@) == first_executable(cs.skip(i as int), executable@.skip(i as int)),
        decreases n - i,
    {
        assert(cs.skip(i as int).drop_first() =~= cs.skip(i + 1));
        assert(executable@.skip(i as int).drop_first() =~= executable@.skip(i + 1));
        if executable[i] {
            return Some(candidates[i].clone());
        }
        i = i + 1;
    }
    None
}

/// Whether a file with this kind and mode may be run: a regular file with
/// an execute bit set for its owner, its group or others.
pub open spec fn spec_is_executable(is_file: bool, mode: u32) -> bool {
    is_file && (mode & 0o111u32) != 0
}

/// Decides executability from what the file's metadata says.
pub fn is_executable_mode(is_file: bool, mode: u32) -> (res: bool)
    ensures
        res == spec_is_executable(is_file, mode),
{
    is_file && (mode & 0o111u32) != 0
}

} // verus!

verus! {

/// The first candidate marked executable is taken, wherever it stands,
/// the last one included; nothing is taken when none is marked.
pub proof fn law_first_executable_wins(candidates: Seq<Seq<char>>, executable: Seq<bool>, j: int)
    requires
        0 <= j < candidates.len(),
        j < executable.len(),
        executable[j],
        forall|k: int| 0 <= k < j ==> !executable[k],
    ensures
        first_executable(candidates, executable) == Some(candidates[j]),
    decreases j,
{
    if j > 0 {
        assert(!executable[0]);
        let c1 = candidates.drop_first();
        let e1 = executable.drop_first();
        assert forall|k: int| 0 <= k < j - 1 implies !e1[k] by {
            assert(e1[k] == executable[k + 1]);
        }
        law_first_executable_wins(c1, e1, j - 1);
        assert(c1[j - 1] == candidates[j]);
    }
}

/// When no candidate is marked executable, no program is found.
pub proof fn law_none_executable(candidates: Seq<Seq<char>>, executable: Seq<bool>)
    requires
        forall|k: int| 0 <= k < candidates.len() && k < executable.len() ==> !executable[k],
    ensures
        first_executable(candidates, executable) is None,
    decreases candidates.len(),
{
    if candidates.len() > 0 && executable.len() > 0 {
        assert(!executable[0]);
        let c1 = candidates.drop_first();
        let e1 = executable.drop_first();
        assert forall|k: int| 0 <= k < c1.len() && k < e1.len() implies !e1[k] by {
            assert(e1[k] == executable[k + 1]);
        }
        law_none_executable(c1, e1);
    }
}

/// What is found is always one of the candidates marked executable.
pub proof fn law_found_is_executable(candidates: Seq<Seq<char>>, executable: Seq<bool>)
    ensures
        first_executable(candidates, executable) matches Some(p) ==> exists|k: int|
            0 <= k < candidates.len() && k < executable.len() && executable[k] && #[trigger] candidates[k] == p,
    decreases candidates.len(),
{
    if candidates.len() > 0 && executable.len() > 0 && !executable[0] {
        let c1 = candidates.drop_first();
        let e1 = executable.drop_first();
        law_found_is_executable(c1, e1);
        if let Some(p) = first_executable(c1, e1) {
            let k = choose|k: int| 0 <= k < c1.len() && k < e1.len() && e1[k] && #[trigger] c1[k] == p;
            assert(candidates[k + 1] == p);
        }
    }
}

/// A name holding `/` is its own only candidate, whatever the search path;
/// without `/`, an unset search path gives none and a set one gives one
/// candidate per entry, each the name under that entry.
pub proof fn law_candidates(cmd: Seq<char>, path_var: Option<Seq<char>>)
    ensures
        cmd.contains('/') ==> spec_candidates(cmd, path_var) == seq![cmd],
        !cmd.contains('/') && path_var is None ==> spec_candidates(cmd, path_var).len() == 0,
        !cmd.contains('/') && path_var is Some ==> ({
            let dirs = split_on(path_var->Some_0, ':');
            &&& spec_candidates(cmd, path_var).len() == dirs.len()
            &&& forall|i: int| 0 <= i < dirs.len() ==> #[trigger] spec_candidates(cmd, path_var)[i] == (if dirs[i].len() == 0 {
                "."@
            } else {
                dirs[i]
            }) + "/"@ + cmd
        }),
{
}

/// A file may be run exactly when it is a regular file with the execute bit
/// of its owner, its group or others set.
pub proof fn law_executable_bits(is_file: bool, mode: u32)
    ensures
        spec_is_executable(is_file, mode) == (is_file && ((mode & 0o100u32) != 0 || (mode & 0o010u32) != 0 || (mode
            & 0o001u32) != 0)),
{
    assert(((mode & 0o111u32) != 0) == ((mode & 0o100u32) != 0 || (mode & 0o010u32) != 0 || (mode & 0o001u32) != 0))
        by (bit_vector);
}

} // verus!
