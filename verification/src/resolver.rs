//! Finding the configuration file by walking up the directory tree.
use vstd::prelude::*;

use crate::entry::strings_view;
use crate::paths::{joined_path, parent_path, path_exists, path_join, path_parent};

verus! {

/// Name of the configuration file.
pub const CONFIG_FILE_NAME: &'static str = ".watchr.toml";

/// Errors that occur when trying to find the configuration file.
#[derive(Debug)]
pub enum ResolverError {
    /// No configuration file in the directory or any of its parents.
    NotFound,
}

/// The `k`-th ancestor of `p`: `p` itself for `k == 0`, then its
/// parent, its parent's parent, and so on; `None` past the top.
pub open spec fn ancestor(p: Seq<char>, k: nat) -> Option<Seq<char>>
    decreases k,
{
    if k == 0 {
        Some(p)
    } else {
        match ancestor(p, (k - 1) as nat) {
            Some(q) => parent_path(q),
            None => None,
        }
    }
}

/// `dirs` is `p` followed by all its ancestors, up to the one that has
/// no parent.
pub open spec fn is_search_chain(p: Seq<char>, dirs: Seq<Seq<char>>) -> bool {
    &&& forall|i: int| 0 <= i < dirs.len() ==> ancestor(p, i as nat) == Some(#[trigger] dirs[i])
    &&& ancestor(p, dirs.len()) is None
}

/// Where the configuration file would be in directory `dir`.
pub open spec fn config_candidate(dir: Seq<char>) -> Seq<char> {
    joined_path(dir, CONFIG_FILE_NAME@)
}

/// The first candidate that is marked present, if any.
pub open spec fn first_present(cands: Seq<Seq<char>>, present: Seq<bool>) -> Option<Seq<char>>
    decreases cands.len(),
{
    if cands.len() == 0 || present.len() == 0 {
        None
    } else if present[0] {
        Some(cands[0])
    } else {
        first_present(cands.drop_first(), present.drop_first())
    }
}

/// The directories searched for the configuration file: `path` and then
/// each of its ancestors in turn, up to the file-system root.
pub fn config_search_dirs(path: &str) -> (dirs: Vec<String>)
    ensures
        is_search_chain(path@, strings_view(dirs@)),
{
    let mut dirs: Vec<String> = Vec::new();
    let mut cur = path.to_owned();
    dirs.push(cur.clone());
    loop
        invariant
            dirs@.len() >= 1,
            dirs@.last() == cur,
            forall|i: int|
                0 <= i < dirs@.len() ==> ancestor(path@, i as nat) == Some(
                    #[trigger] strings_view(dirs@)[i],
                ),
        decreases cur@.len(),
    {
        let ghost k = dirs@.len() - 1;
        assert(strings_view(dirs@)[k] == cur@);
        assert(ancestor(path@, k as nat) == Some(cur@));
        match path_parent(cur.as_str()) {
            Some(q) => {
                let ghost before = dirs@;
                dirs.push(q.clone());
                assert(ancestor(path@, (k + 1) as nat) == Some(q@));
                assert forall|i: int| 0 <= i < dirs@.len() implies ancestor(path@, i as nat) == Some(
                    #[trigger] strings_view(dirs@)[i],
                ) by {
                    if i < before.len() {
                        assert(dirs@[i] == before[i]);
                        assert(strings_view(before)[i] == before[i]@);
                    } else {
                        assert(strings_view(dirs@)[i] == q@);
                    }
                }
                cur = q;
            },
            None => {
                assert(ancestor(path@, dirs@.len() as nat) is None);
                return dirs;
            },
        }
    }
}

/// Where the configuration file would be in each searched directory:
/// `.watchr.toml` joined to `path` and to each of its ancestors, in
/// order.
pub fn config_candidates(path: &str) -> (cands: Vec<String>)
    ensures
        exists|dirs: Seq<Seq<char>>|
            {
                &&& is_search_chain(path@, dirs)
                &&& strings_view(cands@) == dirs.map_values(|d| config_candidate(d))
            },
{
    let dirs = config_search_dirs(path);
    let ghost dv = strings_view(dirs@);
    let mut cands: Vec<String> = Vec::new();
    let n = dirs.len();
    let mut i: usize = 0;
    while i < n
        invariant
            n == dirs@.len(),
            dv == strings_view(dirs@),
            i <= n,
            strings_view(cands@) == dv.take(i as int).map_values(|d| config_candidate(d)),
        decreases n - i,
    {
        let candidate = path_join(dirs[i].as_str(), CONFIG_FILE_NAME);
        let ghost before = strings_view(cands@);
        cands.push(candidate);
        assert(strings_view(cands@) =~= before.push(candidate@));
        assert(dv.take(i + 1).map_values(|d| config_candidate(d)) =~= dv.take(i as int).map_values(
            |d| config_candidate(d),
        ).push(config_candidate(dv[i as int])));
        i = i + 1;
    }
    assert(dv.take(n as int) =~= dv);
    cands
}

/// The first candidate whose existence answer is `true`, given the
/// answers for the candidates in order (there may be fewer answers
/// than candidates: the rest were not asked), or
/// [`ResolverError::NotFound`].
pub fn first_existing(candidates: &Vec<String>, exists: &Vec<bool>) -> (res: Result<
    String,
    ResolverError,
>)
    ensures
        match res {
            Ok(c) => first_present(strings_view(candidates@), exists@) == Some(c@),
            Err(_) => first_present(strings_view(candidates@), exists@) is None,
        },
        match res {
            Ok(c) => exists|k: int|
                0 <= k < candidates@.len() && k < exists@.len() && #[trigger] exists@[k] && c@
                    == candidates@[k]@ && forall|j: int| 0 <= j < k ==> !exists@[j],
            Err(_) => forall|j: int|
                0 <= j < candidates@.len() && j < exists@.len() ==> !#[trigger] exists@[j],
        },
{
    let ghost cv = strings_view(candidates@);
    let n = candidates.len();
    let mut i: usize = 0;
    while i < n && i < exists.len()
        invariant
            n == candidates@.len(),
            cv == strings_view(candidates@),
            i <= n,
            i <= exists@.len(),
            forall|j: int| 0 <= j < i ==> !exists@[j],
        decreases n - i,
    {
        if exists[i] {
            proof {
                lemma_first_present_at(cv, exists@, i as int);
            }
            assert(exists@[i as int]);
            return Ok(candidates[i].clone());
        }
        i = i + 1;
    }
    proof {
        lemma_first_present_none_before(cv, exists@, i as int);
    }
    Err(ResolverError::NotFound)
}

/// Finds the configuration file in `path` or the nearest of its
/// ancestors that holds one.
///
/// The candidates are asked about from `path` upwards, stopping at the
/// first that exists, and the answer is what [`first_existing`] gives
/// for the answers collected. Whether a candidate exists is up to the
/// file system, so the contract says: for the answers that came back,
/// the result is the first candidate found, or
/// [`ResolverError::NotFound`] where none was.
pub fn find_config_file(path: &str) -> (res: Result<String, ResolverError>)
    ensures
        exists|dirs: Seq<Seq<char>>, present: Seq<bool>|
            {
                &&& is_search_chain(path@, dirs)
                &&& present.len() == dirs.len()
                &&& match res {
                    Ok(c) => first_present(dirs.map_values(|d| config_candidate(d)), present)
                        == Some(c@),
                    Err(_) => first_present(dirs.map_values(|d| config_candidate(d)), present)
                        is None,
                }
            },
        exists|dirs: Seq<Seq<char>>, asked: Seq<bool>|
            {
                &&& is_search_chain(path@, dirs)
                &&& #[trigger] searched_until_found(dirs.len(), asked)
                &&& found_by_search(dirs, asked, res)
            },
{
    let cands = config_candidates(path);
    let ghost dirs = choose|dirs: Seq<Seq<char>>|
        {
            &&& is_search_chain(path@, dirs)
            &&& strings_view(cands@) == dirs.map_values(|d| config_candidate(d))
        };
    let ghost cv = strings_view(cands@);
    let mut answers: Vec<bool> = Vec::new();
    let n = cands.len();
    let mut i: usize = 0;
    let mut found = false;
    while i < n && !found
        invariant
            n == cands@.len(),
            i <= n,
            answers@.len() == i,
            forall|j: int| 0 <= j < i - 1 ==> !answers@[j],
            i > 0 ==> answers@[i - 1] == found,
            i == 0 ==> !found,
        decreases n - i,
    {
        found = path_exists(cands[i].as_str());
        answers.push(found);
        i = i + 1;
    }
    let res = first_existing(&cands, &answers);
    // the answers not asked for count as absent
    let ghost full = answers@ + Seq::new((n - answers@.len()) as nat, |j: int| false);
    proof {
        if exists|k: int| 0 <= k < answers@.len() && answers@[k] {
            let k = choose|k: int| 0 <= k < answers@.len() && answers@[k];
            assert forall|j: int| 0 <= j < k implies !full[j] by {
                if answers@[j] {
                    lemma_single_true(answers@, j, k);
                }
            }
            lemma_first_present_at(cv, answers@, k);
            lemma_first_present_at(cv, full, k);
        } else {
            lemma_first_present_none(cv, answers@);
            lemma_first_present_none(cv, full);
        }
        assert(searched_until_found(dirs.len(), answers@));
        if answers@.len() > 0 && answers@.last() {
            let k = answers@.len() - 1;
            lemma_first_present_at(cv, answers@, k);
            assert(cv[k] == config_candidate(dirs[k]));
        } else {
            assert(answers@.len() == dirs.len());
        }
        assert(found_by_search(dirs, answers@, res));
    }
    res
}

/// `asked` are the answers to "does this candidate exist?" for the
/// candidates in search order, from the first on, and the asking
/// stopped only at a candidate that exists, or at the end of the
/// search.
pub open spec fn searched_until_found(n: nat, asked: Seq<bool>) -> bool {
    &&& asked.len() <= n
    &&& forall|j: int| 0 <= j < asked.len() - 1 ==> !#[trigger] asked[j]
    &&& asked.len() < n ==> asked.len() > 0 && asked.last()
}

/// What such a search gives: the candidate of the directory where it
/// stopped on a `true` answer; not found only where every directory of
/// the search was asked about and none holds the file.
pub open spec fn found_by_search(
    dirs: Seq<Seq<char>>,
    asked: Seq<bool>,
    res: Result<String, ResolverError>,
) -> bool {
    match res {
        Ok(c) => asked.len() > 0 && asked.last() && c@ == config_candidate(dirs[asked.len() - 1]),
        Err(_) => asked.len() == dirs.len() && forall|j: int| 0 <= j < asked.len() ==> !#[trigger] asked[j],
    }
}

/// A search finds the nearest configuration file: the file returned is
/// in the first directory, from the start upwards, whose candidate was
/// answered present, and every directory nearer the start was answered
/// absent. Where nothing is found, every directory up to the root was
/// asked about and answered absent.
pub proof fn lemma_search_finds_nearest(
    dirs: Seq<Seq<char>>,
    asked: Seq<bool>,
    res: Result<String, ResolverError>,
)
    requires
        searched_until_found(dirs.len(), asked),
        found_by_search(dirs, asked, res),
    ensures
        res matches Ok(c) ==> exists|k: int|
            0 <= k < dirs.len() && #[trigger] asked[k] && c@ == config_candidate(dirs[k])
                && forall|j: int| 0 <= j < k ==> !asked[j],
        res is Err ==> asked.len() == dirs.len() && forall|j: int| 0 <= j < dirs.len() ==> !asked[j],
{
    if res is Ok {
        let k = asked.len() - 1;
        assert(asked[k]);
    }
}

/// In the collected answers, only the last can be true.
proof fn lemma_single_true(answers: Seq<bool>, j: int, k: int)
    requires
        0 <= j < answers.len(),
        0 <= k < answers.len(),
        answers[j],
        answers[k],
        forall|i: int| 0 <= i < answers.len() - 1 ==> !answers[i],
    ensures
        j == k,
{
}

/// Where the first `k` marks are false and the `k`-th is true, the
/// `k`-th candidate is the first present.
proof fn lemma_first_present_at(cands: Seq<Seq<char>>, present: Seq<bool>, k: int)
    requires
        0 <= k < cands.len(),
        k < present.len(),
        present[k],
        forall|j: int| 0 <= j < k ==> !present[j],
    ensures
        first_present(cands, present) == Some(cands[k]),
    decreases k,
{
    if k > 0 {
        lemma_first_present_at(cands.drop_first(), present.drop_first(), k - 1);
    }
}

/// Where the first `k` marks are false and no more can be looked at,
/// no candidate is present.
proof fn lemma_first_present_none_before(cands: Seq<Seq<char>>, present: Seq<bool>, k: int)
    requires
        0 <= k,
        k == cands.len() || k == present.len(),
        k <= cands.len(),
        k <= present.len(),
        forall|j: int| 0 <= j < k ==> !present[j],
    ensures
        first_present(cands, present) is None,
    decreases k,
{
    if k > 0 {
        lemma_first_present_none_before(cands.drop_first(), present.drop_first(), k - 1);
    }
}

/// Where no mark is true, no candidate is present.
proof fn lemma_first_present_none(cands: Seq<Seq<char>>, present: Seq<bool>)
    requires
        forall|j: int| 0 <= j < present.len() ==> !present[j],
    ensures
        first_present(cands, present) is None,
    decreases cands.len(),
{
    if cands.len() > 0 && present.len() > 0 {
        lemma_first_present_none(cands.drop_first(), present.drop_first());
    }
}


/// The ancestors of the parent of `p` are the ancestors of `p`, one
/// step on.
proof fn lemma_ancestor_of_parent(p: Seq<char>, q: Seq<char>, k: nat)
    requires
        parent_path(p) == Some(q),
    ensures
        ancestor(q, k) == ancestor(p, k + 1),
    decreases k,
{
    if k == 0 {
        assert(ancestor(p, 0) == Some(p));
        assert(ancestor(p, 1) == parent_path(p));
    } else {
        lemma_ancestor_of_parent(p, q, (k - 1) as nat);
        assert(ancestor(p, k + 1) == match ancestor(p, k) {
            Some(r) => parent_path(r),
            None => None,
        });
    }
}

/// The search from a path goes on as the search from its parent: where
/// `p` has a parent `q`, the directories searched from `q` are those
/// searched from `p` without `p` itself, and where the candidate in `p`
/// is reported absent, the search from `p` gives what the search from
/// `q` gives for the same later answers. In particular, a search that
/// starts at a file (which holds no `.watchr.toml`) ends as the search
/// from its directory does.
pub proof fn lemma_search_continues_at_parent(
    p: Seq<char>,
    dirs: Seq<Seq<char>>,
    present: Seq<bool>,
)
    requires
        is_search_chain(p, dirs),
        parent_path(p) is Some,
        present.len() == dirs.len(),
        !present[0],
    ensures
        is_search_chain(parent_path(p)->0, dirs.drop_first()),
        first_present(dirs.map_values(|d| config_candidate(d)), present) == first_present(
            dirs.drop_first().map_values(|d| config_candidate(d)),
            present.drop_first(),
        ),
{
    let q = parent_path(p)->0;
    let rest = dirs.drop_first();
    assert(ancestor(p, 1) == Some(q));
    assert(dirs.len() >= 1) by {
        if dirs.len() == 0 {
            assert(ancestor(p, 0) == Some(p));
        }
    }
    assert forall|i: int| 0 <= i < rest.len() implies ancestor(q, i as nat) == Some(
        #[trigger] rest[i],
    ) by {
        lemma_ancestor_of_parent(p, q, i as nat);
        assert(rest[i] == dirs[i + 1]);
    }
    lemma_ancestor_of_parent(p, q, rest.len());
    let cands = dirs.map_values(|d| config_candidate(d));
    assert(cands.drop_first() =~= rest.map_values(|d| config_candidate(d)));
}

} // verus!
