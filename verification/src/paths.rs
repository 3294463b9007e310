//! Paths as text, and the allocation of a path that is still free.

use vstd::prelude::*;

verus! {

/// What `std::path::Path::join` gives for a directory and a path to adjoin,
/// both as text.
pub uninterp spec fn path_join(dir: Seq<char>, name: Seq<char>) -> Seq<char>;

/// What `std::path::Path::file_name` gives for a path as text.
pub uninterp spec fn path_file_name(path: Seq<char>) -> Option<Seq<char>>;

/// What `std::path::Path::parent` gives for a path as text.
pub uninterp spec fn path_parent(path: Seq<char>) -> Option<Seq<char>>;

/// Calls `std::path::Path::join`. The contract only names the result: the same
/// two texts always give the same joined path.
#[verifier::external_body]
pub(crate) fn join(dir: &str, name: &str) -> (joined: String)
    ensures
        joined@ == path_join(dir@, name@),
{
    std::path::Path::new(dir).join(name).to_string_lossy().into_owned()
}

/// Calls `std::path::Path::file_name`. The contract only names the result: the
/// final component of the path, if it has one.
#[verifier::external_body]
pub(crate) fn file_name(path: &str) -> (name: Option<String>)
    ensures
        name.deep_view() == path_file_name(path@),
{
    std::path::Path::new(path).file_name().map(|n| n.to_string_lossy().into_owned())
}

/// Calls `std::path::Path::parent`. The contract only names the result: the
/// path without its final component, if it has one.
#[verifier::external_body]
pub(crate) fn parent(path: &str) -> (dir: Option<String>)
    ensures
        dir.deep_view() == path_parent(path@),
{
    std::path::Path::new(path).parent().map(|d| d.to_string_lossy().into_owned())
}

/// The name under which an entry is shown: its final component, or nothing
/// where the path has none.
pub open spec fn display_name(path: Seq<char>) -> Seq<char> {
    match path_file_name(path) {
        Some(name) => name,
        None => Seq::empty(),
    }
}

/// `path` followed by `count` copies of the suffix `.1`.
pub open spec fn suffixed(path: Seq<char>, count: nat) -> Seq<char>
    decreases count,
{
    if count == 0 {
        path
    } else {
        suffixed(path, (count - 1) as nat) + ".1"@
    }
}

/// `count` is the least number of suffixes that leads `path` out of `taken`.
pub open spec fn first_free(path: Seq<char>, taken: Seq<Seq<char>>, count: nat) -> bool {
    &&& !taken.contains(suffixed(path, count))
    &&& forall|j: nat| j < count ==> taken.contains(#[trigger] suffixed(path, j))
}

/// The first of `path`, `path.1`, `path.1.1`, ... that is not among `taken`.
pub open spec fn free_path(path: Seq<char>, taken: Seq<Seq<char>>) -> Seq<char> {
    suffixed(path, choose|count: nat| first_free(path, taken, count))
}

/// Each suffix makes the path two characters longer and keeps what was there.
pub proof fn lemma_suffixed_extends(path: Seq<char>, count: nat)
    ensures
        suffixed(path, count).len() == path.len() + 2 * count,
        path.is_prefix_of(suffixed(path, count)),
    decreases count,
{
    reveal_strlit(".1");
    if count > 0 {
        lemma_suffixed_extends(path, (count - 1) as nat);
        let shorter = suffixed(path, (count - 1) as nat);
        assert(path =~= shorter.subrange(0, path.len() as int));
        assert(path =~= (shorter + ".1"@).subrange(0, path.len() as int));
    }
}

/// The candidates `suffixed(path, 0)`, ..., `suffixed(path, count - 1)`.
spec fn candidates(path: Seq<char>, count: nat) -> Set<Seq<char>>
    decreases count,
{
    if count == 0 {
        Set::empty()
    } else {
        candidates(path, (count - 1) as nat).insert(suffixed(path, (count - 1) as nat))
    }
}

proof fn lemma_candidates(path: Seq<char>, count: nat)
    ensures
        candidates(path, count).finite(),
        candidates(path, count).len() == count,
        forall|c: Seq<char>| #[trigger]
            candidates(path, count).contains(c) ==> exists|j: nat|
                j < count && c == suffixed(path, j),
    decreases count,
{
    if count > 0 {
        let fewer = (count - 1) as nat;
        lemma_candidates(path, fewer);
        let last = suffixed(path, fewer);
        if candidates(path, fewer).contains(last) {
            let j = choose|j: nat| j < fewer && last == suffixed(path, j);
            lemma_suffixed_extends(path, j);
            lemma_suffixed_extends(path, fewer);
        }
        assert forall|c: Seq<char>| #[trigger]
            candidates(path, count).contains(c) implies exists|j: nat|
            j < count && c == suffixed(path, j) by {
            if c == last {
                assert(fewer < count && c == suffixed(path, fewer));
            } else {
                let j = choose|j: nat| j < fewer && c == suffixed(path, j);
                assert(j < count && c == suffixed(path, j));
            }
        }
    }
}

/// As long as every candidate so far is taken, there are no more candidates
/// than taken paths.
proof fn lemma_candidates_run_out(path: Seq<char>, taken: Seq<Seq<char>>, count: nat)
    requires
        forall|j: nat| j < count ==> taken.contains(#[trigger] suffixed(path, j)),
    ensures
        count <= taken.len(),
{
    lemma_candidates(path, count);
    taken.lemma_cardinality_of_set();
    assert(candidates(path, count).subset_of(taken.to_set())) by {
        assert forall|c: Seq<char>| candidates(path, count).contains(c) implies taken.to_set().contains(
            c,
        ) by {
            let j = choose|j: nat| j < count && c == suffixed(path, j);
            assert(taken.contains(suffixed(path, j)));
        }
    }
    vstd::set_lib::lemma_len_subset(candidates(path, count), taken.to_set());
}

/// From any number of candidates that are all taken, the search reaches a
/// count that is the first free one.
proof fn lemma_first_free_from(path: Seq<char>, taken: Seq<Seq<char>>, count: nat)
    requires
        forall|j: nat| j < count ==> taken.contains(#[trigger] suffixed(path, j)),
    ensures
        exists|free: nat| first_free(path, taken, free),
    decreases taken.len() - count,
{
    lemma_candidates_run_out(path, taken, count);
    if taken.contains(suffixed(path, count)) {
        assert forall|j: nat| j < count + 1 implies taken.contains(
            #[trigger] suffixed(path, j),
        ) by {}
        lemma_candidates_run_out(path, taken, count + 1);
        lemma_first_free_from(path, taken, count + 1);
    } else {
        assert(first_free(path, taken, count));
    }
}

/// The path that the search allocates is never among the taken ones. It is
/// the given path where that is free, and else the given path with at least
/// one suffix, and so strictly longer, with the given path at its start.
pub proof fn lemma_free_path(path: Seq<char>, taken: Seq<Seq<char>>)
    ensures
        !taken.contains(free_path(path, taken)),
        path.is_prefix_of(free_path(path, taken)),
        !taken.contains(path) ==> free_path(path, taken) == path,
        taken.contains(path) ==> free_path(path, taken).len() > path.len(),
{
    lemma_first_free_from(path, taken, 0);
    let count = choose|count: nat| first_free(path, taken, count);
    lemma_suffixed_extends(path, count);
    if count > 0 {
        assert(taken.contains(suffixed(path, 0)));
    }
    if !taken.contains(path) && count > 0 {
        assert(taken.contains(suffixed(path, 0)));
    }
    if taken.contains(path) && count == 0 {
        assert(!taken.contains(suffixed(path, 0)));
    }
}

/// Whether `path` is one of `paths`.
pub fn contains_path(paths: &Vec<String>, path: &str) -> (found: bool)
    ensures
        found == paths.deep_view().contains(path@),
{
    let mut i: usize = 0;
    while i < paths.len()
        invariant
            i <= paths.len(),
            forall|j: int| 0 <= j < i ==> paths.deep_view()[j] != path@,
        decreases paths.len() - i,
    {
        if same_text(paths[i].as_str(), path) {
            assert(paths.deep_view()[i as int] == path@);
            return true;
        }
        i += 1;
    }
    false
}

/// Whether two texts hold the same characters.
pub fn same_text(a: &str, b: &str) -> (same: bool)
    ensures
        same == (a@ == b@),
{
    let left = String::from_str(a);
    let right = String::from_str(b);
    left == right
}

/// A path that is not among `taken`: `path` itself where it is free, else
/// `path` with as many suffixes `.1` as it takes to leave `taken`.
///
/// `taken` holds the paths that exist beside `path`, as the caller has read
/// them. No more than `taken.len()` suffixes are ever needed, so the search
/// always ends.
pub fn new_path(path: &str, taken: &Vec<String>) -> (free: String)
    ensures
        free@ == free_path(path@, taken.deep_view()),
        !taken.deep_view().contains(free@),
        exists|count: nat|
            free@ == suffixed(path@, count) && first_free(path@, taken.deep_view(), count),
        !taken.deep_view().contains(path@) ==> free@ == path@,
        taken.deep_view().contains(path@) ==> free@.len() > path@.len(),
        path@.is_prefix_of(free@),
{
    let mut free = String::from_str(path);
    let ghost mut count: nat = 0;
    while contains_path(taken, free.as_str())
        invariant
            free@ == suffixed(path@, count),
            forall|j: nat| j < count ==> taken.deep_view().contains(#[trigger] suffixed(path@, j)),
            count <= taken.len(),
        decreases taken.len() - count,
    {
        proof {
            assert forall|j: nat| j < count + 1 implies taken.deep_view().contains(
                #[trigger] suffixed(path@, j),
            ) by {}
            lemma_candidates_run_out(path@, taken.deep_view(), count + 1);
        }
        free.append(".1");
        proof {
            count = count + 1;
        }
    }
    proof {
        assert(first_free(path@, taken.deep_view(), count));
        lemma_suffixed_extends(path@, count);
        if count > 0 {
            assert(taken.deep_view().contains(suffixed(path@, 0)));
        }
        let chosen = choose|c: nat| first_free(path@, taken.deep_view(), c);
        if chosen < count {
            assert(taken.deep_view().contains(suffixed(path@, chosen)));
        }
        if count < chosen {
            assert(taken.deep_view().contains(suffixed(path@, count)));
        }
    }
    free
}

} // verus!
