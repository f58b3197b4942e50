//! Paths, as texts. What is absolute and how a name is put below a directory depends on the host,
//! and so is stated as what the host may answer.

use vstd::prelude::*;

verus! {

/// Calls `std::path::Path::is_absolute`. What is absolute depends on the host.
#[verifier::external_body]
fn host_is_absolute(path: &str) -> bool {
    std::path::Path::new(path).is_absolute()
}

/// The host may answer this when it is asked whether a path is absolute.
pub closed spec fn may_be_absolute(path: Seq<char>, answer: bool) -> bool {
    exists|p: &str| p@ == path && #[trigger] call_ensures(host_is_absolute, (p,), answer)
}

/// Whether a path does not depend on the current directory, as the host has it.
pub fn is_absolute(path: &str) -> (answer: bool)
    ensures
        may_be_absolute(path@, answer),
{
    let answer = host_is_absolute(path);
    assert(call_ensures(host_is_absolute, (path,), answer));
    answer
}

/// The host may answer this of a directory that need not be there; none is not absolute.
pub open spec fn may_be_absolute_dir(dir: Option<Seq<char>>, answer: bool) -> bool {
    match dir {
        Some(path) => may_be_absolute(path, answer),
        None => !answer,
    }
}

/// Whether a directory is there and absolute, as the host has it.
pub fn is_absolute_dir(dir: Option<&str>) -> (answer: bool)
    ensures
        may_be_absolute_dir(
            match dir {
                Some(path) => Some(path@),
                None => None,
            },
            answer,
        ),
{
    match dir {
        Some(path) => is_absolute(path),
        None => false,
    }
}

/// Calls `std::path::Path::join`. Which separator stands between the two depends on the host.
#[verifier::external_body]
fn host_join(dir: &str, name: &str) -> String {
    std::path::Path::new(dir).join(name).display().to_string()
}

/// The host may give this path to a name below a directory.
pub closed spec fn may_join(dir: Seq<char>, name: Seq<char>, path: Seq<char>) -> bool {
    exists|d: &str, n: &str, p: String|
        d@ == dir && n@ == name && p@ == path && #[trigger] call_ensures(host_join, (d, n), p)
}

/// The path of a name below a directory, as the host has it.
pub fn join(dir: &str, name: &str) -> (path: String)
    ensures
        may_join(dir@, name@, path@),
{
    let path = host_join(dir, name);
    assert(call_ensures(host_join, (dir, name), path));
    path
}

/// The host may give this path to names each below the one before, the first below a directory.
pub open spec fn may_join_all(dir: Seq<char>, names: Seq<Seq<char>>, path: Seq<char>) -> bool
    decreases names.len(),
{
    if names.len() == 0 {
        path == dir
    } else {
        exists|above: Seq<char>|
            may_join_all(dir, names.drop_last(), above) && #[trigger] may_join(
                above,
                names.last(),
                path,
            )
    }
}

/// One more name below others.
pub proof fn lemma_join_one_more(
    dir: Seq<char>,
    names: Seq<Seq<char>>,
    above: Seq<char>,
    name: Seq<char>,
    path: Seq<char>,
)
    requires
        may_join_all(dir, names, above),
        may_join(above, name, path),
    ensures
        may_join_all(dir, names.push(name), path),
{
    assert(names.push(name).drop_last() =~= names);
    assert(names.push(name).last() == name);
}

/// Calls `std::path::Path::components`: how many there are. What separates them depends on the
/// host.
#[verifier::external_body]
fn host_count_parts(path: &str) -> usize {
    std::path::Path::new(path).components().count()
}

/// The host may say that a path has so many parts.
pub closed spec fn may_have_parts(path: Seq<char>, n: usize) -> bool {
    exists|p: &str| p@ == path && #[trigger] call_ensures(host_count_parts, (p,), n)
}

/// The number of parts of a path, as the host has it.
pub fn count_parts(path: &str) -> (n: usize)
    ensures
        may_have_parts(path@, n),
{
    let n = host_count_parts(path);
    assert(call_ensures(host_count_parts, (path,), n));
    n
}

} // verus!
