//! Paths as the platform reads them.
use vstd::prelude::*;

use crate::config::Platform;
use crate::paths;
use crate::windows_paths;

verus! {

/// Whether a path means the same from everywhere.
pub open spec fn absolute(p: Seq<char>, platform: Platform) -> bool {
    match platform {
        Platform::Unix => paths::absolute(p),
        Platform::Windows => windows_paths::absolute(p),
    }
}

/// The path that `p` names as seen from the directory `base`.
pub open spec fn appended(base: Seq<char>, p: Seq<char>, platform: Platform) -> Seq<char> {
    match platform {
        Platform::Unix => paths::appended(base, p),
        Platform::Windows => windows_paths::appended(base, p),
    }
}

/// How many parts a path has, a prefix counted as one.
pub open spec fn part_count(p: Seq<char>, platform: Platform) -> nat {
    match platform {
        Platform::Unix => paths::parts_of(p).len(),
        Platform::Windows => windows_paths::part_count(p),
    }
}

/// The directory that holds what `p` names; none for a root, a prefix and the
/// empty path.
pub open spec fn parent_of(p: Seq<char>, platform: Platform) -> Option<Seq<char>> {
    match platform {
        Platform::Unix => paths::parent_of(p),
        Platform::Windows => windows_paths::parent_of(p),
    }
}

/// The name that a path ends in, if it ends in one.
pub open spec fn file_name_of(p: Seq<char>, platform: Platform) -> Option<Seq<char>> {
    match platform {
        Platform::Unix => paths::file_name_of(p),
        Platform::Windows => windows_paths::file_name_of(p),
    }
}

/// The path that `p` names as seen from `base`, with every `.` and `..` of `p`
/// carried out on the text.
pub open spec fn normalized(base: Seq<char>, p: Seq<char>, platform: Platform) -> Seq<char> {
    match platform {
        Platform::Unix => paths::normalized(base, p),
        Platform::Windows => windows_paths::normalized(base, p),
    }
}

pub fn is_absolute(p: &Vec<char>, platform: Platform) -> (r: bool)
    ensures
        r == absolute(p@, platform),
{
    match platform {
        Platform::Unix => paths::is_absolute(p),
        Platform::Windows => windows_paths::is_absolute(p),
    }
}

pub fn join_path(base: &Vec<char>, p: &Vec<char>, platform: Platform) -> (r: Vec<char>)
    ensures
        r@ == appended(base@, p@, platform),
{
    match platform {
        Platform::Unix => paths::join_path(base, p),
        Platform::Windows => windows_paths::join_path(base, p),
    }
}

/// Whether a path has at most one part.
pub fn is_single(p: &Vec<char>, platform: Platform) -> (r: bool)
    ensures
        r == (part_count(p@, platform) <= 1),
{
    match platform {
        Platform::Unix => paths::part_count(p) <= 1,
        Platform::Windows => windows_paths::is_single(p),
    }
}

pub fn parent_path(p: &Vec<char>, platform: Platform) -> (r: Option<Vec<char>>)
    ensures
        match r {
            Some(d) => parent_of(p@, platform) == Some(d@),
            None => parent_of(p@, platform) is None,
        },
{
    match platform {
        Platform::Unix => paths::parent_path(p),
        Platform::Windows => windows_paths::parent_path(p),
    }
}

pub fn file_name(p: &Vec<char>, platform: Platform) -> (r: Option<Vec<char>>)
    ensures
        match r {
            Some(name) => file_name_of(p@, platform) == Some(name@),
            None => file_name_of(p@, platform) is None,
        },
{
    match platform {
        Platform::Unix => paths::file_name(p),
        Platform::Windows => windows_paths::file_name(p),
    }
}

pub fn normalize_path(base: &Vec<char>, p: &Vec<char>, platform: Platform) -> (r: Vec<char>)
    ensures
        r@ == normalized(base@, p@, platform),
{
    match platform {
        Platform::Unix => paths::normalize_path(base, p),
        Platform::Windows => windows_paths::normalize_path(base, p),
    }
}

/// An absolute path stands for itself, whatever directory it is seen from.
pub proof fn law_absolute_path_stands_for_itself(
    base: Seq<char>,
    p: Seq<char>,
    platform: Platform,
)
    requires
        absolute(p, platform),
    ensures
        appended(base, p, platform) == p,
{
}

/// On each platform paths follow the rules of that platform, whatever is asked
/// of them.
pub proof fn law_paths_follow_their_platform(
    base: &Vec<char>,
    p: &Vec<char>,
    platform: Platform,
    told: (bool, bool, Vec<char>, Vec<char>, Option<Vec<char>>, Option<Vec<char>>),
    unix: (bool, usize, Vec<char>, Vec<char>, Option<Vec<char>>, Option<Vec<char>>),
    windows: (bool, bool, Vec<char>, Vec<char>, Option<Vec<char>>, Option<Vec<char>>),
)
    requires
        call_ensures(is_absolute, (p, platform), told.0),
        call_ensures(is_single, (p, platform), told.1),
        call_ensures(join_path, (base, p, platform), told.2),
        call_ensures(normalize_path, (base, p, platform), told.3),
        call_ensures(parent_path, (p, platform), told.4),
        call_ensures(file_name, (p, platform), told.5),
        call_ensures(paths::is_absolute, (p,), unix.0),
        call_ensures(paths::part_count, (p,), unix.1),
        call_ensures(paths::join_path, (base, p), unix.2),
        call_ensures(paths::normalize_path, (base, p), unix.3),
        call_ensures(paths::parent_path, (p,), unix.4),
        call_ensures(paths::file_name, (p,), unix.5),
        call_ensures(windows_paths::is_absolute, (p,), windows.0),
        call_ensures(windows_paths::is_single, (p,), windows.1),
        call_ensures(windows_paths::join_path, (base, p), windows.2),
        call_ensures(windows_paths::normalize_path, (base, p), windows.3),
        call_ensures(windows_paths::parent_path, (p,), windows.4),
        call_ensures(windows_paths::file_name, (p,), windows.5),
    ensures
        platform is Unix ==> {
            &&& told.0 == unix.0
            &&& told.1 == (unix.1 <= 1)
            &&& told.2@ == unix.2@
            &&& told.3@ == unix.3@
            &&& told.4 is Some == unix.4 is Some
            &&& told.4 is Some ==> told.4->0@ == unix.4->0@
            &&& told.5 is Some == unix.5 is Some
            &&& told.5 is Some ==> told.5->0@ == unix.5->0@
        },
        platform is Windows ==> {
            &&& told.0 == windows.0
            &&& told.1 == windows.1
            &&& told.2@ == windows.2@
            &&& told.3@ == windows.3@
            &&& told.4 is Some == windows.4 is Some
            &&& told.4 is Some ==> told.4->0@ == windows.4->0@
            &&& told.5 is Some == windows.5 is Some
            &&& told.5 is Some ==> told.5->0@ == windows.5->0@
        },
{
}

} // verus!
