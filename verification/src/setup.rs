//! Where Applejuice keeps its data.
use vstd::prelude::*;
use crate::text::{concat, contains, contains_spec, copy_str};

verus! {

/// The data folder under the home folder `home`.
pub open spec fn applejuice_dir_spec(home: Seq<char>) -> Seq<char> {
    home + "/.local/share/applejuice"@
}

/// Where the data folder should be: `<home>/.local/share/applejuice`.
pub fn get_applejuice_dir(home: &str) -> (res: String)
    ensures
        res@ == applejuice_dir_spec(home@),
{
    concat(home, "/.local/share/applejuice")
}

/// The path that `provided` names: itself where it already holds the data folder's path,
/// and otherwise a path inside the data folder.
pub open spec fn data_path_spec(home: Seq<char>, provided: Seq<char>) -> Seq<char> {
    if contains_spec(provided, applejuice_dir_spec(home)) {
        provided
    } else {
        home + "/.local/share/applejuice/"@ + provided
    }
}

/// The path that `provided` names, relative to the data folder unless it is already a path
/// that holds the data folder's.
pub fn data_path(home: &str, provided: &str) -> (res: String)
    ensures
        res@ == data_path_spec(home@, provided@),
{
    let dir = get_applejuice_dir(home);
    if contains(provided, dir.as_str()) {
        copy_str(provided)
    } else {
        let base = concat(home, "/.local/share/applejuice/");
        concat(base.as_str(), provided)
    }
}

} // verus!
