//! Finding a JetBrains product's `recentProjects.xml` among its versioned
//! configuration directories (`IntelliJIdea2024.1`, `WebStorm2023.3`, ...).

use vstd::prelude::*;
use crate::paths::{join_all, join_parts};
use crate::scan::opt_view;
use crate::text::{has_prefix, starts_with_text};

verus! {

/// `<root>/<dir>/options/recentProjects.xml`.
pub open spec fn xml_path_in(root: Seq<char>, dir: Seq<char>, sep: char) -> Seq<char> {
    join_all(root, seq![dir, "options"@, "recentProjects.xml"@], sep)
}

/// The first directory whose name starts with `prefix` and that is marked
/// as holding the file.
pub open spec fn first_config_dir(prefix: Seq<char>, dirs: Seq<(String, bool)>) -> Option<Seq<char>>
    decreases dirs.len(),
{
    if dirs.len() == 0 {
        None
    } else if has_prefix(dirs[0].0@, prefix) && dirs[0].1 {
        Some(dirs[0].0@)
    } else {
        first_config_dir(prefix, dirs.drop_first())
    }
}

pub open spec fn found_xml(prefix: Seq<char>, root: Seq<char>, dirs: Seq<(String, bool)>, sep: char) -> Option<Seq<char>> {
    match first_config_dir(prefix, dirs) {
        Some(d) => Some(xml_path_in(root, d, sep)),
        None => None,
    }
}

/// The `recentProjects.xml` of one configuration directory under the
/// JetBrains root.
pub fn recent_projects_xml_path(jetbrains_dir: &str, dir_name: &str, sep: char) -> (r: String)
    ensures
        r@ == xml_path_in(jetbrains_dir@, dir_name@, sep),
{
    let parts: Vec<&str> = vec![dir_name, "options", "recentProjects.xml"];
    assert(parts@.map_values(|p: &str| p@) =~= seq![dir_name@, "options"@, "recentProjects.xml"@]);
    join_parts(jetbrains_dir, &parts, sep)
}

/// The `recentProjects.xml` of the first configuration directory whose name
/// starts with `product_prefix` and holds one. `dirs` lists the directories
/// under `jetbrains_dir` in the order the file system gave them, each with
/// whether its `recentProjects.xml` (see `recent_projects_xml_path`) exists.
pub fn find_jetbrains_recent_projects_xml(
    product_prefix: &str,
    jetbrains_dir: &str,
    dirs: &Vec<(String, bool)>,
    sep: char,
) -> (r: Option<String>)
    ensures
        opt_view(r) == found_xml(product_prefix@, jetbrains_dir@, dirs@, sep),
{
    let mut i: usize = 0;
    assert(dirs@.subrange(0, dirs@.len() as int) =~= dirs@);
    while i < dirs.len()
        invariant
            i <= dirs@.len(),
            first_config_dir(product_prefix@, dirs@) == first_config_dir(
                product_prefix@,
                dirs@.subrange(i as int, dirs@.len() as int),
            ),
        decreases dirs@.len() - i,
    {
        let ghost rest = dirs@.subrange(i as int, dirs@.len() as int);
        assert(rest[0] == dirs@[i as int]);
        if dirs[i].1 && starts_with_text(dirs[i].0.as_str(), product_prefix) {
            return Some(recent_projects_xml_path(jetbrains_dir, dirs[i].0.as_str(), sep));
        }
        assert(rest.drop_first() =~= dirs@.subrange(i + 1, dirs@.len() as int));
        i = i + 1;
    }
    None
}

/// IntelliJ IDEA's file: directories named `IntelliJIdea...`.
pub fn find_idea_recent_projects_xml(jetbrains_dir: &str, dirs: &Vec<(String, bool)>, sep: char) -> (r: Option<String>)
    ensures
        opt_view(r) == found_xml("IntelliJIdea"@, jetbrains_dir@, dirs@, sep),
{
    find_jetbrains_recent_projects_xml("IntelliJIdea", jetbrains_dir, dirs, sep)
}

/// WebStorm's file: directories named `WebStorm...`.
pub fn find_webstorm_recent_projects_xml(jetbrains_dir: &str, dirs: &Vec<(String, bool)>, sep: char) -> (r: Option<String>)
    ensures
        opt_view(r) == found_xml("WebStorm"@, jetbrains_dir@, dirs@, sep),
{
    find_jetbrains_recent_projects_xml("WebStorm", jetbrains_dir, dirs, sep)
}

/// PyCharm's file: directories named `PyCharm...`.
pub fn find_pycharm_recent_projects_xml(jetbrains_dir: &str, dirs: &Vec<(String, bool)>, sep: char) -> (r: Option<String>)
    ensures
        opt_view(r) == found_xml("PyCharm"@, jetbrains_dir@, dirs@, sep),
{
    find_jetbrains_recent_projects_xml("PyCharm", jetbrains_dir, dirs, sep)
}

} // verus!
