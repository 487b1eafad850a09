//! Launching an editor on a project: which executables to try, in which
//! order, and what to report when none of them starts. Spawning itself is
//! the caller's: it asks a `LaunchPlan` what to try and tells it what happened.

use vstd::prelude::*;
use crate::paths::{join_path, join_all, join, join_parts, dedup, dedup_keep_order, texts};
use crate::project::EditorSource;
use crate::scan::opt_view;

verus! {

/// The executables to look for in a directory that the user gave for `editor`.
pub open spec fn dir_executables(editor: EditorSource) -> Seq<Seq<char>> {
    match editor {
        EditorSource::Vscode => seq!["Code.exe"@, "code.exe"@],
        EditorSource::Trae => seq!["Trae.exe"@, "trae.exe"@, "trae.cmd"@],
        EditorSource::Qoder => seq!["Qoder.exe"@, "qoder.exe"@, "qoder.cmd"@],
        EditorSource::Idea => seq!["idea64.exe"@, "idea.exe"@, "idea.cmd"@],
        EditorSource::Pycharm => seq!["pycharm64.exe"@, "pycharm.exe"@, "pycharm.cmd"@],
        EditorSource::Webstorm => seq!["webstorm64.exe"@, "webstorm.exe"@, "webstorm.cmd"@],
    }
}

pub open spec fn strs(v: Seq<&str>) -> Seq<Seq<char>> {
    v.map_values(|s: &str| s@)
}

/// `names`, each joined to `dir`.
pub open spec fn joined_each(dir: Seq<char>, names: Seq<Seq<char>>, sep: char) -> Seq<Seq<char>> {
    names.map_values(|n: Seq<char>| join_path(dir, n, sep))
}

/// Each of `names` joined to `dir`.
fn join_each(dir: &str, names: &Vec<&str>, sep: char) -> (r: Vec<String>)
    ensures
        texts(r@) == joined_each(dir@, strs(names@), sep),
{
    let mut out: Vec<String> = Vec::new();
    let mut i: usize = 0;
    while i < names.len()
        invariant
            i <= names@.len(),
            texts(out@) =~= joined_each(dir@, strs(names@), sep).subrange(0, i as int),
        decreases names@.len() - i,
    {
        let p = join(dir, names[i], sep);
        let ghost before = texts(out@);
        out.push(p);
        assert(texts(out@) =~= before.push(p@));
        i = i + 1;
    }
    out
}

/// The candidates when the user named a directory for `editor`: the
/// editor's executable names in that directory.
pub fn candidates_in_dir(editor: EditorSource, dir: &str, sep: char) -> (r: Vec<String>)
    ensures
        texts(r@) == joined_each(dir@, dir_executables(editor), sep),
{
    let names: Vec<&str> = match editor {
        EditorSource::Vscode => vec!["Code.exe", "code.exe"],
        EditorSource::Trae => vec!["Trae.exe", "trae.exe", "trae.cmd"],
        EditorSource::Qoder => vec!["Qoder.exe", "qoder.exe", "qoder.cmd"],
        EditorSource::Idea => vec!["idea64.exe", "idea.exe", "idea.cmd"],
        EditorSource::Pycharm => vec!["pycharm64.exe", "pycharm.exe", "pycharm.cmd"],
        EditorSource::Webstorm => vec!["webstorm64.exe", "webstorm.exe", "webstorm.cmd"],
    };
    assert(strs(names@) =~= dir_executables(editor));
    join_each(dir, &names, sep)
}

/// The candidates for an editor the user named a path for: the executables
/// in it if it is a directory, else the path itself.
pub fn override_candidates(editor: EditorSource, path: String, is_dir: bool, sep: char) -> (r: Vec<String>)
    ensures
        texts(r@) == if is_dir {
            joined_each(path@, dir_executables(editor), sep)
        } else {
            seq![path@]
        },
{
    if is_dir {
        candidates_in_dir(editor, path.as_str(), sep)
    } else {
        let ghost p = path@;
        let r = vec![path];
        assert(texts(r@) =~= seq![p]);
        r
    }
}

/// `seq![join_all(base, parts)]` if there is a base, else nothing.
pub open spec fn install_path(base: Option<Seq<char>>, parts: Seq<Seq<char>>, sep: char) -> Seq<Seq<char>> {
    match base {
        Some(b) => seq![join_all(b, parts, sep)],
        None => Seq::empty(),
    }
}

/// The candidates of a VS Code-family editor when the user named none: the
/// bare command names, for the search path, then the executable in the
/// per-user and the system-wide installation directories that the
/// environment gave; repeated entries removed.
pub open spec fn family_candidates(
    names: Seq<Seq<char>>,
    local_app_data: Option<Seq<char>>,
    program_files: Option<Seq<char>>,
    program_files_x86: Option<Seq<char>>,
    product_dir: Seq<char>,
    exe: Seq<char>,
    sep: char,
) -> Seq<Seq<char>> {
    dedup(
        names + install_path(local_app_data, seq!["Programs"@, product_dir, exe], sep)
            + install_path(program_files, seq![product_dir, exe], sep)
            + install_path(program_files_x86, seq![product_dir, exe], sep),
    )
}

/// Appends `join_parts(base, parts)` to `list` where there is a base.
fn push_install(list: &mut Vec<String>, base: &Option<String>, parts: &Vec<&str>, sep: char)
    ensures
        texts(final(list)@) == texts(old(list)@) + install_path(opt_view(*base), strs(parts@), sep),
{
    match base {
        Some(b) => {
            let p = join_parts(b.as_str(), parts, sep);
            let ghost before = texts(list@);
            list.push(p);
            assert(texts(list@) =~= before + install_path(opt_view(*base), strs(parts@), sep));
        },
        None => {
            assert(texts(list@) =~= texts(list@) + install_path(opt_view(*base), strs(parts@), sep));
        },
    }
}

fn family(
    names: &Vec<&str>,
    local_app_data: &Option<String>,
    program_files: &Option<String>,
    program_files_x86: &Option<String>,
    product_dir: &str,
    exe: &str,
    sep: char,
) -> (r: Vec<String>)
    ensures
        texts(r@) == family_candidates(
            strs(names@),
            opt_view(*local_app_data),
            opt_view(*program_files),
            opt_view(*program_files_x86),
            product_dir@,
            exe@,
            sep,
        ),
{
    let mut list: Vec<String> = Vec::new();
    let mut i: usize = 0;
    while i < names.len()
        invariant
            i <= names@.len(),
            texts(list@) =~= strs(names@).subrange(0, i as int),
        decreases names@.len() - i,
    {
        let ghost before = texts(list@);
        list.push(String::from_str(names[i]));
        assert(texts(list@) =~= before.push(names@[i as int]@));
        i = i + 1;
    }
    assert(strs(names@).subrange(0, names@.len() as int) =~= strs(names@));
    let user: Vec<&str> = vec!["Programs", product_dir, exe];
    let system: Vec<&str> = vec![product_dir, exe];
    assert(strs(user@) =~= seq!["Programs"@, product_dir@, exe@]);
    assert(strs(system@) =~= seq![product_dir@, exe@]);
    push_install(&mut list, local_app_data, &user, sep);
    push_install(&mut list, program_files, &system, sep);
    push_install(&mut list, program_files_x86, &system, sep);
    dedup_keep_order(list)
}

/// VS Code's candidates: `code`, `code.cmd`, `code.exe`, then
/// `Microsoft VS Code\Code.exe` under `%LOCALAPPDATA%\Programs`,
/// `%ProgramFiles%` and `%ProgramFiles(x86)%`, where those are set.
pub fn collect_code_candidates(
    local_app_data: &Option<String>,
    program_files: &Option<String>,
    program_files_x86: &Option<String>,
    sep: char,
) -> (r: Vec<String>)
    ensures
        texts(r@) == family_candidates(
            seq!["code"@, "code.cmd"@, "code.exe"@],
            opt_view(*local_app_data),
            opt_view(*program_files),
            opt_view(*program_files_x86),
            "Microsoft VS Code"@,
            "Code.exe"@,
            sep,
        ),
{
    let names: Vec<&str> = vec!["code", "code.cmd", "code.exe"];
    assert(strs(names@) =~= seq!["code"@, "code.cmd"@, "code.exe"@]);
    family(&names, local_app_data, program_files, program_files_x86, "Microsoft VS Code", "Code.exe", sep)
}

/// Trae's candidates: `trae`, `trae.exe`, `trae.cmd`, then `Trae\Trae.exe`
/// in the installation directories.
pub fn collect_trae_candidates(
    local_app_data: &Option<String>,
    program_files: &Option<String>,
    program_files_x86: &Option<String>,
    sep: char,
) -> (r: Vec<String>)
    ensures
        texts(r@) == family_candidates(
            seq!["trae"@, "trae.exe"@, "trae.cmd"@],
            opt_view(*local_app_data),
            opt_view(*program_files),
            opt_view(*program_files_x86),
            "Trae"@,
            "Trae.exe"@,
            sep,
        ),
{
    let names: Vec<&str> = vec!["trae", "trae.exe", "trae.cmd"];
    assert(strs(names@) =~= seq!["trae"@, "trae.exe"@, "trae.cmd"@]);
    family(&names, local_app_data, program_files, program_files_x86, "Trae", "Trae.exe", sep)
}

/// Qoder's candidates: `qoder`, `qoder.exe`, `qoder.cmd`, then
/// `Qoder\Qoder.exe` in the installation directories.
pub fn collect_qoder_candidates(
    local_app_data: &Option<String>,
    program_files: &Option<String>,
    program_files_x86: &Option<String>,
    sep: char,
) -> (r: Vec<String>)
    ensures
        texts(r@) == family_candidates(
            seq!["qoder"@, "qoder.exe"@, "qoder.cmd"@],
            opt_view(*local_app_data),
            opt_view(*program_files),
            opt_view(*program_files_x86),
            "Qoder"@,
            "Qoder.exe"@,
            sep,
        ),
{
    let names: Vec<&str> = vec!["qoder", "qoder.exe", "qoder.cmd"];
    assert(strs(names@) =~= seq!["qoder"@, "qoder.exe"@, "qoder.cmd"@]);
    family(&names, local_app_data, program_files, program_files_x86, "Qoder", "Qoder.exe", sep)
}

/// The directories where a JetBrains product may be installed, each holding
/// one directory per version.
pub open spec fn install_roots(product: Seq<char>) -> Seq<Seq<char>> {
    seq![
        "C:/Program Files/JetBrains/"@ + product + " Community Edition"@,
        "C:/Program Files/JetBrains/"@ + product + " Ultimate"@,
        "C:/Program Files/JetBrains/"@ + product,
        "C:/Program Files (x86)/JetBrains/"@ + product + " Community Edition"@,
        "C:/Program Files (x86)/JetBrains/"@ + product + " Ultimate"@,
        "C:/Program Files (x86)/JetBrains/"@ + product,
    ]
}

fn concat(a: &str, b: &str) -> (r: String)
    ensures
        r@ == a@ + b@,
{
    let mut s = String::from_str(a);
    s.append(b);
    s
}

fn concat3(a: &str, b: &str, c: &str) -> (r: String)
    ensures
        r@ == a@ + b@ + c@,
{
    let mut s = concat(a, b);
    s.append(c);
    s
}

/// The installation directories to search for a JetBrains product's
/// versions (`product_name` as in `IntelliJ IDEA`).
pub fn jetbrains_install_roots(product_name: &str) -> (r: Vec<String>)
    ensures
        texts(r@) == install_roots(product_name@),
{
    let r = vec![
        concat3("C:/Program Files/JetBrains/", product_name, " Community Edition"),
        concat3("C:/Program Files/JetBrains/", product_name, " Ultimate"),
        concat("C:/Program Files/JetBrains/", product_name),
        concat3("C:/Program Files (x86)/JetBrains/", product_name, " Community Edition"),
        concat3("C:/Program Files (x86)/JetBrains/", product_name, " Ultimate"),
        concat("C:/Program Files (x86)/JetBrains/", product_name),
    ];
    assert(texts(r@) =~= install_roots(product_name@));
    r
}

/// The executables to look for in one version directory of a JetBrains
/// product: `bin/<exe>64.exe`, then `bin/<exe>.exe`.
pub open spec fn version_binaries(version_dir: Seq<char>, exe: Seq<char>, sep: char) -> Seq<Seq<char>> {
    seq![
        join_all(version_dir, seq!["bin"@, exe + "64.exe"@], sep),
        join_all(version_dir, seq!["bin"@, exe + ".exe"@], sep),
    ]
}

/// The paths of a version directory's executables; the caller keeps those
/// that exist.
pub fn jetbrains_binaries(version_dir: &str, exe_name: &str, sep: char) -> (r: Vec<String>)
    ensures
        texts(r@) == version_binaries(version_dir@, exe_name@, sep),
{
    let wide = concat(exe_name, "64.exe");
    let plain = concat(exe_name, ".exe");
    let a: Vec<&str> = vec!["bin", wide.as_str()];
    let b: Vec<&str> = vec!["bin", plain.as_str()];
    assert(strs(a@) =~= seq!["bin"@, exe_name@ + "64.exe"@]);
    assert(strs(b@) =~= seq!["bin"@, exe_name@ + ".exe"@]);
    let r = vec![join_parts(version_dir, &a, sep), join_parts(version_dir, &b, sep)];
    assert(texts(r@) =~= version_binaries(version_dir@, exe_name@, sep));
    r
}

/// The command names of a JetBrains product for the search path.
pub open spec fn jetbrains_commands(exe: Seq<char>) -> Seq<Seq<char>> {
    seq![exe + "64"@, exe, exe + "64.exe"@, exe + ".exe"@, exe + ".cmd"@]
}

/// A JetBrains product's candidates: the installed executables that the
/// caller found, then `<exe>64`, `<exe>`, `<exe>64.exe`, `<exe>.exe` and
/// `<exe>.cmd` for the search path.
pub fn collect_jetbrains_candidates(installed: &Vec<String>, exe_name: &str) -> (r: Vec<String>)
    ensures
        texts(r@) == texts(installed@) + jetbrains_commands(exe_name@),
{
    let mut list: Vec<String> = Vec::new();
    let mut i: usize = 0;
    while i < installed.len()
        invariant
            i <= installed@.len(),
            texts(list@) =~= texts(installed@).subrange(0, i as int),
        decreases installed@.len() - i,
    {
        let ghost before = texts(list@);
        list.push(installed[i].clone());
        assert(texts(list@) =~= before.push(installed@[i as int]@));
        i = i + 1;
    }
    let ghost base = texts(list@);
    list.push(concat(exe_name, "64"));
    list.push(String::from_str(exe_name));
    list.push(concat(exe_name, "64.exe"));
    list.push(concat(exe_name, ".exe"));
    list.push(concat(exe_name, ".cmd"));
    proof {
        assert(texts(installed@).subrange(0, installed@.len() as int) =~= texts(installed@));
        assert(texts(list@) =~= base + jetbrains_commands(exe_name@));
    }
    list
}

/// IntelliJ IDEA's candidates (command `idea`).
pub fn collect_idea_candidates(installed: &Vec<String>) -> (r: Vec<String>)
    ensures
        texts(r@) == texts(installed@) + jetbrains_commands("idea"@),
{
    collect_jetbrains_candidates(installed, "idea")
}

/// WebStorm's candidates (command `webstorm`).
pub fn collect_webstorm_candidates(installed: &Vec<String>) -> (r: Vec<String>)
    ensures
        texts(r@) == texts(installed@) + jetbrains_commands("webstorm"@),
{
    collect_jetbrains_candidates(installed, "webstorm")
}

/// PyCharm's candidates (command `pycharm`).
pub fn collect_pycharm_candidates(installed: &Vec<String>) -> (r: Vec<String>)
    ensures
        texts(r@) == texts(installed@) + jetbrains_commands("pycharm"@),
{
    collect_jetbrains_candidates(installed, "pycharm")
}

} // verus!
