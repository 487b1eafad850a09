//! Environment-variable snapshots: the records, reading a snapshot file in
//! its current or its older layout, the names and time stamps of backup
//! files, and the report of an import. Reading and writing the registry is
//! the caller's.

use vstd::prelude::*;
use crate::json::{Json, field, opt_field, opt_text, deref_opt};
use crate::launch::joined;
use crate::number::{decimal, decimal_digits};
use crate::text::{chars_of, string_of, slice_chars, find_chars, find_from, replace_chars, replace_char};

verus! {

/// One environment variable.
#[derive(Debug)]
pub struct EnvVar {
    pub name: String,
    pub value: String,
}

/// The variables of the machine and of the user.
#[derive(Debug)]
pub struct EnvVarsResponse {
    pub system_vars: Vec<EnvVar>,
    pub user_vars: Vec<EnvVar>,
}

/// When a snapshot was taken, and by which format version.
#[derive(Debug)]
pub struct ExportInfo {
    pub export_time: String,
    pub version: String,
}

/// A snapshot of both sets of variables.
#[derive(Debug)]
pub struct EnvVarExport {
    pub export_info: ExportInfo,
    pub system_vars: Vec<EnvVar>,
    pub user_vars: Vec<EnvVar>,
}

/// What a folder listing shows of one snapshot file.
#[derive(Debug)]
pub struct ConfigFileInfo {
    pub file_path: String,
    pub file_name: String,
    pub export_time: String,
    pub version: String,
    pub system_vars_count: usize,
    pub user_vars_count: usize,
    pub file_size: u64,
    pub created_time: String,
    pub modified_time: String,
}

/// Whether the process may write the machine-wide variables: it may exactly
/// when the machine's environment key opened for writing.
pub fn check_admin_privileges(write_access_granted: bool) -> (r: Result<bool, String>)
    ensures
        r == Ok::<bool, String>(write_access_granted),
{
    Ok(write_access_granted)
}

/// A variable's name and value.
pub type VarView = (Seq<char>, Seq<char>);

pub open spec fn vars_view(v: Seq<EnvVar>) -> Seq<VarView> {
    v.map_values(|x: EnvVar| (x.name@, x.value@))
}

/// The abstract value of a snapshot.
pub struct ExportView {
    pub export_time: Seq<char>,
    pub version: Seq<char>,
    pub system: Seq<VarView>,
    pub user: Seq<VarView>,
}

pub open spec fn export_view(e: EnvVarExport) -> ExportView {
    ExportView {
        export_time: e.export_info.export_time@,
        version: e.export_info.version@,
        system: vars_view(e.system_vars@),
        user: vars_view(e.user_vars@),
    }
}

/// A variable written as an object with string members `name` and `value`.
pub open spec fn var_in(j: Json) -> Option<VarView> {
    match (opt_text(field(j, "name"@)), opt_text(field(j, "value"@))) {
        (Some(n), Some(v)) => Some((n, v)),
        _ => None,
    }
}

/// The variables of a list, if every element is one.
pub open spec fn vars_in(es: Seq<Json>) -> Option<Seq<VarView>>
    decreases es.len(),
{
    if es.len() == 0 {
        Some(Seq::empty())
    } else {
        match (vars_in(es.drop_last()), var_in(es.last())) {
            (Some(p), Some(v)) => Some(p.push(v)),
            _ => None,
        }
    }
}

pub open spec fn var_list(j: Option<Json>) -> Option<Seq<VarView>> {
    match j {
        Some(Json::Array(a)) => vars_in(a@),
        _ => None,
    }
}

/// The current layout: `export_info {export_time, version}`, `system_vars`,
/// `user_vars`.
pub open spec fn current_layout(doc: Json) -> Option<ExportView> {
    let info = field(doc, "export_info"@);
    match (
        opt_text(opt_field(info, "export_time"@)),
        opt_text(opt_field(info, "version"@)),
        var_list(field(doc, "system_vars"@)),
        var_list(field(doc, "user_vars"@)),
    ) {
        (Some(t), Some(v), Some(s), Some(u)) => Some(ExportView { export_time: t, version: v, system: s, user: u }),
        _ => None,
    }
}

/// The older layout: `system` and `user` lists, with optional `exportTime`
/// (else `fallback_time`) and `appVersion` (else `1.0`).
pub open spec fn older_layout(doc: Json, fallback_time: Seq<char>) -> Option<ExportView> {
    match (var_list(field(doc, "system"@)), var_list(field(doc, "user"@))) {
        (Some(s), Some(u)) => Some(
            ExportView {
                export_time: match opt_text(field(doc, "exportTime"@)) {
                    Some(t) => t,
                    None => fallback_time,
                },
                version: match opt_text(field(doc, "appVersion"@)) {
                    Some(v) => v,
                    None => "1.0"@,
                },
                system: s,
                user: u,
            },
        ),
        _ => None,
    }
}

/// A snapshot document in the current layout, else in the older one.
pub open spec fn snapshot_of(doc: Json, fallback_time: Seq<char>) -> Option<ExportView> {
    match current_layout(doc) {
        Some(e) => Some(e),
        None => older_layout(doc, fallback_time),
    }
}

fn text_of(j: Option<&Json>) -> (r: Option<String>)
    ensures
        crate::uri::opt_chars(r) == opt_text(deref_opt(j)),
{
    match j {
        Some(v) => match v.as_str() {
            Some(s) => Some(s.clone()),
            None => None,
        },
        None => None,
    }
}

fn read_var(j: &Json) -> (r: Option<EnvVar>)
    ensures
        match r {
            Some(v) => var_in(*j) == Some((v.name@, v.value@)),
            None => var_in(*j) is None,
        },
{
    match (text_of(j.get("name")), text_of(j.get("value"))) {
        (Some(name), Some(value)) => Some(EnvVar { name, value }),
        _ => None,
    }
}

fn read_vars(j: Option<&Json>) -> (r: Option<Vec<EnvVar>>)
    ensures
        match r {
            Some(v) => var_list(deref_opt(j)) == Some(vars_view(v@)),
            None => var_list(deref_opt(j)) is None,
        },
{
    let arr = match j {
        Some(v) => match v.as_array() {
            Some(a) => a,
            None => return None,
        },
        None => return None,
    };
    let mut out: Vec<EnvVar> = Vec::new();
    let mut i: usize = 0;
    assert(arr@.subrange(0, 0) =~= Seq::<Json>::empty());
    assert(vars_view(out@) =~= Seq::<VarView>::empty());
    assert(var_list(deref_opt(j)) == vars_in(arr@));
    while i < arr.len()
        invariant
            i <= arr@.len(),
            var_list(deref_opt(j)) == vars_in(arr@),
            vars_in(arr@.subrange(0, i as int)) == Some(vars_view(out@)),
        decreases arr@.len() - i,
    {
        let ghost next = arr@.subrange(0, i + 1);
        assert(next.drop_last() =~= arr@.subrange(0, i as int));
        match read_var(&arr[i]) {
            Some(v) => {
                let ghost before = vars_view(out@);
                out.push(v);
                assert(vars_view(out@) =~= before.push((v.name@, v.value@)));
            },
            None => {
                assert(vars_in(next) is None);
                proof {
                    lemma_vars_in_prefix(arr@, i as int + 1);
                }
                return None;
            },
        }
        i = i + 1;
    }
    assert(arr@.subrange(0, arr@.len() as int) =~= arr@);
    Some(out)
}

proof fn lemma_vars_in_prefix(es: Seq<Json>, n: int)
    requires
        0 <= n <= es.len(),
        vars_in(es.subrange(0, n)) is None,
    ensures
        vars_in(es) is None,
    decreases es.len() - n,
{
    if n < es.len() {
        assert(es.subrange(0, n + 1).drop_last() =~= es.subrange(0, n));
        lemma_vars_in_prefix(es, n + 1);
    } else {
        assert(es.subrange(0, n) =~= es);
    }
}

/// Reads a snapshot document in its current layout, else in the older one,
/// whose missing time stamp becomes `fallback_time`. `None` when the
/// document is in neither.
pub fn read_export(doc: &Json, fallback_time: &str) -> (r: Option<EnvVarExport>)
    ensures
        match r {
            Some(e) => snapshot_of(*doc, fallback_time@) == Some(export_view(e)),
            None => snapshot_of(*doc, fallback_time@) is None,
        },
{
    let info = doc.get("export_info");
    let current = match (
        text_of(member_of(info, "export_time")),
        text_of(member_of(info, "version")),
        read_vars(doc.get("system_vars")),
        read_vars(doc.get("user_vars")),
    ) {
        (Some(t), Some(v), Some(s), Some(u)) => Some(
            EnvVarExport { export_info: ExportInfo { export_time: t, version: v }, system_vars: s, user_vars: u },
        ),
        _ => None,
    };
    if current.is_some() {
        return current;
    }
    match (read_vars(doc.get("system")), read_vars(doc.get("user"))) {
        (Some(s), Some(u)) => {
            let export_time = match text_of(doc.get("exportTime")) {
                Some(t) => t,
                None => String::from_str(fallback_time),
            };
            let version = match text_of(doc.get("appVersion")) {
                Some(v) => v,
                None => String::from_str("1.0"),
            };
            Some(EnvVarExport { export_info: ExportInfo { export_time, version }, system_vars: s, user_vars: u })
        },
        _ => None,
    }
}

fn member_of<'a>(j: Option<&'a Json>, key: &str) -> (r: Option<&'a Json>)
    ensures
        deref_opt(r) == opt_field(deref_opt(j), key@),
{
    match j {
        Some(v) => v.get(key),
        None => None,
    }
}

/// The stamp of a backup file named `环境变量备份_YYYY-MM-DDTHH-MM-SS.json`,
/// as `YYYY-MM-DD HH:MM:SS`: the 19 ASCII characters between the prefix and
/// the next `.json`, with `T` at index 10.
pub open spec fn filename_stamp(f: Seq<char>) -> Option<Seq<char>> {
    match find_from(f, "环境变量备份_"@, 0) {
        None => None,
        Some(s) => {
            let rest = f.subrange(s + "环境变量备份_"@.len(), f.len() as int);
            match find_from(rest, ".json"@, 0) {
                None => None,
                Some(e) => stamp_text(rest.subrange(0, e)),
            }
        },
    }
}

/// `YYYY-MM-DDTHH-MM-SS` as `YYYY-MM-DD HH:MM:SS`.
pub open spec fn stamp_text(t: Seq<char>) -> Option<Seq<char>> {
    if t.len() == 19 && t[10] == 'T' && (forall|i: int| 0 <= i < 19 ==> (t[i] as u32) < 128) {
        Some(t.subrange(0, 10) + seq![' '] + replace_char(t.subrange(11, 19), '-', ':'))
    } else {
        None
    }
}

/// The time stamp in a backup file's name, if it has one (see
/// `filename_stamp`).
pub fn extract_timestamp_from_filename(filename: &str) -> (r: Option<String>)
    ensures
        crate::uri::opt_chars(r) == filename_stamp(filename@),
{
    let f = chars_of(filename);
    let flen = f.len();
    let prefix = chars_of("环境变量备份_");
    let s = match find_chars(&f, &prefix, 0) {
        Some(s) => s,
        None => return None,
    };
    proof {
        crate::jetbrains::lemma_find_from_bounds(f@, prefix@, 0);
    }
    let rest = slice_chars(&f, s + prefix.len(), f.len());
    let suffix = chars_of(".json");
    let e = match find_chars(&rest, &suffix, 0) {
        Some(e) => e,
        None => return None,
    };
    proof {
        crate::jetbrains::lemma_find_from_bounds(rest@, suffix@, 0);
    }
    let t = slice_chars(&rest, 0, e);
    if t.len() != 19 || t[10] != 'T' {
        return None;
    }
    let mut i: usize = 0;
    assert(filename_stamp(filename@) == stamp_text(t@));
    while i < 19
        invariant
            filename_stamp(filename@) == stamp_text(t@),
            t@[10] == 'T',
            t@.len() == 19,
            i <= 19,
            forall|j: int| 0 <= j < i ==> (t@[j] as u32) < 128,
        decreases 19 - i,
    {
        if (t[i] as u32) >= 128 {
            return None;
        }
        i = i + 1;
    }
    let mut out = slice_chars(&t, 0, 10);
    out.push(' ');
    let time = replace_chars(&slice_chars(&t, 11, 19), '-', ':');
    let mut k: usize = 0;
    let ghost head = out@;
    while k < time.len()
        invariant
            k <= time@.len(),
            out@ == head + time@.subrange(0, k as int),
        decreases time@.len() - k,
    {
        out.push(time[k]);
        assert(time@.subrange(0, k + 1) =~= time@.subrange(0, k as int).push(time@[k as int]));
        k = k + 1;
    }
    assert(time@.subrange(0, time@.len() as int) =~= time@);
    assert(out@ =~= t@.subrange(0, 10) + seq![' '] + replace_char(t@.subrange(11, 19), '-', ':'));
    Some(string_of(&out))
}

/// The UTC calendar time of a Unix time as `YYYY-MM-DD HH:MM:SS`, or
/// `None` past the calendar's range.
pub uninterp spec fn utc_text_of(secs: i64) -> Option<Seq<char>>;

/// Relies on `chrono::DateTime::from_timestamp` and `format` with
/// `%Y-%m-%d %H:%M:%S`: the UTC time of the given second, `None` where it
/// falls outside chrono's range.
#[verifier::external_body]
fn utc_text(secs: i64) -> (r: Option<String>)
    ensures
        crate::uri::opt_chars(r) == utc_text_of(secs),
{
    chrono::DateTime::from_timestamp(secs, 0).map(|t| t.format("%Y-%m-%d %H:%M:%S").to_string())
}

/// The UTC calendar time of a Unix time as `YYYYMMDD_HHMMSS`, or `None`
/// past the calendar's range.
pub uninterp spec fn utc_compact_of(secs: i64) -> Option<Seq<char>>;

/// Relies on `chrono::DateTime::from_timestamp` and `format` with
/// `%Y%m%d_%H%M%S`: the UTC time of the given second, `None` where it falls
/// outside chrono's range.
#[verifier::external_body]
fn utc_compact(secs: i64) -> (r: Option<String>)
    ensures
        crate::uri::opt_chars(r) == utc_compact_of(secs),
{
    chrono::DateTime::from_timestamp(secs, 0).map(|t| t.format("%Y%m%d_%H%M%S").to_string())
}

/// A file time as a listing shows it: the UTC time of the second, or
/// `未知` where the time could not be read or dated.
pub open spec fn file_time_of(secs: Option<i64>) -> Seq<char> {
    match secs {
        Some(s) => match utc_text_of(s) {
            Some(t) => t,
            None => "未知"@,
        },
        None => "未知"@,
    }
}

pub fn file_time_text(secs: Option<i64>) -> (r: String)
    ensures
        r@ == file_time_of(secs),
{
    match secs {
        Some(s) => match utc_text(s) {
            Some(t) => t,
            None => String::from_str("未知"),
        },
        None => String::from_str("未知"),
    }
}

/// The name of the backup file for a snapshot taken at the Unix time
/// `secs`, stamped with its UTC time; `None` past the calendar's range.
pub fn backup_file_name_at(secs: i64) -> (r: Option<String>)
    ensures
        match utc_compact_of(secs) {
            Some(stamp) => r matches Some(n) && n@ == backup_name(stamp),
            None => r is None,
        },
{
    match utc_compact(secs) {
        Some(stamp) => Some(backup_file_name(stamp.as_str())),
        None => None,
    }
}

/// The name of a new backup file, stamped `stamp`.
pub open spec fn backup_name(stamp: Seq<char>) -> Seq<char> {
    "环境变量备份_"@ + stamp + ".json"@
}

/// The file name under which a snapshot taken at `stamp` is saved.
pub fn backup_file_name(stamp: &str) -> (r: String)
    ensures
        r@ == backup_name(stamp@),
{
    let mut n = String::from_str("环境变量备份_");
    n.append(stamp);
    n.append(".json");
    n
}

/// Whether a file name has the extension `json`, as a snapshot file has.
pub open spec fn is_json_name(n: Seq<char>) -> bool {
    n.len() > 5 && n.subrange(n.len() - 5, n.len() as int) == ".json"@
}

pub fn has_json_extension(file_name: &str) -> (r: bool)
    ensures
        r == is_json_name(file_name@),
{
    let n = chars_of(file_name);
    let ext = chars_of(".json");
    if n.len() <= ext.len() {
        proof {
            reveal_strlit(".json");
        }
        return false;
    }
    proof {
        reveal_strlit(".json");
    }
    let start = n.len() - ext.len();
    match find_chars(&n, &ext, start) {
        Some(_) => {
            proof {
                crate::jetbrains::lemma_find_from_bounds(n@, ext@, start as int);
            }
            true
        },
        None => {
            assert(!crate::text::occurs_at(n@, ext@, start as int));
            false
        },
    }
}

/// What a folder listing shows of a snapshot file: its path and name, the
/// snapshot's time (or, for the older layout without one, the stamp in the
/// file name, else `未知`), version and variable counts, the file's size,
/// and its creation and modification times (Unix seconds as the caller read
/// them) in UTC. `None` when the document is no snapshot.
pub fn config_file_info(
    file_path: &str,
    file_name: &str,
    doc: &Json,
    file_size: u64,
    created_secs: Option<i64>,
    modified_secs: Option<i64>,
) -> (r: Option<ConfigFileInfo>)
    ensures
        ({
            let fallback = match filename_stamp(file_name@) {
                Some(t) => t,
                None => "未知"@,
            };
            match r {
                Some(info) => snapshot_of(*doc, fallback) matches Some(e) && {
                    &&& info.file_path@ == file_path@
                    &&& info.file_name@ == file_name@
                    &&& info.export_time@ == e.export_time
                    &&& info.version@ == e.version
                    &&& info.system_vars_count == e.system.len()
                    &&& info.user_vars_count == e.user.len()
                    &&& info.file_size == file_size
                    &&& info.created_time@ == file_time_of(created_secs)
                    &&& info.modified_time@ == file_time_of(modified_secs)
                },
                None => snapshot_of(*doc, fallback) is None,
            }
        }),
{
    let fallback = match extract_timestamp_from_filename(file_name) {
        Some(t) => t,
        None => String::from_str("未知"),
    };
    match read_export(doc, fallback.as_str()) {
        Some(e) => Some(
            ConfigFileInfo {
                file_path: String::from_str(file_path),
                file_name: String::from_str(file_name),
                export_time: e.export_info.export_time,
                version: e.export_info.version,
                system_vars_count: e.system_vars.len(),
                user_vars_count: e.user_vars.len(),
                file_size,
                created_time: file_time_text(created_secs),
                modified_time: file_time_text(modified_secs),
            },
        ),
        None => None,
    }
}

/// One line of an import report: which set, the name, the error.
pub open spec fn failure_line_text(is_system: bool, name: Seq<char>, error: Seq<char>) -> Seq<char> {
    (if is_system {
        "系统变量 "@
    } else {
        "用户变量 "@
    }) + name + ": "@ + error
}

pub fn import_failure_line(is_system: bool, name: &str, error: &str) -> (r: String)
    ensures
        r@ == failure_line_text(is_system, name@, error@),
{
    let mut m = if is_system {
        String::from_str("系统变量 ")
    } else {
        String::from_str("用户变量 ")
    };
    m.append(name);
    m.append(": ");
    m.append(error);
    m
}

/// The report of an import: how many variables were set; how many failed,
/// each failure on a line of its own when there are at most five.
pub open spec fn import_summary_text(imported: nat, failures: Seq<Seq<char>>) -> Seq<char> {
    let head = "导入完成！成功导入 "@ + decimal_digits(imported) + " 个变量"@;
    if failures.len() == 0 {
        head
    } else if failures.len() <= 5 {
        head + "，失败 "@ + decimal_digits(failures.len()) + " 个"@ + "：\n"@ + joined(failures, "\n"@)
    } else {
        head + "，失败 "@ + decimal_digits(failures.len()) + " 个"@ + "，请检查文件权限或变量格式"@
    }
}

pub fn import_summary(imported: u64, failures: &Vec<String>) -> (r: String)
    ensures
        r@ == import_summary_text(imported as nat, crate::paths::texts(failures@)),
{
    let ghost all = crate::paths::texts(failures@);
    let mut m = String::from_str("导入完成！成功导入 ");
    m.append(decimal(imported).as_str());
    m.append(" 个变量");
    let n = failures.len();
    if n == 0 {
        return m;
    }
    m.append("，失败 ");
    m.append(decimal(n as u64).as_str());
    m.append(" 个");
    if n > 5 {
        m.append("，请检查文件权限或变量格式");
        return m;
    }
    m.append("：\n");
    let ghost head = m@;
    let mut i: usize = 0;
    assert(all.subrange(0, 0) =~= Seq::<Seq<char>>::empty());
    while i < n
        invariant
            n == failures@.len(),
            i <= n,
            all == crate::paths::texts(failures@),
            m@ == head + joined(all.subrange(0, i as int), "\n"@),
        decreases n - i,
    {
        let ghost next = all.subrange(0, i + 1);
        assert(next.drop_last() =~= all.subrange(0, i as int));
        assert(next.last() == failures@[i as int]@);
        if i > 0 {
            m.append("\n");
        } else {
            assert(next =~= seq![next.last()]);
        }
        m.append(failures[i].as_str());
        assert(m@ =~= head + joined(next, "\n"@));
        i = i + 1;
    }
    assert(all.subrange(0, n as int) =~= all);
    m
}

} // verus!

verus! {

impl crate::keyed_sort::TextKey for EnvVar {
    open spec fn key(&self) -> Seq<char> {
        self.name@
    }

    fn key_text(&self) -> (r: &String) {
        &self.name
    }
}

impl crate::keyed_sort::TextKey for ConfigFileInfo {
    open spec fn key(&self) -> Seq<char> {
        self.export_time@
    }

    fn key_text(&self) -> (r: &String) {
        &self.export_time
    }
}

/// Sorts variables by name, stably.
pub fn sort_env_vars(vars: &mut Vec<EnvVar>)
    ensures
        crate::keyed_sort::sorted_by_key(final(vars)@, old(vars)@, false),
{
    crate::keyed_sort::sort_by_text_key(vars, false);
}

/// Sorts snapshot files by their time stamp, newest first, stably.
pub fn sort_config_files(files: &mut Vec<ConfigFileInfo>)
    ensures
        crate::keyed_sort::sorted_by_key(final(files)@, old(files)@, true),
{
    crate::keyed_sort::sort_by_text_key(files, true);
}

} // verus!
