use dev_toolbox::editor_json::parse_editor_json;
use dev_toolbox::jetbrains::{jetbrains_entry_keys, jetbrains_entry_paths, parse_jetbrains_xml};
use dev_toolbox::json::Json;
use dev_toolbox::order::sort_recent_projects;
use dev_toolbox::project::{infer_label, push_item, EditorSource, ProjectKind, RecentProjectItem};
use dev_toolbox::scan::{collect_recent_projects, editor_storage_candidates, first_existing, resolve_storage, ScanError, SourceDocument, SourceScan};
use dev_toolbox::locate::{find_idea_recent_projects_xml, find_pycharm_recent_projects_xml, recent_projects_xml_path};
use dev_toolbox::uri::{decode_file_uri, decode_file_uri_with};

fn s(t: &str) -> Json {
    Json::Str(t.to_string())
}

fn obj(members: Vec<(&str, Json)>) -> Json {
    Json::Object(members.into_iter().map(|(k, v)| (k.to_string(), v)).collect())
}

fn arr(items: Vec<Json>) -> Json {
    Json::Array(items)
}

fn item(label: &str, path: &str, mtime: Option<u64>, source: EditorSource) -> RecentProjectItem {
    RecentProjectItem { label: label.to_string(), path: path.to_string(), kind: ProjectKind::Folder, mtime, source }
}

#[test]
fn vscode_recent_folder_yields_one_item() {
    let doc = obj(vec![("workspaces3", obj(vec![("recentWorkspaces", arr(vec![obj(vec![("folderUri", s("file:///C:/proj"))])]))]))]);
    let mut items = Vec::new();
    parse_editor_json(&doc, EditorSource::Vscode, '\\', &mut items);
    assert_eq!(items.len(), 1);
    assert_eq!(items[0].path, "C:\\proj");
    assert_eq!(items[0].kind, ProjectKind::Folder);
    assert_eq!(items[0].source, EditorSource::Vscode);
    assert_eq!(items[0].label, "proj");
    assert_eq!(items[0].mtime, None);
}

#[test]
fn duplicate_entries_across_sections_collapse_keeping_first_label() {
    let doc = obj(vec![
        ("workspaces3", obj(vec![("recentWorkspaces", arr(vec![obj(vec![("folderUri", s("file:///C:/proj")), ("label", s("First"))])]))])),
        ("backupWorkspaces", obj(vec![("folders", arr(vec![obj(vec![("folderUri", s("file:///C:/proj"))])]))])),
        ("recentRoots", arr(vec![s("file:///C:/proj"), s("file:///C:/other")])),
    ]);
    let mut items = Vec::new();
    parse_editor_json(&doc, EditorSource::Vscode, '\\', &mut items);
    assert_eq!(items.len(), 2);
    assert_eq!(items[0].path, "C:\\proj");
    assert_eq!(items[0].label, "First");
    assert_eq!(items[1].path, "C:\\other");
}

#[test]
fn same_path_under_two_sources_gives_two_items() {
    let doc = obj(vec![("recentRoots", arr(vec![s("file:///C:/proj")]))]);
    let mut items = Vec::new();
    parse_editor_json(&doc, EditorSource::Vscode, '\\', &mut items);
    parse_editor_json(&doc, EditorSource::Trae, '\\', &mut items);
    assert_eq!(items.len(), 2);
    assert_eq!(items[0].source, EditorSource::Vscode);
    assert_eq!(items[1].source, EditorSource::Trae);
    assert_eq!(items[0].path, items[1].path);
}

#[test]
fn sort_puts_newest_first_and_unknown_last() {
    let mut items = vec![
        item("a", "/first", Some(100), EditorSource::Vscode),
        item("b", "/second", None, EditorSource::Vscode),
        item("c", "/third", Some(300), EditorSource::Vscode),
    ];
    sort_recent_projects(&mut items);
    let times: Vec<Option<u64>> = items.iter().map(|i| i.mtime).collect();
    assert_eq!(times, vec![Some(300), Some(100), None]);
}

#[test]
fn sort_breaks_ties_by_source_then_label_and_keeps_equal_items_in_order() {
    let mut items = vec![
        item("zeta", "/first", Some(5), EditorSource::Vscode),
        item("beta", "/second", Some(5), EditorSource::Idea),
        item("alpha", "/third", Some(5), EditorSource::Vscode),
        item("alpha", "/fourth", Some(5), EditorSource::Vscode),
    ];
    sort_recent_projects(&mut items);
    let paths: Vec<&str> = items.iter().map(|i| i.path.as_str()).collect();
    assert_eq!(paths, vec!["/second", "/third", "/fourth", "/first"]);
}

#[test]
fn sort_of_empty_list_is_empty() {
    let mut items: Vec<RecentProjectItem> = Vec::new();
    sort_recent_projects(&mut items);
    assert!(items.is_empty());
}

#[test]
fn jetbrains_missing_path_yields_no_item() {
    let xml = "<application><component name=\"RecentProjectsManager\"><option name=\"additionalInfo\"><map><entry key=\"C:/missing/path\"><value/></entry></map></option></component></application>";
    let mut items = Vec::new();
    parse_jetbrains_xml(xml, EditorSource::Idea, '\\', &Vec::new(), &mut items);
    assert!(items.is_empty());
}

#[test]
fn jetbrains_present_paths_become_folders() {
    let xml = "<option name=\"additionalInfo\">\n<map>\n<entry key=\"C:/code/one\">\n</entry>\n<entry key=\"C:/code/two\"></entry>\n</map></option><map><entry key=\"C:/outside\"></entry></map>";
    assert_eq!(jetbrains_entry_keys(xml), vec!["C:/code/one".to_string(), "C:/code/two".to_string()]);
    assert_eq!(jetbrains_entry_paths(xml, '\\'), vec!["C:\\code\\one".to_string(), "C:\\code\\two".to_string()]);
    let present = vec!["C:\\code\\two".to_string()];
    let mut items = Vec::new();
    parse_jetbrains_xml(xml, EditorSource::Webstorm, '\\', &present, &mut items);
    assert_eq!(items.len(), 1);
    assert_eq!(items[0].path, "C:\\code\\two");
    assert_eq!(items[0].label, "two");
    assert_eq!(items[0].kind, ProjectKind::Folder);
    assert_eq!(items[0].source, EditorSource::Webstorm);
}

#[test]
fn jetbrains_without_structure_yields_nothing() {
    assert!(jetbrains_entry_keys("<map><entry key=\"C:/x\"></entry></map>").is_empty());
    assert!(jetbrains_entry_keys("<option name=\"additionalInfo\"><map><entry key=\"C:/x\"></entry>").is_empty());
    assert!(jetbrains_entry_keys("").is_empty());
    assert_eq!(jetbrains_entry_keys("<option name=\"additionalInfo\"><map><entry key=\"C:/x</map>"), Vec::<String>::new());
}

#[test]
fn missing_override_fails_the_scan() {
    let doc = obj(vec![("recentRoots", arr(vec![s("file:///C:/proj")]))]);
    let scans = vec![
        SourceScan { source: EditorSource::Vscode, override_path: None, override_exists: false, document: SourceDocument::Editor(doc) },
        SourceScan { source: EditorSource::Trae, override_path: Some("D:/nowhere/storage.json".to_string()), override_exists: false, document: SourceDocument::Unavailable },
    ];
    match collect_recent_projects(&scans, '\\') {
        Err(e) => {
            let ScanError::ConfigNotFound { source, path } = &e;
            assert_eq!(*source, EditorSource::Trae);
            assert_eq!(path, "D:/nowhere/storage.json");
            assert_eq!(e.message(), "指定的 Trae storage.json 不存在: D:/nowhere/storage.json");
        }
        Ok(_) => panic!("the scan should fail"),
    }
}

#[test]
fn scan_merges_sources_in_order() {
    let doc = obj(vec![("recentRoots", arr(vec![s("file:///C:/proj")]))]);
    let xml = "<option name=\"additionalInfo\"><map><entry key=\"C:/proj\"></entry></map></option>".to_string();
    let scans = vec![
        SourceScan { source: EditorSource::Vscode, override_path: Some("x".to_string()), override_exists: true, document: SourceDocument::Editor(doc) },
        SourceScan { source: EditorSource::Qoder, override_path: None, override_exists: false, document: SourceDocument::Unavailable },
        SourceScan { source: EditorSource::Idea, override_path: None, override_exists: false, document: SourceDocument::JetBrains { content: xml, present: vec!["C:\\proj".to_string()] } },
    ];
    let items = collect_recent_projects(&scans, '\\').unwrap();
    assert_eq!(items.len(), 2);
    assert_eq!(items[0].source, EditorSource::Vscode);
    assert_eq!(items[1].source, EditorSource::Idea);
}

#[test]
fn decode_file_uri_strips_drive_slash() {
    let sep = std::path::MAIN_SEPARATOR;
    assert_eq!(decode_file_uri("file:///c:/Users/x"), Some(format!("c:{}Users{}x", sep, sep)));
    assert_eq!(decode_file_uri_with("file:///c:/Users/x", '\\'), Some("c:\\Users\\x".to_string()));
}

#[test]
fn decode_file_uri_rejects_other_schemes() {
    assert_eq!(decode_file_uri("https://example.com"), None);
    assert_eq!(decode_file_uri_with("vscode-remote://ssh/x", '/'), None);
    assert_eq!(decode_file_uri_with("file:/", '/'), None);
}

#[test]
fn decode_file_uri_percent_decodes_and_ignores_scheme_case() {
    assert_eq!(decode_file_uri_with("file:///C:/My%20Projects/a%2Bb", '\\'), Some("C:\\My Projects\\a+b".to_string()));
    assert_eq!(decode_file_uri_with("FILE:///home/me/proj", '/'), Some("/home/me/proj".to_string()));
    assert_eq!(decode_file_uri_with("file:///C:/bad%FF", '\\'), None);
}

#[test]
fn all_shapes_contribute() {
    let doc = obj(vec![
        ("workspaces3", obj(vec![("recent", arr(vec![obj(vec![("workspace", obj(vec![("configPath", s("file:///C:/w/a.code-workspace"))]))])]))])),
        ("profileAssociations", obj(vec![("workspaces", obj(vec![("file:///C:/pa", s("profile-a")), ("vscode-remote://x", s("profile-b"))]))])),
        ("windowsState", obj(vec![
            ("lastActiveWindow", obj(vec![("folder", s("file:///C:/last"))])),
            ("openedWindows", arr(vec![obj(vec![("folder", s("file:///C:/open")), ("workspace", obj(vec![("configPath", s("file:///C:/w/b.code-workspace"))]))])])),
        ])),
        ("openedPathsList", arr(vec![obj(vec![("folderUri", s("file:///C:/opl")), ("label", s("Listed"))])])),
        ("recentRoots", arr(vec![s("file:///C:/root"), Json::Null])),
    ]);
    let mut items = Vec::new();
    parse_editor_json(&doc, EditorSource::Qoder, '\\', &mut items);
    let got: Vec<(&str, ProjectKind, &str)> = items.iter().map(|i| (i.path.as_str(), i.kind, i.label.as_str())).collect();
    assert_eq!(got, vec![
        ("C:\\w\\a.code-workspace", ProjectKind::Workspace, "a.code-workspace"),
        ("C:\\pa", ProjectKind::Folder, "pa"),
        ("C:\\last", ProjectKind::Folder, "last"),
        ("C:\\open", ProjectKind::Folder, "open"),
        ("C:\\w\\b.code-workspace", ProjectKind::Workspace, "b.code-workspace"),
        ("C:\\opl", ProjectKind::Folder, "Listed"),
        ("C:\\root", ProjectKind::Folder, "root"),
    ]);
}

#[test]
fn recent_workspaces_take_precedence_over_recent() {
    let doc = obj(vec![("workspaces3", obj(vec![
        ("recentWorkspaces", arr(vec![s("not an entry")])),
        ("recent", arr(vec![obj(vec![("folderUri", s("file:///C:/ignored"))])])),
    ]))]);
    let mut items = Vec::new();
    parse_editor_json(&doc, EditorSource::Vscode, '\\', &mut items);
    assert!(items.is_empty());
}

#[test]
fn non_object_document_yields_nothing() {
    let mut items = Vec::new();
    parse_editor_json(&arr(vec![]), EditorSource::Vscode, '\\', &mut items);
    parse_editor_json(&Json::Number("3".to_string()), EditorSource::Vscode, '\\', &mut items);
    assert!(items.is_empty());
}

#[test]
fn infer_label_takes_last_segment() {
    assert_eq!(infer_label("C:\\code\\proj", '\\'), "proj");
    assert_eq!(infer_label("C:\\code\\proj\\\\", '\\'), "proj");
    assert_eq!(infer_label("\\", '\\'), "\\");
    assert_eq!(infer_label("", '/'), "");
    assert_eq!(infer_label("/home/me/p", '/'), "p");
    assert_eq!(infer_label("/home/me/p/.", '/'), "p");
    assert_eq!(infer_label("/home/me/p/./", '/'), "p");
    assert_eq!(infer_label("/home/me/..", '/'), "/home/me/..");
    assert_eq!(infer_label(".", '/'), ".");
    assert_eq!(infer_label("/home/me/.hidden", '/'), ".hidden");
}

#[test]
fn push_item_keeps_first_of_path_and_source() {
    let mut items = Vec::new();
    push_item(&mut items, Some("One".to_string()), "/p".to_string(), ProjectKind::Folder, EditorSource::Idea, '/');
    push_item(&mut items, Some("Two".to_string()), "/p".to_string(), ProjectKind::Workspace, EditorSource::Idea, '/');
    push_item(&mut items, None, "/p".to_string(), ProjectKind::Folder, EditorSource::Pycharm, '/');
    assert_eq!(items.len(), 2);
    assert_eq!(items[0].label, "One");
    assert_eq!(items[1].label, "p");
}

#[test]
fn storage_resolution() {
    assert!(matches!(resolve_storage(EditorSource::Vscode, Some("a".to_string()), true, None), Ok(Some(ref p)) if p == "a"));
    assert!(matches!(resolve_storage(EditorSource::Trae, Some("b".to_string()), false, Some("c".to_string())), Err(ScanError::ConfigNotFound { .. })));
    assert!(matches!(resolve_storage(EditorSource::Qoder, None, false, Some("c".to_string())), Ok(Some(ref p)) if p == "c"));
    assert!(matches!(resolve_storage(EditorSource::Qoder, None, false, None), Ok(None)));
}

#[test]
fn storage_candidates_of_each_family() {
    assert_eq!(editor_storage_candidates(EditorSource::Vscode, "C:\\Users\\me\\AppData\\Roaming", '\\'), vec![
        "C:\\Users\\me\\AppData\\Roaming\\Code\\User\\globalStorage\\storage.json".to_string(),
        "C:\\Users\\me\\AppData\\Roaming\\Code\\User\\storage.json".to_string(),
    ]);
    assert_eq!(editor_storage_candidates(EditorSource::Trae, "/home/me/.config/", '/')[1], "/home/me/.config/Trae/User/storage.json");
    assert!(editor_storage_candidates(EditorSource::Idea, "/x", '/').is_empty());
    let cands = vec![("a".to_string(), false), ("b".to_string(), true), ("c".to_string(), true)];
    assert_eq!(first_existing(&cands), Some("b".to_string()));
    assert_eq!(first_existing(&vec![("a".to_string(), false)]), None);
}

#[test]
fn jetbrains_config_lookup_picks_first_match() {
    let dirs = vec![
        ("WebStorm2024.1".to_string(), true),
        ("IntelliJIdea2023.3".to_string(), false),
        ("IntelliJIdea2024.1".to_string(), true),
        ("IntelliJIdea2024.2".to_string(), true),
    ];
    assert_eq!(find_idea_recent_projects_xml("C:\\JetBrains", &dirs, '\\'), Some("C:\\JetBrains\\IntelliJIdea2024.1\\options\\recentProjects.xml".to_string()));
    assert_eq!(find_pycharm_recent_projects_xml("C:\\JetBrains", &dirs, '\\'), None);
    assert_eq!(recent_projects_xml_path("/cfg/JetBrains", "PyCharm2024.1", '/'), "/cfg/JetBrains/PyCharm2024.1/options/recentProjects.xml");
}

#[test]
fn scheme_case_is_ignored_in_every_shape() {
    let doc = obj(vec![
        ("profileAssociations", obj(vec![("workspaces", obj(vec![("FILE:///C:/upper", s("profile-a"))]))])),
        ("windowsState", obj(vec![
            ("lastActiveWindow", obj(vec![("folder", s("File:///C:/last"))])),
            ("openedWindows", arr(vec![obj(vec![("folder", s("FILE:///C:/open"))])])),
        ])),
    ]);
    let mut items = Vec::new();
    parse_editor_json(&doc, EditorSource::Vscode, '\\', &mut items);
    let paths: Vec<&str> = items.iter().map(|i| i.path.as_str()).collect();
    assert_eq!(paths, vec!["C:\\upper", "C:\\last", "C:\\open"]);
}

#[test]
fn scan_error_messages_name_each_storage_file() {
    let missing = |source| SourceScan { source, override_path: Some("X".to_string()), override_exists: false, document: SourceDocument::Unavailable };
    let expect = [
        (EditorSource::Vscode, "指定的 storage.json 不存在: X"),
        (EditorSource::Qoder, "指定的 Qoder storage.json 不存在: X"),
        (EditorSource::Idea, "指定的 IDEA recentProjects.xml 不存在: X"),
        (EditorSource::Webstorm, "指定的 WebStorm recentProjects.xml 不存在: X"),
        (EditorSource::Pycharm, "指定的 PyCharm recentProjects.xml 不存在: X"),
    ];
    for (source, text) in expect {
        match collect_recent_projects(&vec![missing(source)], '\\') {
            Err(e) => assert_eq!(e.message(), text),
            Ok(_) => panic!("the scan should fail"),
        }
    }
}
