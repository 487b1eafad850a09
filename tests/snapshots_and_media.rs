use dev_toolbox::env::{
    backup_file_name, backup_file_name_at, check_admin_privileges, file_time_text, config_file_info, extract_timestamp_from_filename, has_json_extension,
    import_failure_line, import_summary, read_export, sort_config_files, sort_env_vars, ConfigFileInfo, EnvVar,
};
use dev_toolbox::json::Json;
use dev_toolbox::media::{bgra_to_rgba, file_extension, icon_cache_key, icon_data_uri, image_data_uri, image_mime_type, IconCache};
use dev_toolbox::number::decimal;
use dev_toolbox::search::{everything_search_url, SearchQuery};
use dev_toolbox::tray::{commit_type_item, tray_item_text, tray_menu_texts, CommitType, ShortcutInfo};

fn s(t: &str) -> Json {
    Json::Str(t.to_string())
}

fn obj(members: Vec<(&str, Json)>) -> Json {
    Json::Object(members.into_iter().map(|(k, v)| (k.to_string(), v)).collect())
}

fn var(name: &str, value: &str) -> Json {
    obj(vec![("name", s(name)), ("value", s(value))])
}

#[test]
fn admin_check_reports_write_access() {
    assert_eq!(check_admin_privileges(true), Ok(true));
    assert_eq!(check_admin_privileges(false), Ok(false));
}

#[test]
fn snapshot_in_current_layout() {
    let doc = obj(vec![
        ("export_info", obj(vec![("export_time", s("2024-05-01 10:00:00")), ("version", s("1.0"))])),
        ("system_vars", Json::Array(vec![var("PATH", "C:\\bin")])),
        ("user_vars", Json::Array(vec![var("A", "1"), var("B", "2")])),
    ]);
    let e = read_export(&doc, "unknown").unwrap();
    assert_eq!(e.export_info.export_time, "2024-05-01 10:00:00");
    assert_eq!(e.system_vars.len(), 1);
    assert_eq!(e.system_vars[0].value, "C:\\bin");
    assert_eq!(e.user_vars[1].name, "B");
}

#[test]
fn snapshot_in_older_layout_with_defaults() {
    let doc = obj(vec![("system", Json::Array(vec![])), ("user", Json::Array(vec![var("X", "y")]))]);
    let e = read_export(&doc, "fallback").unwrap();
    assert_eq!(e.export_info.export_time, "fallback");
    assert_eq!(e.export_info.version, "1.0");
    assert_eq!(e.user_vars[0].value, "y");
    let with_meta = obj(vec![("system", Json::Array(vec![])), ("user", Json::Array(vec![])), ("exportTime", s("t")), ("appVersion", s("2.1"))]);
    let e = read_export(&with_meta, "fallback").unwrap();
    assert_eq!(e.export_info.export_time, "t");
    assert_eq!(e.export_info.version, "2.1");
}

#[test]
fn snapshot_in_no_layout() {
    assert!(read_export(&obj(vec![("system", Json::Array(vec![]))]), "x").is_none());
    let bad_var = obj(vec![("system", Json::Array(vec![obj(vec![("name", s("A"))])])), ("user", Json::Array(vec![]))]);
    assert!(read_export(&bad_var, "x").is_none());
    assert!(read_export(&Json::Null, "x").is_none());
}

#[test]
fn timestamp_from_backup_file_name() {
    assert_eq!(extract_timestamp_from_filename("环境变量备份_2024-01-02T03-04-05.json"), Some("2024-01-02 03:04:05".to_string()));
    assert_eq!(extract_timestamp_from_filename("环境变量备份_20240102_030405.json"), None);
    assert_eq!(extract_timestamp_from_filename("backup_2024-01-02T03-04-05.json"), None);
    assert_eq!(extract_timestamp_from_filename("环境变量备份_2024-01-02T03-04-05.txt"), None);
}

#[test]
fn config_file_listing_entry() {
    let doc = obj(vec![("system", Json::Array(vec![var("A", "1")])), ("user", Json::Array(vec![]))]);
    let info = config_file_info("D:\\b\\环境变量备份_2024-01-02T03-04-05.json", "环境变量备份_2024-01-02T03-04-05.json", &doc, 42, Some(0), None).unwrap();
    assert_eq!(info.export_time, "2024-01-02 03:04:05");
    assert_eq!(info.system_vars_count, 1);
    assert_eq!(info.user_vars_count, 0);
    assert_eq!(info.file_size, 42);
    assert_eq!(info.created_time, "1970-01-01 00:00:00");
    assert_eq!(info.modified_time, "未知");
    let other = config_file_info("p", "other.json", &doc, 1, Some(1_700_000_000), Some(-1)).unwrap();
    assert_eq!(other.created_time, "2023-11-14 22:13:20");
    assert_eq!(other.modified_time, "1969-12-31 23:59:59");
    assert_eq!(other.export_time, "未知");
    assert!(config_file_info("p", "x.json", &Json::Null, 1, None, None).is_none());
}

#[test]
fn backup_names_and_extensions() {
    assert_eq!(backup_file_name("20240102_030405"), "环境变量备份_20240102_030405.json");
    assert_eq!(backup_file_name_at(1_704_164_645), Some("环境变量备份_20240102_030405.json".to_string()));
    assert_eq!(file_time_text(Some(i64::MAX)), "未知");
    assert!(has_json_extension("a.json"));
    assert!(!has_json_extension(".json"));
    assert!(!has_json_extension("a.jsonx"));
    assert!(!has_json_extension("json"));
}

#[test]
fn import_report() {
    assert_eq!(import_summary(3, &Vec::new()), "导入完成！成功导入 3 个变量");
    let two = vec![import_failure_line(true, "A", "denied"), import_failure_line(false, "B", "bad")];
    assert_eq!(import_summary(0, &two), "导入完成！成功导入 0 个变量，失败 2 个：\n系统变量 A: denied\n用户变量 B: bad");
    let six: Vec<String> = (0..6).map(|i| format!("f{}", i)).collect();
    assert_eq!(import_summary(12, &six), "导入完成！成功导入 12 个变量，失败 6 个，请检查文件权限或变量格式");
}

#[test]
fn decimal_text() {
    assert_eq!(decimal(0), "0");
    assert_eq!(decimal(7), "7");
    assert_eq!(decimal(1234567890), "1234567890");
    assert_eq!(decimal(u64::MAX), u64::MAX.to_string());
}

#[test]
fn icon_keys() {
    assert_eq!(icon_cache_key("C:\\pics\\Photo.PNG"), ".png");
    assert_eq!(icon_cache_key("C:\\pics\\ÄRGER.TXT"), ".txt");
    assert_eq!(icon_cache_key("C:\\folder"), "C:\\folder");
    assert_eq!(icon_cache_key("C:\\a.b\\.hidden"), "C:\\a.b\\.hidden");
    assert_eq!(icon_cache_key("C:\\x\\file."), "C:\\x\\file.");
    assert_eq!(file_extension("/a/b.tar.gz"), Some("gz".to_string()));
    assert_eq!(file_extension("/a.d/b"), None);
}

#[test]
fn icon_cache_is_bounded() {
    let mut cache = IconCache::new();
    cache.insert("a".to_string(), "1".to_string());
    cache.insert("a".to_string(), "2".to_string());
    assert_eq!(cache.get("a"), Some("2".to_string()));
    assert_eq!(cache.entries.len(), 1);
    for i in 0..100 {
        cache.insert(format!("k{}", i), format!("v{}", i));
    }
    assert_eq!(cache.entries.len(), 50);
    assert_eq!(cache.get("a"), None);
    assert_eq!(cache.get("k99"), Some("v99".to_string()));
    assert_eq!(cache.get("k50"), Some("v50".to_string()));
    assert_eq!(cache.get("k49"), None);
}

#[test]
fn image_types_and_data_uri() {
    assert_eq!(image_mime_type("a/b.jpeg"), "image/jpeg");
    assert_eq!(image_mime_type("a/b.svg"), "image/svg+xml");
    assert_eq!(image_mime_type("a/b.ico"), "image/x-icon");
    assert_eq!(image_mime_type("a/b.JPG"), "image/png");
    assert_eq!(image_mime_type("a/b"), "image/png");
    assert_eq!(image_data_uri("x.gif", &b"hello".to_vec()), "data:image/gif;base64,aGVsbG8=");
}

#[test]
fn search_url_defaults_and_options() {
    let q = SearchQuery {
        search: "a b".to_string(),
        offset: None, count: None, sort: None, ascending: None, case: None, wholeword: None, path: None,
        regex: None, path_column: None, size_column: None, date_modified_column: None, host: None, port: None,
    };
    assert_eq!(everything_search_url(&q), "http://localhost:8080/?search=a%20b&json=1&offset=0&count=20&sort=name&ascending=1&case=0&wholeword=0&path=0&regex=0&path_column=1&size_column=1&date_modified_column=1&date_created_column=1&attributes_column=1");
    let q = SearchQuery {
        search: "x".to_string(),
        offset: Some(40), count: Some(10), sort: Some("size".to_string()), ascending: Some(false), case: Some(true),
        wholeword: Some(true), path: Some(true), regex: Some(true), path_column: Some(0), size_column: Some(0),
        date_modified_column: Some(0), host: Some("10.0.0.2".to_string()), port: Some(80),
    };
    assert_eq!(everything_search_url(&q), "http://10.0.0.2:80/?search=x&json=1&offset=40&count=10&sort=size&ascending=0&case=1&wholeword=1&path=1&regex=1&path_column=0&size_column=0&date_modified_column=0&date_created_column=1&attributes_column=1");
}

#[test]
fn tray_texts() {
    assert_eq!(tray_item_text("文件搜索", ""), "文件搜索");
    assert_eq!(tray_item_text("文件搜索", "Ctrl+K"), "文件搜索\tCtrl+K");
    let t = tray_menu_texts(&ShortcutInfo {
        env_var_manager: "Alt+E".to_string(),
        file_search: String::new(),
        projects: "Alt+P".to_string(),
        commit_generator: String::new(),
    });
    assert_eq!(t.env_var_manager, "环境变量管理\tAlt+E");
    assert_eq!(t.file_search, "文件搜索");
    assert_eq!(t.projects, "项目管理\tAlt+P");
    let (id, text) = commit_type_item(&CommitType { value: "feat".to_string(), label: "Feature".to_string(), icon: "✨".to_string() });
    assert_eq!(id, "commit-type-feat");
    assert_eq!(text, "✨ Feature");
}

#[test]
fn variables_sort_by_name_stably() {
    let mut vars = vec![
        EnvVar { name: "Path".to_string(), value: "1".to_string() },
        EnvVar { name: "APPDATA".to_string(), value: "2".to_string() },
        EnvVar { name: "Path".to_string(), value: "3".to_string() },
        EnvVar { name: "TEMP".to_string(), value: "4".to_string() },
    ];
    sort_env_vars(&mut vars);
    let got: Vec<&str> = vars.iter().map(|v| v.value.as_str()).collect();
    assert_eq!(got, vec!["2", "1", "3", "4"]);
}

fn info(time: &str, name: &str) -> ConfigFileInfo {
    ConfigFileInfo {
        file_path: name.to_string(),
        file_name: name.to_string(),
        export_time: time.to_string(),
        version: "1.0".to_string(),
        system_vars_count: 0,
        user_vars_count: 0,
        file_size: 0,
        created_time: String::new(),
        modified_time: String::new(),
    }
}

#[test]
fn snapshot_files_sort_newest_first() {
    let mut files = vec![
        info("2024-01-01 00:00:00", "a"),
        info("2024-03-01 00:00:00", "b"),
        info("2024-01-01 00:00:00", "c"),
        info("2023-12-31 23:59:59", "d"),
    ];
    sort_config_files(&mut files);
    let got: Vec<&str> = files.iter().map(|f| f.file_name.as_str()).collect();
    assert_eq!(got, vec!["b", "a", "c", "d"]);
}

#[test]
fn bgra_pixels_become_rgba() {
    let mut p = vec![1u8, 2, 3, 4, 10, 20, 30, 40];
    bgra_to_rgba(&mut p);
    assert_eq!(p, vec![3, 2, 1, 4, 30, 20, 10, 40]);
    let mut empty: Vec<u8> = Vec::new();
    bgra_to_rgba(&mut empty);
    assert!(empty.is_empty());
}

#[test]
fn icon_pixels_become_png_uri() {
    let uri = icon_data_uri(1, 1, vec![0, 0, 255, 255]).unwrap();
    assert!(uri.starts_with("data:image/png;base64,iVBORw0KGgo"));
    assert_ne!(uri, icon_data_uri(1, 1, vec![255, 0, 0, 255]).unwrap());
}
