use dev_toolbox::launch::LaunchPlan;
use dev_toolbox::launcher::{
    candidates_in_dir, collect_code_candidates, collect_idea_candidates, collect_jetbrains_candidates,
    collect_pycharm_candidates, collect_qoder_candidates, collect_trae_candidates, collect_webstorm_candidates,
    jetbrains_binaries, jetbrains_install_roots, override_candidates,
};
use dev_toolbox::project::EditorSource;

fn strings(v: &[&str]) -> Vec<String> {
    v.iter().map(|s| s.to_string()).collect()
}

#[test]
fn third_candidate_starting_is_success() {
    let mut plan = LaunchPlan::new(EditorSource::Vscode, strings(&["a", "b", "c"]));
    assert_eq!(plan.next_candidate(), Some("a".to_string()));
    assert_eq!(plan.spawn_outcome(Err("not found".to_string())), None);
    assert_eq!(plan.next_candidate(), Some("b".to_string()));
    assert_eq!(plan.spawn_outcome(Err("not found".to_string())), None);
    assert_eq!(plan.next_candidate(), Some("c".to_string()));
    assert_eq!(plan.spawn_outcome(Ok(())), Some(Ok(())));
}

#[test]
fn all_candidates_failing_names_each() {
    let mut plan = LaunchPlan::new(EditorSource::Trae, strings(&["trae", "trae.exe", "C:\\Trae\\Trae.exe"]));
    assert_eq!(plan.spawn_outcome(Err("e1".to_string())), None);
    assert_eq!(plan.spawn_outcome(Err("e2".to_string())), None);
    let result = plan.spawn_outcome(Err("access denied".to_string()));
    let message = match result {
        Some(Err(m)) => m,
        other => panic!("unexpected {:?}", other),
    };
    assert!(message.contains("trae"));
    assert!(message.contains("trae.exe"));
    assert!(message.contains("C:\\Trae\\Trae.exe"));
    assert_eq!(
        message,
        "启动 Trae 失败: 未找到 trae 可执行文件。尝试过: trae, trae.exe, C:\\Trae\\Trae.exe; 最后错误: C:\\Trae\\Trae.exe -> access denied"
    );
    assert_eq!(plan.next_candidate(), None);
}

#[test]
fn launch_without_candidates_fails_at_once() {
    let plan = LaunchPlan::new(EditorSource::Idea, Vec::new());
    assert_eq!(plan.next_candidate(), None);
    assert_eq!(plan.failure_message(), "启动 IntelliJ IDEA 失败: 未找到 idea 可执行文件。尝试过: ");
}

#[test]
fn override_directory_and_file() {
    assert_eq!(candidates_in_dir(EditorSource::Vscode, "D:\\Apps\\Code", '\\'), strings(&["D:\\Apps\\Code\\Code.exe", "D:\\Apps\\Code\\code.exe"]));
    assert_eq!(override_candidates(EditorSource::Pycharm, "D:\\pc\\".to_string(), true, '\\'), strings(&["D:\\pc\\pycharm64.exe", "D:\\pc\\pycharm.exe", "D:\\pc\\pycharm.cmd"]));
    assert_eq!(override_candidates(EditorSource::Qoder, "D:\\q.exe".to_string(), false, '\\'), strings(&["D:\\q.exe"]));
}

#[test]
fn default_code_candidates() {
    let lad = Some("C:\\Users\\me\\AppData\\Local".to_string());
    let pf = Some("C:\\Program Files".to_string());
    let r = collect_code_candidates(&lad, &pf, &pf, '\\');
    assert_eq!(r, strings(&[
        "code",
        "code.cmd",
        "code.exe",
        "C:\\Users\\me\\AppData\\Local\\Programs\\Microsoft VS Code\\Code.exe",
        "C:\\Program Files\\Microsoft VS Code\\Code.exe",
    ]));
    assert_eq!(collect_code_candidates(&None, &None, &None, '\\'), strings(&["code", "code.cmd", "code.exe"]));
}

#[test]
fn default_trae_and_qoder_candidates() {
    let pf86 = Some("C:\\Program Files (x86)".to_string());
    assert_eq!(collect_trae_candidates(&None, &None, &pf86, '\\'), strings(&["trae", "trae.exe", "trae.cmd", "C:\\Program Files (x86)\\Trae\\Trae.exe"]));
    assert_eq!(collect_qoder_candidates(&Some("L".to_string()), &None, &None, '\\'), strings(&["qoder", "qoder.exe", "qoder.cmd", "L\\Programs\\Qoder\\Qoder.exe"]));
}

#[test]
fn jetbrains_candidates() {
    let installed = strings(&["C:/Program Files/JetBrains/IntelliJ IDEA/2024.1/bin/idea64.exe"]);
    assert_eq!(collect_idea_candidates(&installed), strings(&[
        "C:/Program Files/JetBrains/IntelliJ IDEA/2024.1/bin/idea64.exe",
        "idea64",
        "idea",
        "idea64.exe",
        "idea.exe",
        "idea.cmd",
    ]));
    assert_eq!(collect_webstorm_candidates(&Vec::new())[0], "webstorm64");
    assert_eq!(collect_pycharm_candidates(&Vec::new()).len(), 5);
    assert_eq!(collect_jetbrains_candidates(&Vec::new(), "x")[4], "x.cmd");
}

#[test]
fn jetbrains_install_locations() {
    let roots = jetbrains_install_roots("PyCharm");
    assert_eq!(roots, strings(&[
        "C:/Program Files/JetBrains/PyCharm Community Edition",
        "C:/Program Files/JetBrains/PyCharm Ultimate",
        "C:/Program Files/JetBrains/PyCharm",
        "C:/Program Files (x86)/JetBrains/PyCharm Community Edition",
        "C:/Program Files (x86)/JetBrains/PyCharm Ultimate",
        "C:/Program Files (x86)/JetBrains/PyCharm",
    ]));
    assert_eq!(jetbrains_binaries("C:/JB/2024.1", "webstorm", '\\'), strings(&["C:/JB/2024.1\\bin\\webstorm64.exe", "C:/JB/2024.1\\bin\\webstorm.exe"]));
}
