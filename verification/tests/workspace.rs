use sol_p4_tools::workspace::{
    data_dir_needs_p4_root, detect_data_dir, find_branch_root, find_data_dir_from, find_p4config_root,
    get_p4_root, get_project_root, info_client_roots, p4_root_needs_info, project_root_needs_p4_root, AncestorProbe,
};
use sol_p4_tools::command::CommandOutput;

fn probe(path: &str, p4config: bool, schema: bool, deploy: bool, direct: bool) -> AncestorProbe {
    AncestorProbe {
        path: path.to_string(),
        has_p4config: p4config,
        has_schema: schema,
        deploy_dir: format!("{path}/Deploy/GeneratedData_Server"),
        deploy_valid: deploy,
        direct_dir: format!("{path}/GeneratedData_Server"),
        direct_valid: direct,
    }
}

#[test]
fn branch_root_prefers_p4config() {
    let ps = vec![probe("/b/x", false, true, false, false), probe("/b", true, false, false, false), probe("/", false, false, false, false)];
    assert_eq!(find_p4config_root(&ps), Some("/b".to_string()));
    assert_eq!(find_branch_root(&ps), Some("/b".to_string()));
    let ps = vec![probe("/b/x", false, false, false, false), probe("/b", false, true, false, false)];
    assert_eq!(find_branch_root(&ps), Some("/b".to_string()));
    assert_eq!(find_branch_root(&vec![]), None);
}

#[test]
fn data_dir_prefers_deploy() {
    let ps = vec![probe("/a/b", false, false, false, false), probe("/a", false, false, true, true)];
    assert_eq!(find_data_dir_from(&ps), Some("/a/Deploy/GeneratedData_Server".to_string()));
    let ps = vec![probe("/a", false, false, false, true)];
    assert_eq!(find_data_dir_from(&ps), Some("/a/GeneratedData_Server".to_string()));
    let exe = vec![probe("/e", false, false, false, false)];
    let cwd = vec![probe("/c", false, false, false, true)];
    assert!(!data_dir_needs_p4_root(&exe, &cwd));
    assert_eq!(detect_data_dir(&exe, &cwd, &None), Some("/c/GeneratedData_Server".to_string()));
    assert!(data_dir_needs_p4_root(&exe, &vec![]));
    assert_eq!(detect_data_dir(&exe, &vec![], &Some(probe("/r", false, false, true, false))), Some("/r/Deploy/GeneratedData_Server".to_string()));
    assert_eq!(detect_data_dir(&exe, &vec![], &None), None);
}

#[test]
fn project_root_order() {
    let ps = vec![probe("/p/Deploy/GeneratedData_Server", false, false, false, false), probe("/p/Deploy", false, false, false, false)];
    assert!(project_root_needs_p4_root(&ps, false));
    assert!(!project_root_needs_p4_root(&ps, true));
    assert_eq!(get_project_root(&ps, &"/p".to_string(), true, Some("/other".to_string())), "/p");
    assert_eq!(get_project_root(&ps, &"/p".to_string(), false, Some("/other".to_string())), "/other");
    assert_eq!(get_project_root(&ps, &"/p".to_string(), false, None), "/p");
    let ps = vec![probe("/q/d", false, true, false, false)];
    assert_eq!(get_project_root(&ps, &"/".to_string(), true, None), "/q/d");
}

#[test]
fn p4_root_order() {
    let exe = vec![probe("/e", false, false, false, false)];
    let cwd = vec![probe("/c", true, false, false, false)];
    assert!(!p4_root_needs_info(&exe, &cwd));
    assert_eq!(get_p4_root(&exe, &cwd, &vec![]), Some("/c".to_string()));
    let roots = vec![("/gone".to_string(), false), ("/w".to_string(), true)];
    assert_eq!(get_p4_root(&exe, &vec![], &roots), Some("/w".to_string()));
    let info = Ok(CommandOutput {
        success: true,
        code: Some(0),
        stdout: b"Client name: a\nClient root:  /w  \nClient root: /x\n".to_vec(),
        stderr: vec![],
        stdout_codepage: None,
    });
    assert_eq!(info_client_roots(&info), vec!["/w", "/x"]);
    assert!(info_client_roots(&Err("e".into())).is_empty());
}
