use anything_cli::git::{extract_repo_name, get_git_repo_info};

#[test]
fn repo_name_from_remote_urls() {
    assert_eq!(extract_repo_name("https://github.com/suchlab/anything-cli.git"), Some("anything-cli".to_string()));
    assert_eq!(extract_repo_name("git@github.com:suchlab/tool.git"), Some("tool".to_string()));
    assert_eq!(extract_repo_name("repo.git"), Some("repo".to_string()));
    assert_eq!(extract_repo_name(".git"), Some("".to_string()));
    assert_eq!(extract_repo_name("https://github.com/suchlab/anything-cli"), None);
    assert_eq!(extract_repo_name("https://host/x.git/"), None);
    assert_eq!(extract_repo_name(""), None);
}

#[test]
fn git_context_needs_every_part() {
    let url = || Some("https://h/o/r.git".to_string());
    let branch = || Some("main".to_string());
    assert_eq!(
        get_git_repo_info(true, true, url(), branch()),
        Some(("https://h/o/r.git".to_string(), "r".to_string(), "main".to_string()))
    );
    assert_eq!(get_git_repo_info(false, true, url(), branch()), None);
    assert_eq!(get_git_repo_info(true, false, url(), branch()), None);
    assert_eq!(get_git_repo_info(true, true, None, branch()), None);
    assert_eq!(get_git_repo_info(true, true, Some("https://h/o/r".to_string()), branch()), None);
    assert_eq!(get_git_repo_info(true, true, url(), None), None);
}
