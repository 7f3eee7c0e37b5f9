use anything_cli::platform::{
    archived_binary_name, get_platform_info, version_from_tag, PlatformInfo, GITHUB_REPO,
};

#[test]
fn test_github_url_format() {
    let platform_info = PlatformInfo {
        os: "darwin".to_string(),
        arch: "arm64".to_string(),
        download_url: format!(
            "https://github.com/{}/releases/latest/download/anything-cli-darwin-arm64.tar.gz",
            GITHUB_REPO
        ),
    };

    assert!(platform_info.download_url.contains("suchlab/anything-cli"));
    assert!(platform_info.download_url.contains("releases/latest/download"));
    assert!(platform_info.download_url.ends_with(".tar.gz"));
}

#[test]
fn supported_platforms_get_release_names() {
    let p = get_platform_info("macos", "aarch64").unwrap();
    assert_eq!(p.os, "darwin");
    assert_eq!(p.arch, "arm64");
    assert_eq!(
        p.download_url,
        "https://github.com/suchlab/anything-cli/releases/latest/download/anything-cli-darwin-arm64.tar.gz"
    );
    assert_eq!(archived_binary_name(&p), "anything-cli-darwin-arm64");
    let p = get_platform_info("macos", "x86_64").unwrap();
    assert_eq!((p.os.as_str(), p.arch.as_str()), ("darwin", "amd64"));
    let p = get_platform_info("linux", "x86_64").unwrap();
    assert_eq!((p.os.as_str(), p.arch.as_str()), ("linux", "amd64"));
    assert!(p.download_url.ends_with("anything-cli-linux-amd64.tar.gz"));
}

#[test]
fn unsupported_platforms_say_why() {
    assert_eq!(
        get_platform_info("linux", "aarch64").unwrap_err(),
        "Linux ARM64 is not currently supported"
    );
    assert_eq!(
        get_platform_info("windows", "x86_64").unwrap_err(),
        "Windows is not currently supported"
    );
    assert_eq!(get_platform_info("freebsd", "x86_64").unwrap_err(), "Unsupported platform: freebsd x86_64");
}

#[test]
fn tag_loses_leading_v() {
    assert_eq!(version_from_tag("v1.2.3"), "1.2.3");
    assert_eq!(version_from_tag("1.2.3"), "1.2.3");
    assert_eq!(version_from_tag(""), "");
}
