use vstd::prelude::*;
use crate::params::has_prefix;
use crate::string_map::string_eq_str;

verus! {

/// The repository that releases are downloaded from.
pub const GITHUB_REPO: &'static str = "suchlab/anything-cli";

/// The name of the released program.
pub const BINARY_NAME: &'static str = "anything-cli";

/// A platform that releases are built for: its names in release archives
/// and the URL of the latest archive.
#[derive(Debug)]
pub struct PlatformInfo {
    pub os: String,
    pub arch: String,
    pub download_url: String,
}

/// The release names of the platform with Rust's names `os` and `arch`,
/// where releases are built for it.
pub open spec fn release_platform(os: Seq<char>, arch: Seq<char>) -> Option<(Seq<char>, Seq<char>)> {
    if os == "macos"@ && arch == "aarch64"@ {
        Some(("darwin"@, "arm64"@))
    } else if os == "macos"@ && arch == "x86_64"@ {
        Some(("darwin"@, "amd64"@))
    } else if os == "linux"@ && arch == "x86_64"@ {
        Some(("linux"@, "amd64"@))
    } else {
        None
    }
}

/// The URL of the latest release archive for the release names `os` and
/// `arch`.
pub open spec fn download_url_of(os: Seq<char>, arch: Seq<char>) -> Seq<char> {
    "https://github.com/"@ + GITHUB_REPO@ + "/releases/latest/download/"@ + BINARY_NAME@ + "-"@
        + os + "-"@ + arch + ".tar.gz"@
}

/// Why there is no release for the platform with Rust's names `os` and
/// `arch`.
pub open spec fn platform_error_of(os: Seq<char>, arch: Seq<char>) -> Seq<char> {
    if os == "linux"@ && arch == "aarch64"@ {
        "Linux ARM64 is not currently supported"@
    } else if os == "windows"@ {
        "Windows is not currently supported"@
    } else {
        "Unsupported platform: "@ + os + " "@ + arch
    }
}

/// The release platform for Rust's platform names `os` and `arch` (as in
/// `std::env::consts`), or why there is none.
pub fn get_platform_info(os: &str, arch: &str) -> (r: Result<PlatformInfo, String>)
    ensures
        match r {
            Ok(p) => release_platform(os@, arch@) == Some((p.os@, p.arch@)) && p.download_url@
                == download_url_of(p.os@, p.arch@),
            Err(e) => release_platform(os@, arch@) is None && e@ == platform_error_of(os@, arch@),
        },
{
    let mac = string_eq_str(&String::from_str(os), "macos");
    let linux = string_eq_str(&String::from_str(os), "linux");
    let arm = string_eq_str(&String::from_str(arch), "aarch64");
    let x86 = string_eq_str(&String::from_str(arch), "x86_64");
    let names = if mac && arm {
        Some(("darwin", "arm64"))
    } else if mac && x86 {
        Some(("darwin", "amd64"))
    } else if linux && x86 {
        Some(("linux", "amd64"))
    } else {
        None
    };
    match names {
        Some((o, a)) => {
            let mut url = String::from_str("https://github.com/");
            url.append(GITHUB_REPO);
            url.append("/releases/latest/download/");
            url.append(BINARY_NAME);
            url.append("-");
            url.append(o);
            url.append("-");
            url.append(a);
            url.append(".tar.gz");
            Ok(PlatformInfo { os: String::from_str(o), arch: String::from_str(a), download_url: url })
        },
        None => {
            if linux && arm {
                Err(String::from_str("Linux ARM64 is not currently supported"))
            } else if string_eq_str(&String::from_str(os), "windows") {
                Err(String::from_str("Windows is not currently supported"))
            } else {
                let mut e = String::from_str("Unsupported platform: ");
                e.append(os);
                e.append(" ");
                e.append(arch);
                Err(e)
            }
        },
    }
}

/// The file name of the program inside the release archive for `info`.
pub fn archived_binary_name(info: &PlatformInfo) -> (r: String)
    ensures
        r@ == BINARY_NAME@ + "-"@ + info.os@ + "-"@ + info.arch@,
{
    let mut n = String::from_str(BINARY_NAME);
    n.append("-");
    n.append(info.os.as_str());
    n.append("-");
    n.append(info.arch.as_str());
    n
}

/// The version that a release tag names: the tag without a leading `v`.
pub fn version_from_tag(tag: &str) -> (r: String)
    ensures
        r@ == (if tag@.len() > 0 && tag@[0] == 'v' {
            tag@.skip(1)
        } else {
            tag@
        }),
{
    proof {
        reveal_strlit("v");
        assert("v"@ =~= seq!['v']);
        if tag@.len() > 0 {
            assert(tag@.take(1) =~= seq![tag@[0]]);
            if tag@[0] == 'v' {
                assert(tag@.take(1) =~= "v"@);
            } else {
                assert(tag@.take(1)[0] != "v"@[0]);
            }
        }
    }
    if has_prefix(tag, "v") {
        let r = tag.substring_char(1, tag.unicode_len()).to_owned();
        assert(r@ =~= tag@.skip(1));
        r
    } else {
        String::from_str(tag)
    }
}

} // verus!
