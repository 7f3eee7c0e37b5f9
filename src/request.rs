use vstd::prelude::*;
use crate::params::{has_prefix, starts_with, strings_view};
use crate::string_map::{StringMap, entries_map, keys_unique};

verus! {

/// The names of the headers that this client sets itself begin with this.
pub open spec fn reserved_prefix() -> Seq<char> {
    "x-anything-cli-"@
}

/// The segments `s` joined with `/` between them.
pub open spec fn joined(s: Seq<Seq<char>>) -> Seq<char>
    decreases s.len(),
{
    if s.len() == 0 {
        Seq::empty()
    } else if s.len() == 1 {
        s[0]
    } else {
        joined(s.drop_last()) + "/"@ + s.last()
    }
}

/// The URL that a request for the path segments `commands` goes to.
pub open spec fn endpoint_of(base_url: Seq<char>, commands: Seq<Seq<char>>) -> Seq<char> {
    base_url + "/"@ + joined(commands)
}

/// Builds the URL of a request: the base URL, a `/`, and the path segments
/// joined by `/`.
pub fn endpoint(base_url: &str, commands: &[String]) -> (r: String)
    ensures
        r@ == endpoint_of(base_url@, strings_view(commands@)),
{
    let ghost segs = strings_view(commands@);
    let mut path = String::new();
    let mut i: usize = 0;
    while i < commands.len()
        invariant
            segs == strings_view(commands@),
            i <= commands@.len(),
            path@ == joined(segs.take(i as int)),
        decreases commands@.len() - i,
    {
        assert(segs.take(i + 1).drop_last() =~= segs.take(i as int));
        assert(segs.take(i + 1).last() == commands@[i as int]@);
        if i > 0 {
            path.append("/");
        } else {
            assert(path@ =~= Seq::<char>::empty());
            assert(segs.take(1).len() == 1);
        }
        path.append(commands[i].as_str());
        i = i + 1;
    }
    assert(segs.take(i as int) =~= segs);
    let mut url = String::from_str(base_url);
    url.append("/");
    url.append(path.as_str());
    url
}

/// `s` without the whitespace at either end, as `str::trim` gives it.
pub uninterp spec fn trim_of(s: Seq<char>) -> Seq<char>;

/// Relies on `str::trim`: the result depends on the characters alone.
#[verifier::external_body]
fn trim(s: &str) -> (r: &str)
    ensures
        r@ == trim_of(s@),
{
    s.trim()
}

/// `s` in lower case, as `str::to_lowercase` gives it.
pub uninterp spec fn lowercase_of(s: Seq<char>) -> Seq<char>;

/// Relies on `str::to_lowercase`: the result depends on the characters alone.
#[verifier::external_body]
fn to_lowercase(s: &str) -> (r: String)
    ensures
        r@ == lowercase_of(s@),
{
    s.to_lowercase()
}

/// Whether the header name `name`, already trimmed and in lower case, is
/// one of the names that this client sets itself.
pub fn is_reserved_header(name: &str) -> (r: bool)
    ensures
        r == starts_with(name@, reserved_prefix()),
{
    has_prefix(name, "x-anything-cli-")
}

/// Whether a configured header named `name` is sent: not where its name,
/// trimmed and in lower case, is one that this client sets itself.
pub fn forwards_header(name: &str) -> (r: bool)
    ensures
        r == !starts_with(lowercase_of(trim_of(name@)), reserved_prefix()),
{
    let lowered = to_lowercase(trim(name));
    !is_reserved_header(lowered.as_str())
}

/// The configured headers that are sent, of the entries `s`.
pub open spec fn forwarded(s: Seq<(String, String)>) -> Seq<(Seq<char>, Seq<char>)>
    decreases s.len(),
{
    if s.len() == 0 {
        Seq::empty()
    } else {
        let rest = forwarded(s.drop_last());
        if starts_with(lowercase_of(trim_of(s.last().0@)), reserved_prefix()) {
            rest
        } else {
            rest.push((s.last().0@, s.last().1@))
        }
    }
}

/// The views of a list of header pairs.
pub open spec fn pairs_view(s: Seq<(String, String)>) -> Seq<(Seq<char>, Seq<char>)> {
    s.map_values(|p: (String, String)| (p.0@, p.1@))
}

/// The header that names the client, its version and the program name.
pub open spec fn user_agent_of(version: Seq<char>, executable_name: Seq<char>) -> Seq<char> {
    "anything-cli/v"@ + version + " ("@ + executable_name
        + "; repo: https://github.com/suchlab/anything-cli)"@
}

/// The headers that this client adds itself, after the configured ones.
pub open spec fn own_headers(
    version: Seq<char>,
    executable_name: Seq<char>,
    git: Option<(Seq<char>, Seq<char>, Seq<char>)>,
) -> Seq<(Seq<char>, Seq<char>)> {
    let base = seq![
        ("user-agent"@, user_agent_of(version, executable_name)),
        ("x-anything-cli-version"@, version),
        ("x-anything-cli-executable-name"@, executable_name),
    ];
    match git {
        Some((url, name, branch)) => base + seq![
            ("x-anything-cli-git"@, "true"@),
            ("x-anything-cli-git-repo-url"@, url),
            ("x-anything-cli-git-repo-name"@, name),
            ("x-anything-cli-git-branch"@, branch),
        ],
        None => base,
    }
}

fn pair(name: &str, value: &str) -> (r: (String, String))
    ensures
        r.0@ == name@,
        r.1@ == value@,
{
    (String::from_str(name), String::from_str(value))
}

/// The headers of a request, in order: the configured ones that are sent,
/// then the user agent, the version and the program name, then the git
/// context (remote URL, repository name, branch) where there is one.
pub fn request_headers(
    configured: &Option<StringMap>,
    version: &str,
    executable_name: &str,
    git: &Option<(String, String, String)>,
) -> (r: Vec<(String, String)>)
    requires
        match configured {
            Some(m) => m.wf(),
            None => true,
        },
    ensures
        exists|entries: Seq<(String, String)>|
            #![trigger forwarded(entries)]
            {
                &&& keys_unique(entries)
                &&& entries_map(entries) == match configured {
                    Some(m) => m@,
                    None => Map::empty(),
                }
                &&& pairs_view(r@) == forwarded(entries) + own_headers(
                    version@,
                    executable_name@,
                    match git {
                        Some(g) => Some((g.0@, g.1@, g.2@)),
                        None => None,
                    },
                )
            },
{
    let entries = match configured {
        Some(m) => m.to_vec(),
        None => {
            let v: Vec<(String, String)> = Vec::new();
            assert(entries_map(v@) =~= Map::empty());
            v
        },
    };
    let mut r: Vec<(String, String)> = Vec::new();
    let mut i: usize = 0;
    while i < entries.len()
        invariant
            i <= entries@.len(),
            pairs_view(r@) == forwarded(entries@.take(i as int)),
        decreases entries@.len() - i,
    {
        assert(entries@.take(i + 1).drop_last() =~= entries@.take(i as int));
        assert(entries@.take(i + 1).last() == entries@[i as int]);
        let ghost before = r@;
        if forwards_header(entries[i].0.as_str()) {
            r.push((entries[i].0.clone(), entries[i].1.clone()));
            assert(pairs_view(r@) =~= pairs_view(before).push((entries@[i as int].0@, entries@[i as int].1@)));
        }
        i = i + 1;
    }
    assert(entries@.take(i as int) =~= entries@);
    let ghost fwd = pairs_view(r@);
    let mut agent = String::from_str("anything-cli/v");
    agent.append(version);
    agent.append(" (");
    agent.append(executable_name);
    agent.append("; repo: https://github.com/suchlab/anything-cli)");
    r.push((String::from_str("user-agent"), agent));
    r.push(pair("x-anything-cli-version", version));
    r.push(pair("x-anything-cli-executable-name", executable_name));
    match git {
        Some(g) => {
            r.push(pair("x-anything-cli-git", "true"));
            r.push(pair("x-anything-cli-git-repo-url", g.0.as_str()));
            r.push(pair("x-anything-cli-git-repo-name", g.1.as_str()));
            r.push(pair("x-anything-cli-git-branch", g.2.as_str()));
        },
        None => {},
    }
    let ghost own = own_headers(
        version@,
        executable_name@,
        match git {
            Some(g) => Some((g.0@, g.1@, g.2@)),
            None => None,
        },
    );
    assert(pairs_view(r@) =~= fwd + own);
    r
}

} // verus!
