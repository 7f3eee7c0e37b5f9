use vstd::prelude::*;
use crate::params::strings_view;
use crate::string_map::StringMap;

verus! {

/// The client's settings: the base URL of the API and the headers sent
/// with every request.
#[derive(Debug)]
pub struct Config {
    pub base_url: String,
    pub headers: Option<StringMap>,
}

/// The headers of a configuration as a map; none is the empty map.
pub open spec fn headers_view(h: Option<StringMap>) -> Map<Seq<char>, Seq<char>> {
    match h {
        Some(m) => m@,
        None => Map::empty(),
    }
}

impl Config {
    /// The header map, where there is one, is well formed.
    pub open spec fn wf(&self) -> bool {
        match self.headers {
            Some(m) => m.wf(),
            None => true,
        }
    }

    /// The configuration that a first setting starts from: no base URL and
    /// no header map.
    pub fn empty() -> (r: Config)
        ensures
            r.wf(),
            r.base_url@.len() == 0,
            r.headers is None,
    {
        Config { base_url: String::new(), headers: None }
    }

    /// Sets the base URL; the headers stay as they are.
    pub fn set_base_url(&mut self, url: String)
        ensures
            final(self).base_url == url,
            final(self).headers == old(self).headers,
    {
        self.base_url = url;
    }

    /// Sets the header `key` to `value`, or removes it where `value` is
    /// `None`. A configuration without a header map gets one.
    pub fn set_header(&mut self, key: String, value: Option<String>)
        requires
            old(self).wf(),
        ensures
            final(self).wf(),
            final(self).base_url == old(self).base_url,
            final(self).headers is Some,
            headers_view(final(self).headers) == match value {
                Some(v) => headers_view(old(self).headers).insert(key@, v@),
                None => headers_view(old(self).headers).remove(key@),
            },
    {
        let mut m = match self.headers.take() {
            Some(m) => m,
            None => StringMap::new(),
        };
        match value {
            Some(v) => m.insert(key, v),
            None => {
                m.remove(key.as_str());
            },
        }
        self.headers = Some(m);
    }
}

/// What `self:set-base-url` is given: the new base URL, the segment after
/// the command; `None` where there is none.
pub fn base_url_argument(commands: &[String]) -> (r: Option<String>)
    ensures
        match r {
            Some(u) => commands@.len() >= 2 && u@ == strings_view(commands@)[1],
            None => commands@.len() < 2,
        },
{
    if commands.len() < 2 {
        None
    } else {
        Some(commands[1].clone())
    }
}

/// What `self:set-header` is given: the header name and, where a third
/// segment follows, its value (without one the header is removed); `None`
/// where no name is given.
pub fn header_arguments(commands: &[String]) -> (r: Option<(String, Option<String>)>)
    ensures
        match r {
            Some((k, v)) => {
                &&& commands@.len() >= 2
                &&& k@ == strings_view(commands@)[1]
                &&& match v {
                    Some(v) => commands@.len() >= 3 && v@ == strings_view(commands@)[2],
                    None => commands@.len() < 3,
                }
            },
            None => commands@.len() < 2,
        },
{
    if commands.len() < 2 {
        None
    } else if commands.len() < 3 {
        Some((commands[1].clone(), None))
    } else {
        Some((commands[1].clone(), Some(commands[2].clone())))
    }
}

} // verus!
