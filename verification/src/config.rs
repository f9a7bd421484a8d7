//! The configuration of the application: where its data lives, the
//! database URL, the address it serves on and its log level.
use crate::paths::{is_absolute, is_absolute_path, push_component, push_component_chars};
use crate::text::{chars_to_string, replace_all, replace_str, str_chars};
use vstd::prelude::*;

verus! {

/// The configuration of the application.
#[derive(Debug, Clone)]
pub struct AppConfig {
    pub data_dir: String,
    pub database_url: String,
    pub bind_address: String,
    pub log_level: String,
}

/// `path` with `rel` pushed onto it (`PathBuf::push` of a relative path).
pub(crate) fn push_path(path: &str, rel: &str) -> (r: String)
    ensures
        r@ == push_component(path@, rel@),
{
    let p = push_component_chars(&str_chars(path), &str_chars(rel));
    chars_to_string(&p)
}

/// The data directory for `dir`: `dir` itself when absolute, otherwise
/// `dir` under the current directory `cwd`.
pub fn resolve_data_dir(dir: &str, cwd: &str) -> (r: String)
    ensures
        r@ == (if is_absolute_path(dir@) {
            dir@
        } else {
            push_component(cwd@, dir@)
        }),
{
    if is_absolute(dir) {
        String::from_str(dir)
    } else {
        push_path(cwd, dir)
    }
}

/// The SQLite URL of the database in `data_dir`: "sqlite:///" and the path
/// of "alexandria.db" there, with '\' written as '/'.
pub open spec fn database_url_for(data_dir: Seq<char>) -> Seq<char> {
    "sqlite:///"@ + replace_all(push_component(data_dir, "alexandria.db"@), seq!['\\'], seq!['/'])
}

impl AppConfig {
    /// The configuration for a data directory, serving on "127.0.0.1:3000"
    /// and logging at "info" unless told otherwise.
    pub fn new(data_dir: String, bind_address: Option<String>, log_level: Option<String>) -> (r:
        AppConfig)
        ensures
            r.data_dir@ == data_dir@,
            r.database_url@ == database_url_for(data_dir@),
            r.bind_address@ == (match bind_address {
                Some(b) => b@,
                None => "127.0.0.1:3000"@,
            }),
            r.log_level@ == (match log_level {
                Some(l) => l@,
                None => "info"@,
            }),
    {
        proof {
            reveal_strlit("\\");
            reveal_strlit("/");
            assert("\\"@ =~= seq!['\\']);
            assert("/"@ =~= seq!['/']);
        }
        let db_path = push_path(data_dir.as_str(), "alexandria.db");
        let db_path_str = replace_str(db_path.as_str(), "\\", "/");
        let mut database_url = String::from_str("sqlite:///");
        database_url.append(db_path_str.as_str());
        let bind_address = match bind_address {
            Some(b) => b,
            None => String::from_str("127.0.0.1:3000"),
        };
        let log_level = match log_level {
            Some(l) => l,
            None => String::from_str("info"),
        };
        AppConfig { data_dir, database_url, bind_address, log_level }
    }

    /// The directory of the log files: "logs" in the data directory.
    pub fn logs_dir(&self) -> (r: String)
        ensures
            r@ == push_component(self.data_dir@, "logs"@),
    {
        push_path(self.data_dir.as_str(), "logs")
    }
}

/// Name for the path of a URL as the `url` crate parses it (`Url::parse`
/// then `Url::path`); `None` when the text does not parse as a URL.
pub uninterp spec fn url_path_of(url: Seq<char>) -> Option<Seq<char>>;

/// Calls `url::Url::parse` and takes the path of the URL.
#[verifier::external_body]
fn parsed_url_path(url: &str) -> (r: Option<String>)
    ensures
        match r {
            Some(p) => url_path_of(url@) == Some(p@),
            None => url_path_of(url@) is None,
        },
{
    match url::Url::parse(url) {
        Ok(u) => Some(u.path().to_string()),
        Err(_) => None,
    }
}

/// The file a database URL names, which is made before connecting: none for
/// the in-memory database or a URL that does not parse; otherwise the URL's
/// path without one leading '/' (so that "/C:/x" becomes "C:/x").
pub open spec fn spec_database_file(url: Seq<char>) -> Option<Seq<char>> {
    if url == "sqlite::memory:"@ {
        None
    } else {
        match url_path_of(url) {
            Some(p) => Some(
                if p.len() > 0 && p[0] == '/' {
                    p.skip(1)
                } else {
                    p
                },
            ),
            None => None,
        }
    }
}

/// The file a database URL names, if it names one.
pub fn database_file(url: &str) -> (r: Option<String>)
    ensures
        match r {
            Some(f) => spec_database_file(url@) == Some(f@),
            None => spec_database_file(url@) is None,
        },
{
    if crate::models::str_eq(url, "sqlite::memory:") {
        return None;
    }
    match parsed_url_path(url) {
        Some(p) => {
            let v = str_chars(p.as_str());
            if v.len() > 0 && v[0] == '/' {
                let mut rest: Vec<char> = Vec::new();
                let mut i: usize = 1;
                while i < v.len()
                    invariant
                        1 <= i <= v.len(),
                        rest@ == v@.subrange(1, i as int),
                    decreases v.len() - i,
                {
                    rest.push(v[i]);
                    i += 1;
                    assert(rest@ =~= v@.subrange(1, i as int));
                }
                assert(rest@ =~= v@.skip(1));
                Some(chars_to_string(&rest))
            } else {
                Some(p)
            }
        },
        None => None,
    }
}

} // verus!
