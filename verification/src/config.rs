//! Gateway configuration and its defaults.
//!
//! Paths are held as text.  The home directory is an input: whoever starts the
//! gateway reads it from the environment (`HOME`) and passes `None` where it is
//! unset.
use vstd::prelude::*;
use vstd::string::*;

verus! {

/// How log lines are written.
#[derive(Debug, Clone, Copy, PartialEq, Eq, Structural)]
pub enum LogFormat {
    Pretty,
    Json,
}

/// Settings of the gateway.
#[derive(Debug)]
pub struct AgentGateConfig {
    pub log_level: String,
    pub log_format: LogFormat,
    /// Path of the invocation log. Defaults to `~/.agentgate/logs.db`.
    pub db_path: String,
    /// Name used to identify the wrapped server in invocation records.
    pub server_name: String,
    /// Optional path to a TOML policy file. No policy enforcement when absent.
    pub policy_path: Option<String>,
}

/// `base` joined with the relative path `part`: a `/` goes between them
/// unless `base` is empty or already ends in one.
pub open spec fn path_join(base: Seq<char>, part: Seq<char>) -> Seq<char> {
    if base.len() == 0 || base.last() == '/' {
        base + part
    } else {
        base + seq!['/'] + part
    }
}

/// The directory that holds the gateway's files: `.agentgate` under the home
/// directory, or under `/tmp` where there is none.
pub open spec fn spec_dirs_path(home: Option<Seq<char>>) -> Seq<char> {
    path_join(
        match home {
            Some(h) => h,
            None => "/tmp"@,
        },
        ".agentgate"@,
    )
}

/// The default database path: `logs.db` in the gateway's directory.
pub open spec fn spec_default_db_path(home: Option<Seq<char>>) -> Seq<char> {
    path_join(spec_dirs_path(home), "logs.db"@)
}

/// The model of an optional `&str`.
pub open spec fn opt_str_view(o: Option<&str>) -> Option<Seq<char>> {
    match o {
        Some(s) => Some(s@),
        None => None,
    }
}

/// `base` joined with the relative path `part`.
pub fn join_path(base: &str, part: &str) -> (r: String)
    ensures
        r@ == path_join(base@, part@),
{
    let n = base.unicode_len();
    let mut r = String::from_str(base);
    if n != 0 && base.get_char(n - 1) != '/' {
        r.append("/");
        proof {
            reveal_strlit("/");
            assert("/"@ =~= seq!['/']);
        }
    }
    r.append(part);
    r
}

/// The gateway's directory for the given home directory.
pub fn dirs_path(home: Option<&str>) -> (r: String)
    ensures
        r@ == spec_dirs_path(opt_str_view(home)),
{
    let base = match home {
        Some(h) => h,
        None => "/tmp",
    };
    join_path(base, ".agentgate")
}

/// The default database path for the given home directory.
pub fn default_db_path(home: Option<&str>) -> (r: String)
    ensures
        r@ == spec_default_db_path(opt_str_view(home)),
{
    let dir = dirs_path(home);
    join_path(dir.as_str(), "logs.db")
}

/// The characters after the last `/` of a path.
pub open spec fn last_segment(p: Seq<char>) -> Seq<char>
    decreases p.len(),
{
    if p.len() == 0 || p.last() == '/' {
        Seq::empty()
    } else {
        last_segment(p.drop_last()).push(p.last())
    }
}

/// The final component of a path, as `std::path::Path::file_name` gives it
/// on Unix: trailing separators and `.` components are passed over; a final
/// `..`, a root or an empty path has none.
pub open spec fn path_file_name(p: Seq<char>) -> Option<Seq<char>>
    decreases p.len(),
{
    if p.len() == 0 {
        None
    } else if p.last() == '/' {
        path_file_name(p.drop_last())
    } else {
        let seg = last_segment(p);
        if seg == seq!['.'] {
            path_file_name(p.drop_last())
        } else if seg == seq!['.', '.'] {
            None
        } else {
            Some(seg)
        }
    }
}

/// Calls `std::path::Path::file_name` on `path` and turns the component back
/// into text.  Claims what the documentation of `Path::file_name` and
/// `Path::components` says on Unix, as `path_file_name` writes it out: the last
/// component, with repeated and trailing separators and `.` components
/// normalised away, none where that is `..` or there is no component.  A
/// component of a `&str` path is always valid text.
#[verifier::external_body]
fn file_name_of(path: &str) -> (r: Option<String>)
    ensures
        match r {
            Some(n) => path_file_name(path@) == Some(n@),
            None => path_file_name(path@) is None,
        },
{
    let name = std::path::Path::new(path).file_name()?;
    Some(name.to_str()?.to_string())
}

/// The name that identifies a wrapped server: the file name of its command,
/// or the command itself where the path has none (e.g. it ends in `..`).
pub fn server_name_for_command(command: &str) -> (r: String)
    ensures
        r@ == match path_file_name(command@) {
            Some(n) => n,
            None => command@,
        },
{
    match file_name_of(command) {
        Some(n) => n,
        None => String::from_str(command),
    }
}

impl AgentGateConfig {
    /// The default configuration for the given home directory: log level
    /// `info`, pretty logs, the default database path, server name `unknown`
    /// and no policy file.
    pub fn default_for_home(home: Option<&str>) -> (r: AgentGateConfig)
        ensures
            r.log_level@ == "info"@,
            r.log_format == LogFormat::Pretty,
            r.db_path@ == spec_default_db_path(opt_str_view(home)),
            r.server_name@ == "unknown"@,
            r.policy_path is None,
    {
        AgentGateConfig {
            log_level: String::from_str("info"),
            log_format: LogFormat::Pretty,
            db_path: default_db_path(home),
            server_name: String::from_str("unknown"),
            policy_path: None,
        }
    }
}

} // verus!
