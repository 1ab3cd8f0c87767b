//! Where the daemon and the client keep their files.
use vstd::prelude::*;

verus! {

/// Failure to determine the home directory the paths hang off.
#[derive(Debug, Clone, PartialEq, Eq)]
pub struct HomeNotFound;

impl HomeNotFound {
    /// Returns the explanation shown to the operator.
    pub fn message(&self) -> (r: &'static str)
        ensures
            r@ == "cannot determine the home directory"@,
    {
        "cannot determine the home directory"
    }
}

/// A relative name below a directory: a slash between them unless the directory brings one or is
/// empty.
pub open spec fn joined(dir: Seq<char>, name: Seq<char>) -> Seq<char> {
    if dir.len() == 0 || dir.last() == '/' {
        dir + name
    } else {
        dir + "/"@ + name
    }
}

/// Names an entry of a directory.
pub fn join(dir: &str, name: &str) -> (r: String)
    ensures
        r@ == joined(dir@, name@),
{
    let mut r = dir.to_owned();
    let n = dir.unicode_len();
    if n > 0 && dir.get_char(n - 1) != '/' {
        r.append("/");
    }
    r.append(name);
    r
}

/// Filesystem locations the daemon and the client share.
#[derive(Debug, Clone, PartialEq, Eq)]
pub struct Paths {
    config_dir: String,
    state_dir: String,
}

impl Paths {
    /// The directory the init script lives in.
    pub closed spec fn config(&self) -> Seq<char> {
        self.config_dir@
    }

    /// The directory everything else lives in.
    pub closed spec fn state(&self) -> Seq<char> {
        self.state_dir@
    }

    /// Derives both directories from a home directory without touching the filesystem.
    pub fn from_home(home: &str) -> (r: Paths)
        ensures
            r.config() == joined(joined(home@, ".config"@), "nhop"@),
            r.state() == joined(joined(joined(home@, ".local"@), "state"@), "nhop"@),
    {
        Paths {
            config_dir: join(join(home, ".config").as_str(), "nhop"),
            state_dir: join(join(join(home, ".local").as_str(), "state").as_str(), "nhop"),
        }
    }

    /// Returns the directory the init script lives in.
    pub fn config_dir(&self) -> (r: &str)
        ensures
            r@ == self.config(),
    {
        self.config_dir.as_str()
    }

    /// Returns the state directory.
    pub fn state_dir(&self) -> (r: &str)
        ensures
            r@ == self.state(),
    {
        self.state_dir.as_str()
    }

    /// Returns the path of the executable rule script.
    pub fn init_file(&self) -> (r: String)
        ensures
            r@ == joined(self.config(), "init"@),
    {
        join(self.config_dir.as_str(), "init")
    }

    /// Returns the path of the IPC socket.
    pub fn socket_file(&self) -> (r: String)
        ensures
            r@ == joined(self.state(), "nhop.sock"@),
    {
        join(self.state_dir.as_str(), "nhop.sock")
    }

    /// Returns the path of the single-instance pid file.
    pub fn pid_file(&self) -> (r: String)
        ensures
            r@ == joined(self.state(), "nhop.pid"@),
    {
        join(self.state_dir.as_str(), "nhop.pid")
    }

    /// Returns the path of the current log file.
    pub fn log_file(&self) -> (r: String)
        ensures
            r@ == joined(self.state(), "nhop.log"@),
    {
        join(self.state_dir.as_str(), "nhop.log")
    }
}

/// A name is put below a directory with one slash between them.
pub proof fn law_a_name_is_put_below_its_directory(dir: Seq<char>, name: Seq<char>)
    requires
        dir.len() > 0,
    ensures
        dir.last() != '/' ==> joined(dir, name) == dir + "/"@ + name,
        dir.last() == '/' ==> joined(dir, name) == dir + name,
{
}

} // verus!
