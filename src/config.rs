//! Where the application keeps its own files. The platform's directories
//! come from outside; the store that holds the current configuration lives
//! with the caller, who passes it in.

use vstd::prelude::*;
use vstd::string::{StrSliceExecFns, StringExecFns};

verus! {

/// Paths of the configuration file, the database and the cache directory.
pub struct Config {
    pub config_path: String,
    pub db_path: String,
    pub cache_dir: String,
}

pub open spec fn is_separator(c: char) -> bool {
    c == '/' || c == '\\'
}

/// `name` under the directory `dir`, with one separator between them.
pub open spec fn join_path(dir: Seq<char>, name: Seq<char>) -> Seq<char> {
    if dir.len() == 0 {
        name
    } else if is_separator(dir.last()) {
        dir + name
    } else {
        dir + seq!['/'] + name
    }
}

fn join(dir: &str, name: &str) -> (r: String)
    ensures
        r@ == join_path(dir@, name@),
{
    let n = dir.unicode_len();
    if n == 0 {
        return String::from_str(name);
    }
    let mut out = String::from_str(dir);
    let last = dir.get_char(n - 1);
    if last != '/' && last != '\\' {
        let sep = "/";
        proof {
            reveal_strlit("/");
        }
        out.append(sep);
    }
    out.append(name);
    out
}

/// The configuration for the given platform configuration and data
/// directories: `hidebox.conf` in the first, `hidebox.db` and the `cache`
/// directory in the second.
pub fn init(config_dir: &str, data_dir: &str) -> (r: Config)
    ensures
        r.config_path@ == join_path(config_dir@, "hidebox.conf"@),
        r.db_path@ == join_path(data_dir@, "hidebox.db"@),
        r.cache_dir@ == join_path(data_dir@, "cache"@),
{
    Config {
        config_path: join(config_dir, "hidebox.conf"),
        db_path: join(data_dir, "hidebox.db"),
        cache_dir: join(data_dir, "cache"),
    }
}

/// Path of the configuration file.
pub fn conf_path(conf: &Config) -> (r: String)
    ensures
        r@ == conf.config_path@,
{
    conf.config_path.clone()
}

/// Path of the database.
pub fn db_path(conf: &Config) -> (r: String)
    ensures
        r@ == conf.db_path@,
{
    conf.db_path.clone()
}

/// Path of the cache directory.
pub fn cache_dir(conf: &Config) -> (r: String)
    ensures
        r@ == conf.cache_dir@,
{
    conf.cache_dir.clone()
}

/// A copy of the configuration.
pub fn config(conf: &Config) -> (r: Config)
    ensures
        r == *conf,
{
    Config {
        config_path: conf.config_path.clone(),
        db_path: conf.db_path.clone(),
        cache_dir: conf.cache_dir.clone(),
    }
}

/// Replaces the stored configuration with `conf`; writing it out is the
/// caller's part.
pub fn save(store: &mut Config, conf: Config)
    ensures
        *final(store) == conf,
{
    *store = conf;
}

} // verus!
