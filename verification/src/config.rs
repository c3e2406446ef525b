//! The application's configuration: where data, indexes and GeoIP
//! databases live and where the server listens, with the defaults of a
//! first run.

use vstd::prelude::*;
use crate::text::{chars_of, string_of, concat_chars};
use crate::num::{decimal, u64_to_decimal};

verus! {

/// The application's configuration.
#[derive(Debug, Clone)]
pub struct AppConfig {
    pub server: ServerConfig,
    pub database: DatabaseConfig,
    pub search: SearchConfig,
    pub geoip: GeoIpConfig,
}

/// Where the server listens.
#[derive(Debug, Clone)]
pub struct ServerConfig {
    pub host: String,
    pub port: u16,
}

/// Where the data lives: a directory and the main database file in it.
#[derive(Debug, Clone)]
pub struct DatabaseConfig {
    pub data_dir: String,
    pub db_file: String,
}

/// Where the search indexes live, below the data directory.
#[derive(Debug, Clone)]
pub struct SearchConfig {
    pub db_dir: String,
    pub db_file: String,
}

/// Where the GeoIP databases live, below the data directory (empty: in
/// it).
#[derive(Debug, Clone)]
pub struct GeoIpConfig {
    pub db_dir: String,
}

impl Default for ServerConfig {
    fn default() -> (r: ServerConfig)
        ensures
            r.host@ == "0.0.0.0"@,
            r.port == 8180,
    {
        ServerConfig { host: String::from_str("0.0.0.0"), port: 8180 }
    }
}

impl Default for DatabaseConfig {
    fn default() -> (r: DatabaseConfig)
        ensures
            r.data_dir@ == "data"@,
            r.db_file@ == "yaolist.db"@,
    {
        DatabaseConfig { data_dir: String::from_str("data"), db_file: String::from_str("yaolist.db") }
    }
}

impl Default for SearchConfig {
    fn default() -> (r: SearchConfig)
        ensures
            r.db_dir@ == "search"@,
            r.db_file@ == "search.db"@,
    {
        SearchConfig { db_dir: String::from_str("search"), db_file: String::from_str("search.db") }
    }
}

impl Default for GeoIpConfig {
    fn default() -> (r: GeoIpConfig)
        ensures
            r.db_dir@.len() == 0,
    {
        GeoIpConfig { db_dir: String::new() }
    }
}

impl Default for AppConfig {
    fn default() -> (r: AppConfig)
        ensures
            r.server.host@ == "0.0.0.0"@,
            r.server.port == 8180,
            r.database.data_dir@ == "data"@,
            r.database.db_file@ == "yaolist.db"@,
            r.search.db_dir@ == "search"@,
            r.search.db_file@ == "search.db"@,
            r.geoip.db_dir@.len() == 0,
    {
        AppConfig {
            server: ServerConfig::default(),
            database: DatabaseConfig::default(),
            search: SearchConfig::default(),
            geoip: GeoIpConfig::default(),
        }
    }
}

/// A path joined with another as `std::path::Path::join` does on Unix: an
/// absolute part replaces the base; otherwise the part follows the base,
/// with a `/` between them unless the base is empty or ends in one.
pub open spec fn path_join(base: Seq<char>, part: Seq<char>) -> Seq<char> {
    if part.len() > 0 && part[0] == '/' {
        part
    } else if base.len() == 0 || base.last() == '/' {
        base + part
    } else {
        base + seq!['/'] + part
    }
}

fn join_path(base: &str, part: &str) -> (r: String)
    ensures
        r@ == path_join(base@, part@),
{
    let b = chars_of(base);
    let p = chars_of(part);
    if p.len() > 0 && p[0] == '/' {
        return string_of(&p);
    }
    if b.len() == 0 || b[b.len() - 1] == '/' {
        string_of(&concat_chars(&b, &p))
    } else {
        let slash = vec!['/'];
        assert(slash@ =~= seq!['/']);
        string_of(&concat_chars(&concat_chars(&b, &slash), &p))
    }
}

/// The search index directory: the data directory, or the configured
/// directory joined to it.
pub open spec fn search_dir_of(c: AppConfig) -> Seq<char> {
    if c.search.db_dir@.len() == 0 {
        c.database.data_dir@
    } else {
        path_join(c.database.data_dir@, c.search.db_dir@)
    }
}

impl AppConfig {
    /// The URL of the main database: `sqlite:`, its path, `?mode=rwc`.
    pub fn get_database_url(&self) -> (r: String)
        ensures
            r@ == "sqlite:"@ + path_join(self.database.data_dir@, self.database.db_file@) + "?mode=rwc"@,
    {
        let p = join_path(self.database.data_dir.as_str(), self.database.db_file.as_str());
        let head = concat_chars(&chars_of("sqlite:"), &chars_of(p.as_str()));
        string_of(&concat_chars(&head, &chars_of("?mode=rwc")))
    }

    /// The data directory.
    pub fn get_data_dir(&self) -> (r: String)
        ensures
            r@ == self.database.data_dir@,
    {
        crate::text::copy_str(self.database.data_dir.as_str())
    }

    /// The path of the search database.
    pub fn get_search_db_path(&self) -> (r: String)
        ensures
            r@ == path_join(search_dir_of(*self), self.search.db_file@),
    {
        let dir = self.get_search_db_dir();
        join_path(dir.as_str(), self.search.db_file.as_str())
    }

    /// The directory of the search indexes.
    pub fn get_search_db_dir(&self) -> (r: String)
        ensures
            r@ == search_dir_of(*self),
    {
        let data_dir = self.get_data_dir();
        if chars_of(self.search.db_dir.as_str()).len() == 0 {
            data_dir
        } else {
            join_path(data_dir.as_str(), self.search.db_dir.as_str())
        }
    }

    /// The path of the search index of one storage: `index_<id>.db` in the
    /// index directory.
    pub fn get_driver_search_db_path(&self, driver_id: &str) -> (r: String)
        ensures
            r@ == path_join(search_dir_of(*self), "index_"@ + driver_id@ + ".db"@),
    {
        let dir = self.get_search_db_dir();
        let name = concat_chars(&concat_chars(&chars_of("index_"), &chars_of(driver_id)), &chars_of(".db"));
        join_path(dir.as_str(), string_of(&name).as_str())
    }

    /// The directory of the GeoIP databases.
    pub fn get_geoip_dir(&self) -> (r: String)
        ensures
            r@ == if self.geoip.db_dir@.len() == 0 {
                self.database.data_dir@
            } else {
                path_join(self.database.data_dir@, self.geoip.db_dir@)
            },
    {
        let data_dir = self.get_data_dir();
        if chars_of(self.geoip.db_dir.as_str()).len() == 0 {
            data_dir
        } else {
            join_path(data_dir.as_str(), self.geoip.db_dir.as_str())
        }
    }

    /// The address the server binds: host, `:`, port.
    pub fn get_bind_address(&self) -> (r: String)
        ensures
            r@ == self.server.host@ + seq![':'] + decimal(self.server.port as nat),
    {
        let colon = vec![':'];
        assert(colon@ =~= seq![':']);
        let head = concat_chars(&chars_of(self.server.host.as_str()), &colon);
        string_of(&concat_chars(&head, &u64_to_decimal(self.server.port as u64)))
    }
}

} // verus!
