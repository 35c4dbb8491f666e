//! Application configuration: the values the server runs with, and the
//! addresses derived from them. Reading them from the command line or the
//! environment happens at the program edge; the derivations live here.

use crate::sql::dec_str;
use vstd::prelude::*;
use vstd::string::StrSliceExecFns;

verus! {

/// HTTP server configuration.
pub struct HttpServerConfig {
    /// The network interface to bind to.
    pub host: String,
    /// The port to listen on.
    pub port: u16,
    /// The origin used to construct URLs, when set explicitly.
    pub origin: Option<String>,
    /// The maximum size of a file upload, as a human-readable size.
    pub max_upload_size: String,
}

/// The origin derived from a host and port when none is set explicitly:
/// loopback stands in for an unspecified or wildcard host.
pub open spec fn derived_origin(host: Seq<char>, port: u16) -> Seq<char> {
    "http://"@ + (if host.len() == 0 || host == "0.0.0.0"@ {
        "127.0.0.1"@
    } else {
        host
    }) + ":"@ + dec_str(port as nat)
}

impl HttpServerConfig {
    /// The address to listen on.
    pub fn addr(&self) -> (r: String)
        ensures
            r@ == self.host@ + ":"@ + dec_str(self.port as nat),
    {
        let mut s = String::from_str(self.host.as_str());
        s.append(":");
        let p = crate::sql::u64_to_string(self.port as u64);
        s.append(p.as_str());
        proof {
            assert(s@ =~= self.host@ + ":"@ + dec_str(self.port as nat));
        }
        s
    }

    /// The origin of the server: the configured one, or one derived from
    /// the host and port.
    pub fn origin(&self) -> (r: String)
        ensures
            r@ == match self.origin {
                Some(o) => o@,
                None => derived_origin(self.host@, self.port),
            },
    {
        if let Some(origin) = &self.origin {
            return String::from_str(origin.as_str());
        }
        let mut s = String::from_str("http://");
        if self.host.as_str().is_empty() || crate::sql::str_eq_str(self.host.as_str(), "0.0.0.0") {
            s.append("127.0.0.1");
        } else {
            s.append(self.host.as_str());
        }
        s.append(":");
        let p = crate::sql::u64_to_string(self.port as u64);
        s.append(p.as_str());
        proof {
            assert(s@ =~= derived_origin(self.host@, self.port));
        }
        s
    }
}

/// Storage configuration.
pub struct StorageConfig {
    /// The directory where files are stored.
    pub path: String,
}

impl StorageConfig {
    /// The location of a file under the storage directory.
    pub fn path(&self, file: &str) -> (r: String)
        ensures
            r@ == self.path@ + "/"@ + file@,
    {
        let mut s = String::from_str(self.path.as_str());
        s.append("/");
        s.append(file);
        proof {
            assert(s@ =~= self.path@ + "/"@ + file@);
        }
        s
    }
}

/// Database configuration.
pub struct DatabaseConfig {
    /// The connection URL for the database, when set explicitly.
    pub url: Option<String>,
}

/// The whole application configuration.
pub struct AppConfig {
    pub server: HttpServerConfig,
    pub storage: StorageConfig,
    pub database: DatabaseConfig,
}

impl AppConfig {
    /// Assemble a configuration from its parts.
    pub fn new(server: HttpServerConfig, storage: StorageConfig, database: DatabaseConfig) -> (r:
        AppConfig)
        ensures
            r.server == server,
            r.storage == storage,
            r.database == database,
    {
        AppConfig { server, storage, database }
    }

    /// The database URL: the configured one, or an embedded database file
    /// under the storage directory when none (or an empty one) is set.
    pub fn database_url(&self) -> (r: String)
        ensures
            r@ == match self.database.url {
                Some(u) => if u@.len() > 0 {
                    u@
                } else {
                    "sqlite://"@ + self.storage.path@ + "/"@ + "data.db"@
                },
                None => "sqlite://"@ + self.storage.path@ + "/"@ + "data.db"@,
            },
    {
        if let Some(u) = &self.database.url {
            if !u.as_str().is_empty() {
                return String::from_str(u.as_str());
            }
        }
        let mut s = String::from_str("sqlite://");
        let p = self.storage.path("data.db");
        s.append(p.as_str());
        proof {
            assert(s@ =~= "sqlite://"@ + self.storage.path@ + "/"@ + "data.db"@);
        }
        s
    }
}

} // verus!
