//! Settings needed before the database is open, read once at start.

use vstd::prelude::*;
use crate::docker_args::{join_path, lemma_joined_stays_plain, path_joined, plain_base};
use crate::text::to_owned_str;

verus! {

/// Bootstrap settings of the server. Paths are kept as text.
#[derive(Debug, Clone)]
pub struct Config {
    /// Where the HTTP server listens, such as `0.0.0.0:8080`.
    pub bind_addr: String,
    pub database_path: String,
    /// The data root as the server itself sees it; all its own file work happens here.
    pub sahai_data_root: String,
    /// The same data root as the Docker daemon sees it; bind mounts are built from it.
    pub host_data_root: String,
    pub web_dist_dir: String,
    /// The environment file shared with Traefik, directly under the data root.
    pub env_file_path: String,
}

/// `r` is `root` joined with `first`, then with `second`.
pub open spec fn joined_twice(r: Seq<char>, root: Seq<char>, first: Seq<char>, second: Seq<char>) -> bool {
    exists|mid: Seq<char>| #[trigger] path_joined(mid, root, first) && path_joined(r, mid, second)
}

pub open spec fn or_default(v: Option<String>, d: Seq<char>) -> Seq<char> {
    match v {
        Some(s) => s@,
        None => d,
    }
}

impl Config {
    /// The configuration from the values of its environment variables (`None` where one
    /// is not set): the data root defaults to `/var/sahai`, the database to
    /// `<root>/db/sahai.sqlite3`, the web files to `/app/web/dist`, the address to
    /// `0.0.0.0:8080`, and the host's view of the data root to the server's own. The
    /// environment file is always `<root>/.sahai.env`. Both paths are built from the
    /// server's own data root, never from the host's.
    pub fn from_values(
        data_root: Option<String>,
        database_path: Option<String>,
        web_dist_dir: Option<String>,
        host_data_root: Option<String>,
        bind_addr: Option<String>,
    ) -> (r: Config)
        ensures
            r.sahai_data_root@ == or_default(data_root, "/var/sahai"@),
            database_path matches Some(p) ==> r.database_path == p,
            database_path is None && plain_base(r.sahai_data_root@) ==> joined_twice(
                r.database_path@,
                r.sahai_data_root@,
                "db"@,
                "sahai.sqlite3"@,
            ),
            r.web_dist_dir@ == or_default(web_dist_dir, "/app/web/dist"@),
            plain_base(r.sahai_data_root@) ==> path_joined(
                r.env_file_path@,
                r.sahai_data_root@,
                ".sahai.env"@,
            ),
            r.host_data_root@ == or_default(host_data_root, r.sahai_data_root@),
            r.bind_addr@ == or_default(bind_addr, "0.0.0.0:8080"@),
    {
        let root = match data_root {
            Some(r) => r,
            None => to_owned_str("/var/sahai"),
        };
        let database_path = match database_path {
            Some(p) => p,
            None => {
                proof {
                    reveal_strlit("db");
                    reveal_strlit("sahai.sqlite3");
                }
                let db_dir = join_path(root.as_str(), "db");
                proof {
                    if plain_base(root@) {
                        lemma_joined_stays_plain(db_dir@, root@, "db"@);
                    }
                }
                let p = join_path(db_dir.as_str(), "sahai.sqlite3");
                assert(plain_base(root@) ==> path_joined(db_dir@, root@, "db"@) && path_joined(
                    p@,
                    db_dir@,
                    "sahai.sqlite3"@,
                ));
                p
            },
        };
        let web_dist_dir = match web_dist_dir {
            Some(d) => d,
            None => to_owned_str("/app/web/dist"),
        };
        proof {
            reveal_strlit(".sahai.env");
        }
        let env_file_path = join_path(root.as_str(), ".sahai.env");
        let host_data_root = match host_data_root {
            Some(h) => h,
            None => root.clone(),
        };
        let bind_addr = match bind_addr {
            Some(b) => b,
            None => to_owned_str("0.0.0.0:8080"),
        };
        Config { bind_addr, database_path, sahai_data_root: root, host_data_root, web_dist_dir, env_file_path }
    }

    /// Where the Traefik route files are written: `<root>/traefik/dynamic`, built from
    /// the server's own data root (`host_data_root` plays no part).
    pub fn traefik_dynamic_dir(&self) -> (r: String)
        ensures
            plain_base(self.sahai_data_root@) ==> joined_twice(
                r@,
                self.sahai_data_root@,
                "traefik"@,
                "dynamic"@,
            ),
    {
        proof {
            reveal_strlit("traefik");
            reveal_strlit("dynamic");
        }
        let t = join_path(self.sahai_data_root.as_str(), "traefik");
        proof {
            if plain_base(self.sahai_data_root@) {
                lemma_joined_stays_plain(t@, self.sahai_data_root@, "traefik"@);
            }
        }
        let r = join_path(t.as_str(), "dynamic");
        assert(plain_base(self.sahai_data_root@) ==> path_joined(t@, self.sahai_data_root@, "traefik"@)
            && path_joined(r@, t@, "dynamic"@));
        r
    }

    /// The volume root as the server sees it, for removing volumes: `<root>/services`,
    /// built from the server's own data root. Bind mounts name the same place from
    /// `host_data_root` instead (`naming::volume_host_path`).
    pub fn services_volume_root(&self) -> (r: String)
        ensures
            plain_base(self.sahai_data_root@) ==> path_joined(r@, self.sahai_data_root@, "services"@),
    {
        proof {
            reveal_strlit("services");
        }
        join_path(self.sahai_data_root.as_str(), "services")
    }
}

} // verus!
