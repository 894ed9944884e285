use vstd::prelude::*;

use crate::text::{
    decimal, last_index_of, parse_port, port_value, rfind_char, starts_with, trim, trimmed, u64_text,
};

verus! {

/// What `urlencoding::encode` makes of a string.
pub uninterp spec fn url_encoded(s: Seq<char>) -> Seq<char>;

/// Relies on `urlencoding::encode`: percent-encoding of every byte but ASCII
/// letters, digits and `-`, `_`, `.`, `~`; the result depends on the text
/// alone.
#[verifier::external_body]
fn url_encode(s: &str) -> (r: String)
    ensures
        r@ == url_encoded(s@),
{
    urlencoding::encode(s).into_owned()
}

/// Settings of the service.
#[derive(Clone, Debug, PartialEq, Eq)]
pub struct Config {
    pub database_url: String,
    pub api_key: String,
    pub port: u16,
    pub rust_log: String,
    /// The pub/sub broker, where one is configured.
    pub nats_config: Option<NatsConfig>,
}

/// Where the pub/sub broker is, and the credentials for it.
#[derive(Clone, Debug, PartialEq, Eq)]
pub struct NatsConfig {
    pub host: String,
    pub port: u16,
    pub user: Option<String>,
    pub password: Option<String>,
}

/// The raw settings, one per environment variable, as read.
#[derive(Clone, Debug, PartialEq, Eq)]
pub struct ConfigVars {
    pub pg_host: Option<String>,
    pub pg_port: Option<String>,
    pub pg_user: Option<String>,
    pub pg_password: Option<String>,
    pub pg_db_name: Option<String>,
    pub api_key: Option<String>,
    pub port: Option<String>,
    pub rust_log: Option<String>,
    pub nats_host: Option<String>,
    pub nats_port: Option<String>,
    pub nats_user: Option<String>,
    pub nats_password: Option<String>,
}

/// A port setting: its value where it reads as a port number, else `default`.
pub open spec fn port_or(raw: Option<String>, default: u16) -> u16 {
    match raw {
        Some(t) => match port_value(t@) {
            Some(p) => p,
            None => default,
        },
        None => default,
    }
}

pub open spec fn port_setting(raw: Option<String>) -> Option<u16> {
    match raw {
        Some(t) => port_value(t@),
        None => None,
    }
}

fn read_port(raw: &Option<String>) -> (r: Option<u16>)
    ensures
        r == port_setting(*raw),
{
    match raw {
        Some(t) => parse_port(t.as_str()),
        None => None,
    }
}

/// What is wrong with the settings, if anything, in the order checked: the
/// required database variables, then the API key.
pub open spec fn config_problem(v: ConfigVars) -> Option<Seq<char>> {
    if v.pg_host is None {
        Some("PG_HOST is required"@)
    } else if v.pg_user is None {
        Some("PG_USER is required"@)
    } else if v.pg_password is None {
        Some("PG_PASSWORD is required"@)
    } else if v.pg_db_name is None {
        Some("PG_DB_NAME is required"@)
    } else if v.api_key is None {
        Some("API_KEY environment variable is required"@)
    } else if v.api_key.unwrap()@.len() < MIN_API_KEY_LEN {
        Some(
            "API_KEY must be at least 32 characters long (current length: "@ + decimal(
                v.api_key.unwrap()@.len(),
            ) + ")"@,
        )
    } else {
        None
    }
}

/// Default port of the store's database server.
pub const DEFAULT_PG_PORT: u16 = 5432;

/// Default port of the pub/sub broker.
pub const DEFAULT_NATS_PORT: u16 = 4222;

/// Default port of the admission API.
pub const DEFAULT_PORT: u16 = 8080;

/// Fewest characters an API key may have.
pub const MIN_API_KEY_LEN: usize = 32;

pub open spec fn postgres_url(url: Seq<char>) -> bool {
    "postgresql://"@.is_prefix_of(url) || "postgres://"@.is_prefix_of(url)
}

pub open spec fn database_url_spec(
    host: Seq<char>,
    port: u16,
    user: Seq<char>,
    password: Seq<char>,
    db_name: Seq<char>,
) -> Seq<char> {
    "postgresql://"@ + url_encoded(user) + ":"@ + url_encoded(password) + "@"@ + host + ":"@
        + decimal(port as nat) + "/"@ + db_name
}

/// An optional credential: absent when missing or blank.
pub open spec fn credential(s: Option<String>) -> Option<String> {
    match s {
        Some(v) => if trimmed(v@).len() == 0 {
            None
        } else {
            Some(v)
        },
        None => None,
    }
}

fn non_blank(s: Option<String>) -> (r: Option<String>)
    ensures
        r == credential(s),
{
    match s {
        Some(v) => {
            if trim(v.as_str()).is_empty() {
                None
            } else {
                Some(v)
            }
        },
        None => None,
    }
}

impl Config {
    /// Accepts only `postgresql://` and `postgres://` URLs.
    pub fn validate_database_url(url: &str) -> (r: Result<(), String>)
        ensures
            r is Ok <==> postgres_url(url@),
            r matches Err(e) ==> e@
                == "DATABASE_URL must start with 'postgresql://' or 'postgres://' (got: "@ + url@
                + ")"@,
    {
        if !starts_with(url, "postgresql://") && !starts_with(url, "postgres://") {
            return Err(
                String::from_str(
                    "DATABASE_URL must start with 'postgresql://' or 'postgres://' (got: ",
                ).concat(url).concat(")"),
            );
        }
        Ok(())
    }

    /// The connection URL from its parts, user and password percent-encoded.
    pub fn build_database_url(
        host: &str,
        port: u16,
        user: &str,
        password: &str,
        db_name: &str,
    ) -> (r: String)
        ensures
            r@ == database_url_spec(host@, port, user@, password@, db_name@),
    {
        let encoded_user = url_encode(user);
        let encoded_password = url_encode(password);
        let port_text = u64_text(port as u64);
        String::from_str("postgresql://").concat(encoded_user.as_str()).concat(":").concat(
            encoded_password.as_str(),
        ).concat("@").concat(host).concat(":").concat(port_text.as_str()).concat("/").concat(
            db_name,
        )
    }

    /// Accepts an API key of at least 32 characters.
    pub fn check_api_key(api_key: &str) -> (r: Result<(), String>)
        ensures
            r is Ok <==> api_key@.len() >= MIN_API_KEY_LEN,
            r matches Err(e) ==> e@ == "API_KEY must be at least 32 characters long (current length: "@
                + decimal(api_key@.len()) + ")"@,
    {
        let n = api_key.unicode_len();
        if n < MIN_API_KEY_LEN {
            return Err(
                String::from_str(
                    "API_KEY must be at least 32 characters long (current length: ",
                ).concat(u64_text(n as u64).as_str()).concat(")"),
            );
        }
        Ok(())
    }

    /// The broker settings: none without a host; the port defaults to 4222;
    /// a blank user or password counts as absent.
    pub fn build_nats_config(
        host: Option<String>,
        port: Option<u16>,
        user: Option<String>,
        password: Option<String>,
    ) -> (r: Option<NatsConfig>)
        ensures
            host is None ==> r is None,
            host matches Some(h) ==> (r matches Some(c) && c.host == h && c.port == (match port {
                Some(p) => p,
                None => DEFAULT_NATS_PORT,
            }) && c.user == credential(user) && c.password == credential(password)),
    {
        match host {
            None => None,
            Some(h) => Some(
                NatsConfig {
                    host: h,
                    port: match port {
                        Some(p) => p,
                        None => DEFAULT_NATS_PORT,
                    },
                    user: non_blank(user),
                    password: non_blank(password),
                },
            ),
        }
    }
}

impl Config {
    /// Assembles the settings: the database variables and the API key are
    /// required, the key at least 32 characters long; the ports default to
    /// 5432 and 8080 where absent or not a port number, the log level to
    /// `info`; the broker is configured only with a host.
    pub fn from_vars(v: ConfigVars) -> (r: Result<Config, String>)
        ensures
            r is Err <==> config_problem(v) is Some,
            r matches Err(e) ==> Some(e@) == config_problem(v),
            r matches Ok(c) ==> ({
                &&& c.database_url@ == database_url_spec(
                    v.pg_host.unwrap()@,
                    port_or(v.pg_port, DEFAULT_PG_PORT),
                    v.pg_user.unwrap()@,
                    v.pg_password.unwrap()@,
                    v.pg_db_name.unwrap()@,
                )
                &&& c.api_key == v.api_key.unwrap()
                &&& c.port == port_or(v.port, DEFAULT_PORT)
                &&& c.rust_log@ == (match v.rust_log {
                    Some(l) => l@,
                    None => "info"@,
                })
                &&& (v.nats_host is None ==> c.nats_config is None)
                &&& (v.nats_host matches Some(h) ==> (c.nats_config matches Some(n) && n.host == h
                    && n.port == port_or(v.nats_port, DEFAULT_NATS_PORT) && n.user == credential(
                    v.nats_user,
                ) && n.password == credential(v.nats_password)))
            }),
    {
        let host = match &v.pg_host {
            Some(h) => h,
            None => {
                return Err(String::from_str("PG_HOST is required"));
            },
        };
        let user = match &v.pg_user {
            Some(u) => u,
            None => {
                return Err(String::from_str("PG_USER is required"));
            },
        };
        let password = match &v.pg_password {
            Some(p) => p,
            None => {
                return Err(String::from_str("PG_PASSWORD is required"));
            },
        };
        let db_name = match &v.pg_db_name {
            Some(d) => d,
            None => {
                return Err(String::from_str("PG_DB_NAME is required"));
            },
        };
        let pg_port = match read_port(&v.pg_port) {
            Some(p) => p,
            None => DEFAULT_PG_PORT,
        };
        let database_url = Config::build_database_url(
            host.as_str(),
            pg_port,
            user.as_str(),
            password.as_str(),
            db_name.as_str(),
        );
        proof {
            reveal_strlit("postgresql://");
            assert(database_url@.subrange(0, 13) =~= "postgresql://"@);
        }
        match Config::validate_database_url(database_url.as_str()) {
            Ok(()) => {},
            Err(e) => {
                return Err(e);
            },
        }
        let api_key = match &v.api_key {
            Some(k) => k.clone(),
            None => {
                return Err(String::from_str("API_KEY environment variable is required"));
            },
        };
        match Config::check_api_key(api_key.as_str()) {
            Ok(()) => {},
            Err(e) => {
                return Err(e);
            },
        }
        let port = match read_port(&v.port) {
            Some(p) => p,
            None => DEFAULT_PORT,
        };
        let rust_log = match &v.rust_log {
            Some(l) => l.clone(),
            None => String::from_str("info"),
        };
        let nats_config = Config::build_nats_config(
            v.nats_host,
            read_port(&v.nats_port),
            v.nats_user,
            v.nats_password,
        );
        Ok(Config { database_url, api_key, port, rust_log, nats_config })
    }
}

impl NatsConfig {
    /// The broker's address, `nats://host:port`.
    pub fn url(&self) -> (r: String)
        ensures
            r@ == "nats://"@ + self.host@ + ":"@ + decimal(self.port as nat),
    {
        String::from_str("nats://").concat(self.host.as_str()).concat(":").concat(
            u64_text(self.port as u64).as_str(),
        )
    }
}

/// A connection URL with the password between the last `:` before the last
/// `@` and that `@` replaced by `****`; unchanged without such a pair.
pub open spec fn masked(url: Seq<char>) -> Seq<char> {
    match last_index_of(url, '@') {
        None => url,
        Some(at) => match last_index_of(url.subrange(0, at), ':') {
            None => url,
            Some(colon) => url.subrange(0, colon + 1) + "****"@ + url.subrange(at, url.len() as int),
        },
    }
}

proof fn lemma_last_index_in_range(s: Seq<char>, c: char)
    ensures
        last_index_of(s, c) matches Some(i) ==> 0 <= i < s.len() && s[i] == c,
    decreases s.len(),
{
    if s.len() > 0 && s.last() != c {
        lemma_last_index_in_range(s.drop_last(), c);
    }
}

/// Hides the password of a connection URL, for logging.
pub fn mask_password(url: &str) -> (r: String)
    ensures
        r@ == masked(url@),
{
    let n = url.unicode_len();
    proof {
        assert(url@.subrange(0, n as int) == url@);
        lemma_last_index_in_range(url@, '@');
    }
    match rfind_char(url, n, '@') {
        None => String::from_str(url),
        Some(at) => {
            proof {
                lemma_last_index_in_range(url@.subrange(0, at as int), ':');
            }
            match rfind_char(url, at, ':') {
                None => String::from_str(url),
                Some(colon) => {
                    String::from_str(url.substring_char(0, colon + 1)).concat("****").concat(
                        url.substring_char(at, n),
                    )
                },
            }
        },
    }
}

} // verus!
