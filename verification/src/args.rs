//! The proxy's settings: where it listens and how it reaches Postgres.
use vstd::prelude::*;
use crate::text::same_text;

verus! {

/// Settings of the proxy, as given on the command line and overridden
/// by the environment.
#[derive(Clone)]
pub struct Args {
    /// Host name the proxy announces; `0.0.0.0` also makes it listen on all interfaces.
    pub host: String,
    /// Port the proxy listens on.
    pub port: String,
    /// Host of the Postgres server.
    pub pg_host: String,
    /// Port of the Postgres server.
    pub pg_port: String,
    /// Postgres user.
    pub user: String,
    /// Postgres password.
    pub password: String,
}

/// The connection string handed to Postgres for these settings: the
/// Postgres host and port, user and password.
pub open spec fn db_string_spec(
    pg_host: Seq<char>,
    pg_port: Seq<char>,
    user: Seq<char>,
    password: Seq<char>,
) -> Seq<char> {
    "host="@ + pg_host + " port="@ + pg_port + " user="@ + user + " password="@ + password
}

/// The address the proxy binds to for the announced host `host`.
pub open spec fn bind_address_spec(host: Seq<char>) -> Seq<char> {
    if host == "0.0.0.0"@ {
        host
    } else {
        "127.0.0.1"@
    }
}

impl Default for Args {
    /// The documented defaults: the proxy on `localhost:3000`, Postgres on
    /// `localhost:5432` as user `postgres` with password `mysecretpassword`.
    fn default() -> (r: Args)
        ensures
            r.host@ == "localhost"@,
            r.port@ == "3000"@,
            r.pg_host@ == "localhost"@,
            r.pg_port@ == "5432"@,
            r.user@ == "postgres"@,
            r.password@ == "mysecretpassword"@,
    {
        Args {
            host: "localhost".to_owned(),
            port: "3000".to_owned(),
            pg_host: "localhost".to_owned(),
            pg_port: "5432".to_owned(),
            user: "postgres".to_owned(),
            password: "mysecretpassword".to_owned(),
        }
    }
}

impl Args {
    /// Settings made of the given values.
    pub fn new(
        host: String,
        port: String,
        pg_host: String,
        pg_port: String,
        user: String,
        password: String,
    ) -> (r: Args)
        ensures
            r.host == host,
            r.port == port,
            r.pg_host == pg_host,
            r.pg_port == pg_port,
            r.user == user,
            r.password == password,
    {
        Args { host, port, pg_host, pg_port, user, password }
    }

    /// The announced host.
    pub fn host(&self) -> (r: &str)
        ensures
            r@ == self.host@,
    {
        self.host.as_str()
    }

    /// The port the proxy listens on.
    pub fn port(&self) -> (r: &str)
        ensures
            r@ == self.port@,
    {
        self.port.as_str()
    }

    /// The Postgres host.
    pub fn pg_host(&self) -> (r: &str)
        ensures
            r@ == self.pg_host@,
    {
        self.pg_host.as_str()
    }

    /// The Postgres port.
    pub fn pg_port(&self) -> (r: &str)
        ensures
            r@ == self.pg_port@,
    {
        self.pg_port.as_str()
    }

    /// Replaces the announced host; nothing else changes.
    pub fn set_host(&mut self, host: String)
        ensures
            final(self).host == host,
            final(self).port == old(self).port,
            final(self).pg_host == old(self).pg_host,
            final(self).pg_port == old(self).pg_port,
            final(self).user == old(self).user,
            final(self).password == old(self).password,
    {
        self.host = host;
    }

    /// Replaces the Postgres host; nothing else changes.
    pub fn set_pg_host(&mut self, pg_host: String)
        ensures
            final(self).pg_host == pg_host,
            final(self).host == old(self).host,
            final(self).port == old(self).port,
            final(self).pg_port == old(self).pg_port,
            final(self).user == old(self).user,
            final(self).password == old(self).password,
    {
        self.pg_host = pg_host;
    }

    /// `host=<pg_host> port=<pg_port> user=<user> password=<password>`.
    pub fn to_db_string(&self) -> (r: String)
        ensures
            r@ == db_string_spec(self.pg_host@, self.pg_port@, self.user@, self.password@),
    {
        let mut r = String::new();
        r.append("host=");
        r.append(self.pg_host.as_str());
        r.append(" port=");
        r.append(self.pg_port.as_str());
        r.append(" user=");
        r.append(self.user.as_str());
        r.append(" password=");
        r.append(self.password.as_str());
        r
    }

    /// Applies one environment variable: `HOST` replaces the announced
    /// host, `PG_HOST` the Postgres host; any other key changes nothing.
    pub fn apply_env_var(&mut self, key: &str, value: String)
        ensures
            key@ == "HOST"@ ==> final(self).host == value,
            key@ != "HOST"@ ==> final(self).host == old(self).host,
            key@ == "PG_HOST"@ ==> final(self).pg_host == value,
            key@ != "PG_HOST"@ ==> final(self).pg_host == old(self).pg_host,
            final(self).port == old(self).port,
            final(self).pg_port == old(self).pg_port,
            final(self).user == old(self).user,
            final(self).password == old(self).password,
    {
        proof {
            reveal_strlit("HOST");
            reveal_strlit("PG_HOST");
            assert("HOST"@.len() != "PG_HOST"@.len());
        }
        if same_text(key, "HOST") {
            self.set_host(value);
        } else if same_text(key, "PG_HOST") {
            self.set_pg_host(value);
        }
    }

    /// The address to bind to: the announced host when it is `0.0.0.0`,
    /// else `127.0.0.1`.
    pub fn bind_address(&self) -> (r: &str)
        ensures
            r@ == bind_address_spec(self.host@),
    {
        if same_text(self.host.as_str(), "0.0.0.0") {
            self.host.as_str()
        } else {
            "127.0.0.1"
        }
    }
}

} // verus!
