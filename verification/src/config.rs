//! Application configuration: the values an operator supplies for the
//! database connection and the server address, and the strings derived
//! from them.
//!
//! Loading the values from the process environment is left to the shell of
//! the application; this module holds the assembled configuration and
//! derives the connection URL and server address from it.

use vstd::prelude::*;
use vstd::string::StringExecFns;

verus! {

/// The decimal digit character for `d` < 10.
pub open spec fn dec_digit(d: nat) -> char {
    if d == 0 {
        '0'
    } else if d == 1 {
        '1'
    } else if d == 2 {
        '2'
    } else if d == 3 {
        '3'
    } else if d == 4 {
        '4'
    } else if d == 5 {
        '5'
    } else if d == 6 {
        '6'
    } else if d == 7 {
        '7'
    } else if d == 8 {
        '8'
    } else {
        '9'
    }
}

/// The decimal representation of `n`, most significant digit first, with
/// no leading zeros except for zero itself.
pub open spec fn dec_str(n: nat) -> Seq<char>
    decreases n,
{
    if n < 10 {
        seq![dec_digit(n)]
    } else {
        dec_str(n / 10) + seq![dec_digit(n % 10)]
    }
}

/// The one-character string for the digit `d`.
fn digit_str(d: u16) -> (s: &'static str)
    requires
        d < 10,
    ensures
        s@ =~= seq![dec_digit(d as nat)],
{
    proof {
        reveal_strlit("0");
        reveal_strlit("1");
        reveal_strlit("2");
        reveal_strlit("3");
        reveal_strlit("4");
        reveal_strlit("5");
        reveal_strlit("6");
        reveal_strlit("7");
        reveal_strlit("8");
        reveal_strlit("9");
    }
    if d == 0 {
        "0"
    } else if d == 1 {
        "1"
    } else if d == 2 {
        "2"
    } else if d == 3 {
        "3"
    } else if d == 4 {
        "4"
    } else if d == 5 {
        "5"
    } else if d == 6 {
        "6"
    } else if d == 7 {
        "7"
    } else if d == 8 {
        "8"
    } else {
        "9"
    }
}

/// The decimal string for `n`.
fn u16_to_string(n: u16) -> (s: String)
    ensures
        s@ =~= dec_str(n as nat),
    decreases n,
{
    if n < 10 {
        digit_str(n).to_owned()
    } else {
        let mut s = u16_to_string(n / 10);
        s.append(digit_str(n % 10));
        proof {
            assert(s@ =~= dec_str((n / 10) as nat) + seq![dec_digit((n % 10) as nat)]);
        }
        s
    }
}

/// The connection URL assembled from the database configuration values.
pub open spec fn database_url_of(c: AppConfig) -> Seq<char> {
    "postgres://"@ + c.database_username@ + seq![':'] + c.database_password@ + seq!['@']
        + c.database_host@ + seq![':'] + dec_str(c.database_port as nat) + seq!['/']
        + c.database_name@
}

/// The server address assembled from the server configuration values.
pub open spec fn server_address_of(c: AppConfig) -> Seq<char> {
    c.server_host@ + seq![':'] + dec_str(c.server_port as nat)
}

/// Configuration for the application: the database and server values, as
/// loaded from the environment by the surrounding shell.
pub struct AppConfig {
    /// The database user name.
    pub database_username: String,
    /// The database password.
    pub database_password: String,
    /// The database host.
    pub database_host: String,
    /// The database port.
    pub database_port: u16,
    /// The database name.
    pub database_name: String,
    /// The maximum number of pooled database connections.
    pub database_max_connections: u32,
    /// The idle timeout for pooled database connections, in seconds.
    pub database_idle_timeout: u64,
    /// The host the server binds to.
    pub server_host: String,
    /// The port the server binds to.
    pub server_port: u16,
}

impl AppConfig {
    /// Constructs the database connection URL from the configured values.
    pub fn get_database_url(&self) -> (r: String)
        ensures
            r@ == database_url_of(*self),
    {
        proof {
            reveal_strlit("postgres://");
            reveal_strlit(":");
            reveal_strlit("@");
            reveal_strlit("/");
        }
        let mut s: String = "postgres://".to_owned();
        s.append(self.database_username.as_str());
        s.append(":");
        s.append(self.database_password.as_str());
        s.append("@");
        s.append(self.database_host.as_str());
        s.append(":");
        let port = u16_to_string(self.database_port);
        s.append(port.as_str());
        s.append("/");
        s.append(self.database_name.as_str());
        proof {
            assert(":"@ =~= seq![':']);
            assert("@"@ =~= seq!['@']);
            assert("/"@ =~= seq!['/']);
            assert(s@ =~= database_url_of(*self));
        }
        s
    }

    /// Constructs the server bind address from the configured values.
    pub fn get_server_address(&self) -> (r: String)
        ensures
            r@ == server_address_of(*self),
    {
        proof {
            reveal_strlit(":");
        }
        let mut s = self.server_host.clone();
        s.append(":");
        let port = u16_to_string(self.server_port);
        s.append(port.as_str());
        proof {
            assert(":"@ =~= seq![':']);
            assert(s@ =~= server_address_of(*self));
        }
        s
    }

    /// The maximum number of pooled database connections.
    pub fn get_max_connections(&self) -> (r: u32)
        ensures
            r == self.database_max_connections,
    {
        self.database_max_connections
    }

    /// The idle timeout for pooled database connections, in seconds.
    pub fn get_idle_timeout(&self) -> (r: u64)
        ensures
            r == self.database_idle_timeout,
    {
        self.database_idle_timeout
    }
}

} // verus!
