//! The settings of the server, made from what the environment holds. The
//! caller reads the environment; what a missing value defaults to and what
//! a port number has to look like is decided here.

use crate::text::{lowercase, lowercase_form};
use vstd::prelude::*;
use vstd::string::*;

verus! {

/// The database that is used where none is named.
pub const DEFAULT_DATABASE_URL: &'static str =
    "sqlite:E:\\Windows\\Documents\\AWorkAndProjects\\python\\web\\lmoadll_bl_py\\contents\\rs3o8qxrn7.db";

/// The secret that is used where none is named.
pub const DEFAULT_JWT_SECRET: &'static str = "your-secret-key-change-in-production";

/// The address that the server binds to where none is named.
pub const DEFAULT_SERVER_HOST: &'static str = "0.0.0.0";

/// The port that the server listens on where none is named.
pub const DEFAULT_SERVER_PORT: &'static str = "2326";

/// The settings of the server.
#[derive(Debug, Clone)]
pub struct Config {
    pub database_url: String,
    pub jwt_secret: String,
    pub server_host: String,
    pub server_port: u16,
}

/// The settings as the contracts see them.
pub struct ConfigView {
    pub database_url: Seq<char>,
    pub jwt_secret: Seq<char>,
    pub server_host: Seq<char>,
    pub server_port: u16,
}

impl View for Config {
    type V = ConfigView;

    open spec fn view(&self) -> ConfigView {
        ConfigView {
            database_url: self.database_url@,
            jwt_secret: self.jwt_secret@,
            server_host: self.server_host@,
            server_port: self.server_port,
        }
    }
}

/// What `str::parse::<u16>` makes of a text: the number, or the words of
/// its error.
pub uninterp spec fn parsed_port(text: Seq<char>) -> Result<u16, Seq<char>>;

/// `str::parse::<u16>`, with the error written out by its `to_string`. The
/// contract gives the result a name and says nothing of it.
#[verifier::external_body]
fn parse_port(text: &str) -> (port: Result<u16, String>)
    ensures
        match port {
            Ok(number) => parsed_port(text@) == Ok::<u16, Seq<char>>(number),
            Err(words) => parsed_port(text@) == Err::<u16, Seq<char>>(words@),
        },
{
    text.parse::<u16>().map_err(|error| error.to_string())
}

/// The value, or the default in its place.
pub open spec fn or_default(value: Option<String>, default: Seq<char>) -> Seq<char> {
    match value {
        Some(text) => text@,
        None => default,
    }
}

/// The value, or the default in its place.
fn value_or(value: Option<String>, default: &str) -> (text: String)
    ensures
        text@ == or_default(value, default@),
{
    match value {
        Some(text) => text,
        None => default.to_owned(),
    }
}

/// The settings that four values of the environment come to: each one
/// stands as it is or defaults, and the port has to be a number.
pub open spec fn settings(
    database_url: Option<String>,
    jwt_secret: Option<String>,
    server_host: Option<String>,
    server_port: Option<String>,
) -> Result<ConfigView, Seq<char>> {
    match parsed_port(or_default(server_port, DEFAULT_SERVER_PORT@)) {
        Ok(port) => Ok(
            ConfigView {
                database_url: or_default(database_url, DEFAULT_DATABASE_URL@),
                jwt_secret: or_default(jwt_secret, DEFAULT_JWT_SECRET@),
                server_host: or_default(server_host, DEFAULT_SERVER_HOST@),
                server_port: port,
            },
        ),
        Err(words) => Err("Invalid port number: "@ + words),
    }
}

impl Config {
    /// Makes the settings from the values of `DATABASE_URL`, `JWT_SECRET`,
    /// `SERVER_HOST` and `SERVER_PORT`, as far as the environment has them.
    pub fn from_env(
        database_url: Option<String>,
        jwt_secret: Option<String>,
        server_host: Option<String>,
        server_port: Option<String>,
    ) -> (made: Result<Config, String>)
        ensures
            match made {
                Ok(config) => settings(database_url, jwt_secret, server_host, server_port) == Ok::<
                    ConfigView,
                    Seq<char>,
                >(config@),
                Err(words) => settings(database_url, jwt_secret, server_host, server_port) == Err::<
                    ConfigView,
                    Seq<char>,
                >(words@),
            },
    {
        let port_text = value_or(server_port, DEFAULT_SERVER_PORT);
        match parse_port(port_text.as_str()) {
            Ok(port) => Ok(
                Config {
                    database_url: value_or(database_url, DEFAULT_DATABASE_URL),
                    jwt_secret: value_or(jwt_secret, DEFAULT_JWT_SECRET),
                    server_host: value_or(server_host, DEFAULT_SERVER_HOST),
                    server_port: port,
                },
            ),
            Err(words) => {
                let mut message: String = "Invalid port number: ".to_owned();
                message.append(words.as_str());
                Err(message)
            },
        }
    }
}

/// Whether the value of `debug` in the environment switches debugging on:
/// `true` in any case, `1` or `t`. Without a value it is off.
pub open spec fn debug_is_on(value: Option<Seq<char>>) -> bool {
    match value {
        Some(text) => lowercase_form(text) == "true"@ || text == "1"@ || text == "t"@,
        None => false,
    }
}

/// Whether the value of `debug` in the environment switches debugging on.
pub fn debug_enabled(value: Option<&str>) -> (on: bool)
    ensures
        on == debug_is_on(
            match value {
                Some(text) => Some(text@),
                None => None,
            },
        ),
{
    match value {
        Some(text) => {
            let lower = lowercase(text);
            let given: String = text.to_owned();
            lower == "true".to_owned() || given == "1".to_owned() || given == "t".to_owned()
        },
        None => false,
    }
}

} // verus!
