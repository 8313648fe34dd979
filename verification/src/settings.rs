//! What the command-line tools are configured with, and what they decide
//! from it before they touch the network or the disk.

use vstd::prelude::*;
use crate::naming::{filename_of, format_filename, is_valid_url, url_is_valid};

verus! {

/// Where the database is reached.
#[derive(Debug)]
pub struct DatabaseConfig {
    pub url: String,
    pub port: u16,
}

/// The database that is used where the configuration names none:
/// `localhost` at port 5432.
pub fn default_db() -> (database: DatabaseConfig)
    ensures
        database.url@ == "localhost"@,
        database.port == 5432,
{
    DatabaseConfig { url: "localhost".to_owned(), port: 5432 }
}

/// The configuration of the tools.
#[derive(Debug)]
pub struct AppConfig {
    pub debug: bool,
    pub database: DatabaseConfig,
}

impl Default for AppConfig {
    /// No debugging, and the default database.
    fn default() -> (config: Self)
        ensures
            !config.debug,
            config.database.url@ == "localhost"@,
            config.database.port == 5432,
    {
        AppConfig { debug: false, database: default_db() }
    }
}

/// The arguments of the tools.
#[derive(Debug)]
pub struct Args {
    /// The path of the configuration file.
    pub conf: String,
    /// The name under which a download is saved.
    pub name: Option<String>,
    /// The address to download from.
    pub download: Option<String>,
}

/// How much the tools log.
#[derive(Debug, Clone, Copy, PartialEq, Eq, Structural)]
pub enum LogLevel {
    Debug,
    Info,
    Error,
}

/// The lower-case form that `str::to_lowercase` gives for `text`.
pub uninterp spec fn lowercase(text: Seq<char>) -> Seq<char>;

/// `str::to_lowercase` of std: the lower-case form of the text by Unicode's
/// rules, which depends on the text alone. `lowercase` is its name.
#[verifier::external_body]
pub(crate) fn to_lowercase(text: &str) -> (lowered: String)
    ensures
        lowered@ == lowercase(text@),
{
    text.to_lowercase()
}

/// The level that a word in lower case names: `debug` and `error` name
/// theirs, every other word names `Info`.
pub open spec fn level_named(word: Seq<char>) -> LogLevel {
    if word == "debug"@ {
        LogLevel::Debug
    } else if word == "error"@ {
        LogLevel::Error
    } else {
        LogLevel::Info
    }
}

/// The level that a word in lower case names.
pub fn level_of(word: &str) -> (level: LogLevel)
    ensures
        level == level_named(word@),
{
    let word = word.to_owned();
    if word == "debug".to_owned() {
        LogLevel::Debug
    } else if word == "error".to_owned() {
        LogLevel::Error
    } else {
        LogLevel::Info
    }
}

/// The level that a setting asks for, in whatever case it is written;
/// `Info` where there is no setting.
pub fn log_level(setting: Option<&str>) -> (level: LogLevel)
    ensures
        level == (match setting {
            Some(word) => level_named(lowercase(word@)),
            None => LogLevel::Info,
        }),
{
    match setting {
        Some(word) => level_of(to_lowercase(word).as_str()),
        None => LogLevel::Info,
    }
}

/// What the arguments ask to download.
#[derive(Debug)]
pub enum Download {
    /// Name or address is missing: nothing is downloaded.
    NotAsked,
    /// The address is neither an `http://` nor an `https://` address.
    InvalidUrl,
    /// The text at `url` goes to the file `filename`.
    Fetch { url: String, filename: String },
}

/// The download that `args` ask for. It takes both a name and an address;
/// the address must be valid, and the file is named after the name.
pub fn plan_download(args: &Args) -> (plan: Download)
    ensures
        match plan {
            Download::NotAsked => args.name is None || args.download is None,
            Download::InvalidUrl => {
                &&& args.name is Some
                &&& args.download matches Some(url)
                &&& !url_is_valid(url@)
            },
            Download::Fetch { url, filename } => {
                &&& args.name matches Some(name)
                &&& args.download matches Some(address)
                &&& url_is_valid(address@)
                &&& url@ == address@
                &&& filename@ == filename_of(name@)
            },
        },
{
    match (&args.name, &args.download) {
        (Some(name), Some(url)) => {
            if !is_valid_url(url.as_str()) {
                Download::InvalidUrl
            } else {
                Download::Fetch { url: url.clone(), filename: format_filename(name.as_str()) }
            }
        },
        _ => Download::NotAsked,
    }
}

} // verus!
