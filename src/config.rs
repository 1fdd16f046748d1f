//! The keys of the subscription list that the command line can read, clear
//! or set, and the report it prints.
use vstd::prelude::*;
use vstd::string::*;
use crate::error::Error;
use crate::model::{Config, FeedConfigView};
use crate::text::same_text;

verus! {

/// The keys of the configuration.
#[derive(Clone, Copy, Debug, PartialEq, Eq, Structural)]
pub enum ConfigKey {
    /// The subscription list.
    Feeds,
}

/// The key `feeds`.
pub const FEEDS_KEY: &'static str = "feeds";

/// The key named `key`, or `UnknownKey` with `key` where there is none.
pub fn parse_key(key: &str) -> (r: Result<ConfigKey, Error>)
    ensures
        key@ == FEEDS_KEY@ ==> r == Ok::<ConfigKey, Error>(ConfigKey::Feeds),
        key@ != FEEDS_KEY@ ==> (r matches Err(Error::UnknownKey(k)) && k@ == key@),
{
    if same_text(key, FEEDS_KEY) {
        Ok(ConfigKey::Feeds)
    } else {
        Err(Error::UnknownKey(String::from_str(key)))
    }
}

/// The report of the subscription list: a heading line, then one line per
/// subscription with its name and URL.
pub open spec fn feeds_report(feeds: Seq<FeedConfigView>) -> Seq<char>
    decreases feeds.len(),
{
    if feeds.len() == 0 {
        "Feeds\n"@
    } else {
        feeds_report(feeds.drop_last()) + "    `"@ + feeds.last().name + "`: "@ + feeds.last().url
            + "\n"@
    }
}

/// What a value given without a key is told.
pub const NO_KEY: &'static str = "no key value";

/// What `config` asks for on the command line, from whether `--delete` was
/// given and the key and value given.
#[derive(Clone, Debug)]
pub enum ConfigCommand {
    /// Print the whole configuration.
    ShowAll,
    /// Print the value of a key.
    Report(String),
    /// Clear a key.
    Delete(String),
    /// Assign a value to a key.
    Update(String, String),
}

/// The command that the arguments of `config` ask for: a key and a value
/// assign; a key alone is reported, or cleared with `delete`; nothing prints
/// everything; a value without a key is an `InvalidArgument` saying "no key value".
pub fn config_command(delete: bool, key: Option<String>, value: Option<String>) -> (r: Result<
    ConfigCommand,
    Error,
>)
    ensures
        match (key, value) {
            (Some(k), Some(v)) => r == Ok::<ConfigCommand, Error>(ConfigCommand::Update(k, v)),
            (Some(k), None) => if delete {
                r == Ok::<ConfigCommand, Error>(ConfigCommand::Delete(k))
            } else {
                r == Ok::<ConfigCommand, Error>(ConfigCommand::Report(k))
            },
            (None, Some(_)) => (r matches Err(Error::InvalidArgument(m)) && m@ == NO_KEY@),
            (None, None) => r == Ok::<ConfigCommand, Error>(ConfigCommand::ShowAll),
        },
{
    match (key, value) {
        (Some(k), Some(v)) => Ok(ConfigCommand::Update(k, v)),
        (Some(k), None) => {
            if delete {
                Ok(ConfigCommand::Delete(k))
            } else {
                Ok(ConfigCommand::Report(k))
            }
        },
        (None, Some(_)) => Err(Error::InvalidArgument(String::from_str(NO_KEY))),
        (None, None) => Ok(ConfigCommand::ShowAll),
    }
}

impl Config {
    /// The report of the subscription list.
    pub fn report_feeds(&self) -> (r: String)
        ensures
            r@ == feeds_report(self@),
    {
        let mut r = String::from_str("Feeds\n");
        let mut i: usize = 0;
        assert(self@.subrange(0, 0).len() == 0);
        while i < self.feeds.len()
            invariant
                i <= self.feeds.len(),
                r@ == feeds_report(self@.subrange(0, i as int)),
            decreases self.feeds.len() - i,
        {
            let f = &self.feeds[i];
            r.append("    `");
            r.append(f.name.as_str());
            r.append("`: ");
            r.append(f.url.as_str());
            r.append("\n");
            assert(self@.subrange(0, i as int + 1).drop_last() =~= self@.subrange(0, i as int));
            assert(self@.subrange(0, i as int + 1).last() == f@);
            i += 1;
        }
        assert(self@.subrange(0, self@.len() as int) =~= self@);
        r
    }

    /// The value of the key `key`, as a report; `UnknownKey` for any other key.
    pub fn key_report(&self, key: &str) -> (r: Result<String, Error>)
        ensures
            key@ == FEEDS_KEY@ ==> (r matches Ok(s) && s@ == feeds_report(self@)),
            key@ != FEEDS_KEY@ ==> (r matches Err(Error::UnknownKey(k)) && k@ == key@),
    {
        match parse_key(key) {
            Ok(ConfigKey::Feeds) => Ok(self.report_feeds()),
            Err(e) => Err(e),
        }
    }

    /// Clears the key `key`: `feeds` empties the subscription list. Any other
    /// key is an `UnknownKey` and changes nothing.
    pub fn delete_key(&mut self, key: &str) -> (r: Result<(), Error>)
        ensures
            key@ == FEEDS_KEY@ ==> r is Ok && final(self)@.len() == 0,
            key@ != FEEDS_KEY@ ==> final(self)@ == old(self)@,
            key@ != FEEDS_KEY@ ==> (r matches Err(Error::UnknownKey(k)) && k@ == key@),
    {
        match parse_key(key) {
            Ok(ConfigKey::Feeds) => {
                self.feeds.truncate(0);
                Ok(())
            },
            Err(e) => Err(e),
        }
    }

    /// Assigns `value` to the key `key`. No key takes a value: `feeds` is
    /// changed by adding and removing feeds (`ReadOnlyKey`), and any other key
    /// is an `UnknownKey`. Nothing changes.
    pub fn update_key(&mut self, key: &str, value: String) -> (r: Result<(), Error>)
        ensures
            final(self)@ == old(self)@,
            key@ == FEEDS_KEY@ ==> (r matches Err(Error::ReadOnlyKey(k)) && k@ == key@),
            key@ != FEEDS_KEY@ ==> (r matches Err(Error::UnknownKey(k)) && k@ == key@),
    {
        match parse_key(key) {
            Ok(ConfigKey::Feeds) => Err(Error::ReadOnlyKey(String::from_str(key))),
            Err(e) => Err(e),
        }
    }
}

} // verus!
