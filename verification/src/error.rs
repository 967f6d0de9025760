//! What can go wrong, in configuration and in the store.

use std::num::ParseIntError;

use vstd::prelude::*;
use vstd::string::*;

use crate::envs::FM_ROCKSDB_WAL_SYNC_INTERVAL_MS_ENV;
use crate::text::{decimal, to_decimal};

verus! {

/// A configuration that is refused.
#[derive(Debug, PartialEq, Eq)]
pub enum ConfigError {
    /// The value of the variable is not an unsigned number that fits.
    InvalidSize { env_name: String, cause: ParseIntError },
    /// The value of the variable is a number, but not a power of two.
    NotPowerOfTwo { env_name: String },
    /// The sync interval is not an unsigned number that fits.
    InvalidInterval { cause: ParseIntError },
    /// The sync interval is above the largest that is allowed.
    IntervalTooLong { millis: u64 },
    /// The path of the database has no parent directory.
    NoBaseDir,
}

/// The text with which a refused configuration is reported.
pub open spec fn config_message(err: ConfigError) -> Seq<char> {
    match err {
        ConfigError::InvalidSize { env_name, .. } => "Could not parse "@ + env_name@,
        ConfigError::NotPowerOfTwo { env_name } => env_name@ + " is not a power of 2"@,
        ConfigError::InvalidInterval { .. } => "Could not parse "@
            + FM_ROCKSDB_WAL_SYNC_INTERVAL_MS_ENV@ + " as milliseconds"@,
        ConfigError::IntervalTooLong { millis } => FM_ROCKSDB_WAL_SYNC_INTERVAL_MS_ENV@ + " is "@
            + decimal(millis as nat)
            + "ms, refusing anything above 60000ms; a larger value would leave writes un-synced almost indefinitely"@,
        ConfigError::NoBaseDir => "db path must have a base dir"@,
    }
}

impl ConfigError {
    /// The text with which the refusal is reported.
    pub fn message(&self) -> (r: String)
        ensures
            r@ == config_message(*self),
    {
        match self {
            ConfigError::InvalidSize { env_name, .. } => {
                let mut text = "Could not parse ".to_owned();
                text.append(env_name.as_str());
                text
            },
            ConfigError::NotPowerOfTwo { env_name } => {
                let mut text = env_name.as_str().to_owned();
                text.append(" is not a power of 2");
                text
            },
            ConfigError::InvalidInterval { .. } => {
                let mut text = "Could not parse ".to_owned();
                text.append(FM_ROCKSDB_WAL_SYNC_INTERVAL_MS_ENV);
                text.append(" as milliseconds");
                text
            },
            ConfigError::IntervalTooLong { millis } => {
                let mut text = FM_ROCKSDB_WAL_SYNC_INTERVAL_MS_ENV.to_owned();
                text.append(" is ");
                text.append(to_decimal(*millis).as_str());
                text.append(
                    "ms, refusing anything above 60000ms; a larger value would leave writes un-synced almost indefinitely",
                );
                text
            },
            ConfigError::NoBaseDir => "db path must have a base dir".to_owned(),
        }
    }
}

/// The kinds of errors that the store reports.
#[derive(Debug, Clone, Copy, PartialEq, Eq, Structural)]
pub enum ErrorKind {
    NotFound,
    Corruption,
    NotSupported,
    InvalidArgument,
    IOError,
    MergeInProgress,
    Incomplete,
    ShutdownInProgress,
    TimedOut,
    Aborted,
    Busy,
    Expired,
    TryAgain,
    CompactionTooLarge,
    ColumnFamilyDropped,
    Unknown,
}

/// An error that the store reports.
#[derive(Debug, PartialEq, Eq)]
pub struct StoreError {
    pub kind: ErrorKind,
    pub message: String,
}

/// An error that a database operation ends with.
#[derive(Debug, PartialEq, Eq)]
pub enum DatabaseError {
    /// Another transaction wrote the same keys; trying again may succeed.
    WriteConflict,
    /// The store failed.
    Backend(StoreError),
}

impl DatabaseError {
    pub fn backend(err: StoreError) -> (r: Self)
        ensures
            r == DatabaseError::Backend(err),
    {
        DatabaseError::Backend(err)
    }
}

/// A refusal names the variable that is to be mended, and tells what is wrong
/// with it.
pub proof fn law_messages_name_the_variable(err: ConfigError)
    ensures
        err is InvalidSize ==> config_message(err) == "Could not parse "@
            + err->InvalidSize_env_name@,
        err is NotPowerOfTwo ==> config_message(err) == err->NotPowerOfTwo_env_name@
            + " is not a power of 2"@,
        err is InvalidInterval ==> config_message(err)
            == "Could not parse "@ + "FM_ROCKSDB_WAL_SYNC_INTERVAL_MS"@ + " as milliseconds"@,
        err is IntervalTooLong ==> config_message(err) == "FM_ROCKSDB_WAL_SYNC_INTERVAL_MS"@
            + " is "@ + decimal(err->millis as nat)
            + "ms, refusing anything above 60000ms; a larger value would leave writes un-synced almost indefinitely"@,
        err is NoBaseDir ==> config_message(err) == "db path must have a base dir"@,
{
}

} // verus!
