//! How the store is configured when it is opened.

use std::time::Duration;

use vstd::arithmetic::power2::{lemma2_to64, lemma_pow2_pos, lemma_pow2_unfold, pow2};
use vstd::prelude::*;

use crate::envs::{FM_ROCKSDB_BLOCK_CACHE_SIZE_ENV, FM_ROCKSDB_WRITE_BUFFER_SIZE_ENV};
use crate::error::ConfigError;
use crate::text::{is_usize_refusal, read_usize, unsigned_value};
use crate::wal_sync::text_of;

verus! {

/// Default write buffer size: 2 MiB.
pub const DEFAULT_WRITE_BUFFER_SIZE: usize = 2 * 1024 * 1024;

/// Default block cache size: 2 MiB. Index and filter blocks are placed in this
/// cache too, so everything is bounded. Only correctness is needed, not
/// throughput, so this is kept minimal.
pub const DEFAULT_BLOCK_CACHE_SIZE: usize = 2 * 1024 * 1024;

/// Default number of files kept open. Each open file takes memory for its
/// handle and metadata.
pub const DEFAULT_MAX_OPEN_FILES: i32 = 256;

/// `num` is 2 to the power of some natural number.
pub open spec fn power_of_two(num: nat) -> bool {
    exists|k: nat| #[trigger] pow2(k) == num
}

proof fn lemma_half_is_power_of_two(half: nat)
    requires
        half > 0,
    ensures
        power_of_two(2 * half) <==> power_of_two(half),
{
    if power_of_two(half) {
        let k = choose|k: nat| #[trigger] pow2(k) == half;
        lemma_pow2_unfold(k + 1);
        assert(pow2(k + 1) == 2 * half);
    }
    if power_of_two(2 * half) {
        let k = choose|k: nat| #[trigger] pow2(k) == 2 * half;
        if k == 0 {
            lemma2_to64();
        }
        lemma_pow2_unfold(k);
        assert(pow2((k - 1) as nat) == half);
    }
}

proof fn lemma_odd_power_of_two(num: nat)
    requires
        num % 2 == 1,
    ensures
        power_of_two(num) <==> num == 1,
{
    lemma2_to64();
    if power_of_two(num) {
        let k = choose|k: nat| #[trigger] pow2(k) == num;
        if k > 0 {
            lemma_pow2_unfold(k);
        }
    }
}

proof fn lemma_zero_is_no_power_of_two()
    ensures
        !power_of_two(0),
{
    assert forall|k: nat| #[trigger] pow2(k) != 0 by {
        lemma_pow2_pos(k);
    }
}

pub fn is_power_of_two(num: usize) -> (r: bool)
    ensures
        r == power_of_two(num as nat),
{
    if num == 0 {
        proof {
            lemma_zero_is_no_power_of_two();
        }
        return false;
    }
    let mut odd: usize = num;
    while odd % 2 == 0
        invariant
            odd > 0,
            power_of_two(num as nat) == power_of_two(odd as nat),
        decreases odd,
    {
        proof {
            lemma_half_is_power_of_two((odd / 2) as nat);
        }
        odd = odd / 2;
    }
    proof {
        lemma_odd_power_of_two(odd as nat);
    }
    odd == 1
}

/// What a setting of a size means.
pub enum SizeSetting {
    /// The variable is unset.
    Unset,
    /// So many bytes.
    Bytes(usize),
    /// This text is not a number, or one that does not fit.
    Invalid(Seq<char>),
    /// A number that is not a power of two.
    NotPowerOfTwo,
}

/// The meaning of the variable's value, where `None` stands for an unset
/// variable.
pub open spec fn size_setting(var: Option<Seq<char>>) -> SizeSetting {
    match var {
        None => SizeSetting::Unset,
        Some(s) => match unsigned_value(s) {
            None => SizeSetting::Invalid(s),
            Some(v) => if v > usize::MAX {
                SizeSetting::Invalid(s)
            } else if !power_of_two(v) {
                SizeSetting::NotPowerOfTwo
            } else {
                SizeSetting::Bytes(v as usize)
            },
        },
    }
}

/// Whether `err` is how `setting` of the variable `env_name` is refused; never
/// so for a setting that is accepted. A text that is not a number is refused
/// with the parser's error.
pub open spec fn is_size_refusal(
    err: ConfigError,
    env_name: Seq<char>,
    setting: SizeSetting,
) -> bool {
    match (setting, err) {
        (SizeSetting::Invalid(text), ConfigError::InvalidSize { env_name: name, cause }) => name@
            == env_name && is_usize_refusal(text, cause),
        (SizeSetting::NotPowerOfTwo, ConfigError::NotPowerOfTwo { env_name: name }) => name@
            == env_name,
        _ => false,
    }
}

/// Reads the value of the size variable `env_name`, `None` if it is unset.
pub fn parse_env_size(env_name: &str, var: Option<&str>) -> (r: Result<Option<usize>, ConfigError>)
    ensures
        match r {
            Ok(None) => size_setting(text_of(var)) is Unset,
            Ok(Some(size)) => size_setting(text_of(var)) == SizeSetting::Bytes(size),
            Err(err) => is_size_refusal(err, env_name@, size_setting(text_of(var))),
        },
{
    let text = match var {
        None => {
            return Ok(None);
        },
        Some(text) => text,
    };
    let size = match read_usize(text) {
        Ok(size) => size,
        Err(cause) => {
            return Err(ConfigError::InvalidSize { env_name: env_name.to_owned(), cause });
        },
    };
    if !is_power_of_two(size) {
        return Err(ConfigError::NotPowerOfTwo { env_name: env_name.to_owned() });
    }
    Ok(Some(size))
}

/// The options with which the store is opened.
#[derive(Debug, Clone, Copy, PartialEq, Eq, Structural)]
pub struct StoreOptions {
    pub write_buffer_size: usize,
    /// At most so many write buffers: one active and one being flushed.
    pub max_write_buffer_number: i32,
    /// Capacity of the block cache, which evicts what was not used longest.
    pub block_cache_size: usize,
    /// Index and filter blocks go into the block cache, so that they are
    /// bounded by the same memory budget instead of growing unbounded.
    pub cache_index_and_filter_blocks: bool,
    pub max_open_files: i32,
    pub create_if_missing: bool,
}

/// The options for given sizes of the write buffer and the block cache.
pub open spec fn options_for(write_buffer_size: usize, block_cache_size: usize) -> StoreOptions {
    StoreOptions {
        write_buffer_size,
        max_write_buffer_number: 2,
        block_cache_size,
        cache_index_and_filter_blocks: true,
        max_open_files: 256,
        create_if_missing: true,
    }
}

/// The size that a setting asks for, or `default` where it asks for none.
pub open spec fn size_or(setting: SizeSetting, default: usize) -> usize {
    match setting {
        SizeSetting::Bytes(size) => size,
        _ => default,
    }
}

pub open spec fn size_is_accepted(setting: SizeSetting) -> bool {
    setting is Unset || setting is Bytes
}

/// Whether `r` is what the settings of the two sizes lead to. Where both are
/// refused, the write buffer size is reported.
pub open spec fn is_default_options(
    r: Result<StoreOptions, ConfigError>,
    write_buffer_size: SizeSetting,
    block_cache_size: SizeSetting,
) -> bool {
    match r {
        Ok(options) => {
            &&& size_is_accepted(write_buffer_size)
            &&& size_is_accepted(block_cache_size)
            &&& options == options_for(
                size_or(write_buffer_size, DEFAULT_WRITE_BUFFER_SIZE),
                size_or(block_cache_size, DEFAULT_BLOCK_CACHE_SIZE),
            )
        },
        Err(err) => if size_is_accepted(write_buffer_size) {
            is_size_refusal(err, FM_ROCKSDB_BLOCK_CACHE_SIZE_ENV@, block_cache_size)
        } else {
            is_size_refusal(err, FM_ROCKSDB_WRITE_BUFFER_SIZE_ENV@, write_buffer_size)
        },
    }
}

/// The options that the values of the two size variables ask for.
pub fn get_default_options(
    write_buffer_size: Option<&str>,
    block_cache_size: Option<&str>,
) -> (r: Result<StoreOptions, ConfigError>)
    ensures
        is_default_options(
            r,
            size_setting(text_of(write_buffer_size)),
            size_setting(text_of(block_cache_size)),
        ),
{
    let write_buffer_size = match parse_env_size(
        FM_ROCKSDB_WRITE_BUFFER_SIZE_ENV,
        write_buffer_size,
    ) {
        Ok(Some(size)) => size,
        Ok(None) => DEFAULT_WRITE_BUFFER_SIZE,
        Err(err) => {
            return Err(err);
        },
    };
    let block_cache_size = match parse_env_size(
        FM_ROCKSDB_BLOCK_CACHE_SIZE_ENV,
        block_cache_size,
    ) {
        Ok(Some(size)) => size,
        Ok(None) => DEFAULT_BLOCK_CACHE_SIZE,
        Err(err) => {
            return Err(err);
        },
    };
    Ok(
        StoreOptions {
            write_buffer_size,
            max_write_buffer_number: 2,
            block_cache_size,
            cache_index_and_filter_blocks: true,
            max_open_files: DEFAULT_MAX_OPEN_FILES,
            create_if_missing: true,
        },
    )
}

/// How the write-ahead log is replayed when the store is opened.
#[derive(Debug, Clone, Copy, PartialEq, Eq, Structural)]
pub enum RecoveryMode {
    /// Fail on any corruption.
    AbsoluteConsistency,
    /// Drop incomplete records at the end of a log file.
    TolerateCorruptedTailRecords,
    /// Stop at the first gap.
    PointInTime,
}

/// The recovery mode for a given sync interval.
pub open spec fn recovery_mode_for(
    interval: Option<Duration>,
    relaxed_consistency: bool,
) -> RecoveryMode {
    if interval is Some {
        RecoveryMode::PointInTime
    } else if relaxed_consistency {
        RecoveryMode::TolerateCorruptedTailRecords
    } else {
        RecoveryMode::AbsoluteConsistency
    }
}

/// Chooses how the log is replayed.
///
/// With a sync interval, several log files can be un-synced at once, and the
/// kernel writes them back in any order. A retired file can lose its tail
/// while a newer one is complete. Replay then has to stop at the first gap,
/// which leaves a consistent prefix of the committed transactions; dropping
/// only the torn tail would leave a hole in the middle.
///
/// Without one, every commit was synced, and a corrupted log is not to be
/// expected: opening fails, unless relaxed consistency is asked for.
pub fn recovery_mode(interval: Option<Duration>, relaxed_consistency: bool) -> (r: RecoveryMode)
    ensures
        r == recovery_mode_for(interval, relaxed_consistency),
{
    if interval.is_some() {
        RecoveryMode::PointInTime
    } else if relaxed_consistency {
        RecoveryMode::TolerateCorruptedTailRecords
    } else {
        RecoveryMode::AbsoluteConsistency
    }
}

/// One is a power of two, and a number is one exactly if its double is. Zero
/// and the odd numbers above one are none.
pub proof fn law_powers_of_two(num: nat)
    ensures
        power_of_two(1),
        !power_of_two(0),
        num > 0 ==> (power_of_two(2 * num) <==> power_of_two(num)),
        num % 2 == 1 && num != 1 ==> !power_of_two(num),
{
    lemma_zero_is_no_power_of_two();
    lemma_odd_power_of_two(1);
    if num > 0 {
        lemma_half_is_power_of_two(num);
    }
    if num % 2 == 1 {
        lemma_odd_power_of_two(num);
    }
}

/// A size is what the text of its variable reads as, if that is two to some
/// power. An unset variable gives none. Anything else is refused under the
/// variable's name.
pub proof fn law_size_is_read_exactly(
    env_name: Seq<char>,
    var: Option<&str>,
    r: Result<Option<usize>, ConfigError>,
    k: nat,
)
    requires
        match r {
            Ok(None) => size_setting(text_of(var)) is Unset,
            Ok(Some(size)) => size_setting(text_of(var)) == SizeSetting::Bytes(size),
            Err(err) => is_size_refusal(err, env_name, size_setting(text_of(var))),
        },
    ensures
        var is None ==> r == Ok::<Option<usize>, ConfigError>(None),
        var is Some && unsigned_value(var->Some_0@) == Some(pow2(k)) && pow2(k) <= usize::MAX
            ==> r is Ok && r->Ok_0 is Some && r->Ok_0->Some_0 == pow2(k),
        var is Some && r is Ok ==> r->Ok_0 is Some && unsigned_value(var->Some_0@) == Some(
            r->Ok_0->Some_0 as nat,
        ) && exists|j: nat| #[trigger] pow2(j) == r->Ok_0->Some_0,
        r is Err ==> match r->Err_0 {
            ConfigError::InvalidSize { env_name: name, cause } => {
                &&& name@ == env_name
                &&& is_usize_refusal(var->Some_0@, cause)
                &&& unsigned_value(var->Some_0@) is None || unsigned_value(var->Some_0@)->Some_0
                    > usize::MAX
            },
            ConfigError::NotPowerOfTwo { env_name: name } => {
                &&& name@ == env_name
                &&& unsigned_value(var->Some_0@) is Some
                &&& forall|j: nat| #[trigger]
                    pow2(j) != unsigned_value(var->Some_0@)->Some_0
            },
            _ => false,
        },
{
}

/// Whether a size variable is unset, or its text reads as two to some power
/// that fits.
pub open spec fn is_size_text(var: Option<&str>) -> bool {
    var is Some ==> {
        &&& unsigned_value(var->Some_0@) is Some
        &&& unsigned_value(var->Some_0@)->Some_0 <= usize::MAX
        &&& exists|j: nat| #[trigger] pow2(j) == unsigned_value(var->Some_0@)->Some_0
    }
}

/// Where both sizes are acceptable the store gets them as they were given, two
/// mebibytes for one that is unset. Nothing else depends on them: two write
/// buffers, index and filter blocks in the cache, 256 open files, and a
/// database that is created if it is missing.
pub proof fn law_sizes_are_taken_as_given(
    write_buffer_size: Option<&str>,
    block_cache_size: Option<&str>,
    r: Result<StoreOptions, ConfigError>,
)
    requires
        is_default_options(
            r,
            size_setting(text_of(write_buffer_size)),
            size_setting(text_of(block_cache_size)),
        ),
        is_size_text(write_buffer_size),
        is_size_text(block_cache_size),
    ensures
        r is Ok,
        match write_buffer_size {
            Some(text) => unsigned_value(text@) == Some(r->Ok_0.write_buffer_size as nat),
            None => r->Ok_0.write_buffer_size == 2_097_152,
        },
        match block_cache_size {
            Some(text) => unsigned_value(text@) == Some(r->Ok_0.block_cache_size as nat),
            None => r->Ok_0.block_cache_size == 2_097_152,
        },
        r->Ok_0.max_write_buffer_number == 2,
        r->Ok_0.cache_index_and_filter_blocks,
        r->Ok_0.max_open_files == 256,
        r->Ok_0.create_if_missing,
{
}

/// Where a size is not acceptable the store is not opened, and the refusal
/// names the variable, that of the write buffer if neither is.
pub proof fn law_refused_sizes_are_named(
    write_buffer_size: Option<&str>,
    block_cache_size: Option<&str>,
    r: Result<StoreOptions, ConfigError>,
)
    requires
        is_default_options(
            r,
            size_setting(text_of(write_buffer_size)),
            size_setting(text_of(block_cache_size)),
        ),
        !(is_size_text(write_buffer_size) && is_size_text(block_cache_size)),
    ensures
        r is Err,
        ({
            let (name, text) = if is_size_text(write_buffer_size) {
                ("FM_ROCKSDB_BLOCK_CACHE_SIZE"@, block_cache_size->Some_0@)
            } else {
                ("FM_ROCKSDB_WRITE_BUFFER_SIZE"@, write_buffer_size->Some_0@)
            };
            let fits = unsigned_value(text) is Some && unsigned_value(text)->Some_0 <= usize::MAX;
            match r->Err_0 {
                ConfigError::InvalidSize { env_name, cause } => !fits && env_name@ == name
                    && is_usize_refusal(text, cause),
                ConfigError::NotPowerOfTwo { env_name } => fits && env_name@ == name,
                _ => false,
            }
        }),
{
}

/// With a sync interval the log is replayed up to the first gap, whatever else
/// is asked for. Without one a torn tail is dropped if relaxed consistency is
/// asked for, and otherwise nothing is tolerated.
pub proof fn law_recovery_follows_the_interval(interval: Duration, relaxed_consistency: bool)
    ensures
        recovery_mode_for(Some(interval), relaxed_consistency) == RecoveryMode::PointInTime,
        recovery_mode_for(None, true) == RecoveryMode::TolerateCorruptedTailRecords,
        recovery_mode_for(None, false) == RecoveryMode::AbsoluteConsistency,
{
}

} // verus!
