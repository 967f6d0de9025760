use std::time::Duration;

use fedimint_rocksdb::envs::{FM_ROCKSDB_BLOCK_CACHE_SIZE_ENV, FM_ROCKSDB_WRITE_BUFFER_SIZE_ENV};
use fedimint_rocksdb::error::ConfigError;
use fedimint_rocksdb::options::{
    get_default_options, is_power_of_two, parse_env_size, recovery_mode, RecoveryMode,
    StoreOptions,
};

#[test]
fn is_power_of_two_sanity() {
    assert!(!is_power_of_two(0));
    assert!(is_power_of_two(1));
    assert!(is_power_of_two(2));
    assert!(!is_power_of_two(3));
    assert!(is_power_of_two(4));
    assert!(!is_power_of_two(5));
    assert!(is_power_of_two(2 << 10));
    assert!(!is_power_of_two((2 << 10) + 1));
}

#[test]
fn powers_of_two_up_to_the_largest() {
    for shift in 0..usize::BITS {
        assert!(is_power_of_two(1 << shift));
    }
    assert!(!is_power_of_two(usize::MAX));
    assert!(!is_power_of_two(usize::MAX / 2));
}

#[test]
fn sizes_are_powers_of_two() {
    assert_eq!(parse_env_size("SIZE", None), Ok(None));
    assert_eq!(parse_env_size("SIZE", Some("1")), Ok(Some(1)));
    assert_eq!(parse_env_size("SIZE", Some("+64")), Ok(Some(64)));
    assert_eq!(parse_env_size("SIZE", Some("0004096")), Ok(Some(4096)));
    for text in ["0", "3", "4095"] {
        assert_eq!(
            parse_env_size("SIZE", Some(text)),
            Err(ConfigError::NotPowerOfTwo {
                env_name: "SIZE".to_string()
            }),
            "{text}"
        );
    }
    // Sizes, unlike the sync interval, are not trimmed.
    for text in ["", " 64", "64 ", "-64", "2M", "340282366920938463463374607431768211456"] {
        assert!(
            matches!(
                parse_env_size("SIZE", Some(text)),
                Err(ConfigError::InvalidSize { env_name, .. }) if env_name == "SIZE"
            ),
            "{text}"
        );
    }
}

fn options(write_buffer_size: usize, block_cache_size: usize) -> StoreOptions {
    StoreOptions {
        write_buffer_size,
        max_write_buffer_number: 2,
        block_cache_size,
        cache_index_and_filter_blocks: true,
        max_open_files: 256,
        create_if_missing: true,
    }
}

#[test]
fn default_options() {
    assert_eq!(
        get_default_options(None, None),
        Ok(options(2_097_152, 2_097_152))
    );
    assert_eq!(
        get_default_options(Some("1024"), None),
        Ok(options(1024, 2_097_152))
    );
    assert_eq!(
        get_default_options(None, Some("8388608")),
        Ok(options(2_097_152, 8_388_608))
    );
}

#[test]
fn refused_options_name_their_variable() {
    assert_eq!(
        get_default_options(Some("12"), Some("13")),
        Err(ConfigError::NotPowerOfTwo {
            env_name: FM_ROCKSDB_WRITE_BUFFER_SIZE_ENV.to_string()
        })
    );
    assert_eq!(
        get_default_options(Some("16"), Some("13")),
        Err(ConfigError::NotPowerOfTwo {
            env_name: FM_ROCKSDB_BLOCK_CACHE_SIZE_ENV.to_string()
        })
    );
    assert!(matches!(
        get_default_options(None, Some("many")),
        Err(ConfigError::InvalidSize { env_name, .. })
            if env_name == FM_ROCKSDB_BLOCK_CACHE_SIZE_ENV
    ));
}

#[test]
fn the_sync_interval_decides_how_the_log_is_replayed() {
    let interval = Some(Duration::from_secs(5));
    assert_eq!(recovery_mode(interval, false), RecoveryMode::PointInTime);
    assert_eq!(recovery_mode(interval, true), RecoveryMode::PointInTime);
    assert_eq!(
        recovery_mode(None, true),
        RecoveryMode::TolerateCorruptedTailRecords
    );
    assert_eq!(
        recovery_mode(None, false),
        RecoveryMode::AbsoluteConsistency
    );
}
