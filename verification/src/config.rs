//! Results of loading a configuration file: the value, or the default with
//! the reason (file corrupted, or not found).
use vstd::prelude::*;

verus! {

/// Current version for all config files.
pub const CONFIG_VERSION: u32 = 1;

/// A configuration file that could not be loaded.
#[derive(Clone, Debug)]
pub struct ConfigCorruptionEvent {
    pub file_type: ConfigFileType,
    pub file_path: String,
    pub error_message: String,
    pub using_default: bool,
}

/// The configuration files of the hub.
#[derive(Clone, Copy, Debug, PartialEq, Eq, Structural)]
pub enum ConfigFileType {
    DeviceShotDelays,
    DeviceOffsets,
    ScreenCalibration,
    AccessoryMap,
}

/// What loading a configuration file gave.
#[derive(Debug, Clone)]
pub enum ConfigLoadResult<T> {
    Success(T),
    CorruptedUsingDefault { path: String, error: String },
    NotFoundUsingDefault,
}

/// How far loading a configuration file got, as its I/O steps report it.
#[derive(Debug, Clone)]
pub enum ConfigRead<T> {
    /// The configuration directory could not be determined.
    NoConfigDir,
    /// Whether the file exists could not be checked.
    ExistsCheckFailed,
    /// The file does not exist.
    NotFound,
    /// The file exists but could not be read.
    ReadFailed { path: String, error: String },
    /// The file was read but its contents could not be parsed.
    ParseFailed { path: String, error: String },
    /// The file was read and parsed.
    Parsed(T),
}

impl<T> ConfigLoadResult<T> {
    /// The loaded value, or the default value.
    pub fn into_value(self) -> (r: T) where T: Default
        ensures
            self matches ConfigLoadResult::Success(v) ==> r == v,
            !(self is Success) ==> call_ensures(T::default, (), r),
    {
        match self {
            ConfigLoadResult::Success(val) => val,
            ConfigLoadResult::CorruptedUsingDefault { .. } => T::default(),
            ConfigLoadResult::NotFoundUsingDefault => T::default(),
        }
    }

    pub fn is_corrupted(&self) -> (r: bool)
        ensures
            r == (self is CorruptedUsingDefault),
    {
        match self {
            ConfigLoadResult::CorruptedUsingDefault { .. } => true,
            _ => false,
        }
    }

    /// The path and error of a corrupted file.
    pub fn corruption_info(&self) -> (r: Option<(String, String)>)
        ensures
            match self {
                ConfigLoadResult::CorruptedUsingDefault { path, error } => r matches Some(
                    p,
                ) && p.0@ == path@ && p.1@ == error@,
                _ => r is None,
            },
    {
        match self {
            ConfigLoadResult::CorruptedUsingDefault { path, error } => {
                Some((path.clone(), error.clone()))
            },
            _ => None,
        }
    }

    /// The load result for how far loading got: a file that is missing (or
    /// whose presence cannot be checked, or whose directory is unknown) means
    /// defaults; one that cannot be read or parsed is corrupted; otherwise
    /// its parsed value.
    pub fn from_read(read: ConfigRead<T>) -> (r: Self)
        ensures
            match read {
                ConfigRead::NoConfigDir => r is NotFoundUsingDefault,
                ConfigRead::ExistsCheckFailed => r is NotFoundUsingDefault,
                ConfigRead::NotFound => r is NotFoundUsingDefault,
                ConfigRead::ReadFailed { path, error } => r == ConfigLoadResult::<T>::CorruptedUsingDefault { path, error },
                ConfigRead::ParseFailed { path, error } => r == ConfigLoadResult::<T>::CorruptedUsingDefault { path, error },
                ConfigRead::Parsed(v) => r == ConfigLoadResult::Success(v),
            },
    {
        match read {
            ConfigRead::NoConfigDir => ConfigLoadResult::NotFoundUsingDefault,
            ConfigRead::ExistsCheckFailed => ConfigLoadResult::NotFoundUsingDefault,
            ConfigRead::NotFound => ConfigLoadResult::NotFoundUsingDefault,
            ConfigRead::ReadFailed { path, error } => ConfigLoadResult::CorruptedUsingDefault { path, error },
            ConfigRead::ParseFailed { path, error } => ConfigLoadResult::CorruptedUsingDefault { path, error },
            ConfigRead::Parsed(v) => ConfigLoadResult::Success(v),
        }
    }
}

/// What the per-screen calibration reads amount to: the screens whose file
/// parsed, with their calibration, and the screens whose file could not be
/// read or parsed, with its path and the error; missing files are skipped.
/// Read `i` is that of screen `i`.
pub open spec fn spec_screen_results<T>(reads: Seq<ConfigRead<T>>) -> (Seq<(u8, T)>, Seq<(u8, String, String)>)
    decreases reads.len(),
{
    if reads.len() == 0 {
        (Seq::empty(), Seq::empty())
    } else {
        let (cals, bad) = spec_screen_results(reads.drop_last());
        let id = (reads.len() - 1) as u8;
        match reads.last() {
            ConfigRead::Parsed(v) => (cals.push((id, v)), bad),
            ConfigRead::ReadFailed { path, error } => (cals, bad.push((id, path, error))),
            ConfigRead::ParseFailed { path, error } => (cals, bad.push((id, path, error))),
            _ => (cals, bad),
        }
    }
}

/// Gathers the screen calibrations from the reads of the screen files,
/// screen by screen in order.
pub fn collect_screen_calibrations<T>(reads: Vec<ConfigRead<T>>) -> (r: (Vec<(u8, T)>, Vec<(u8, String, String)>))
    requires
        reads@.len() <= 256,
    ensures
        (r.0@, r.1@) == spec_screen_results(reads@),
{
    let ghost all = reads@;
    let total = reads.len();
    let mut rest = reads;
    let mut cals: Vec<(u8, T)> = Vec::new();
    let mut bad: Vec<(u8, String, String)> = Vec::new();
    let mut i: usize = 0;
    while i < total
        invariant
            total == all.len() <= 256,
            i <= total,
            rest@ == all.skip(i as int),
            (cals@, bad@) == spec_screen_results(all.take(i as int)),
        decreases total - i,
    {
        let read = rest.remove(0);
        proof {
            assert(read == all[i as int]);
            assert(all.take(i + 1).drop_last() =~= all.take(i as int));
            assert(all.take(i + 1).last() == all[i as int]);
        }
        let id = i as u8;
        match read {
            ConfigRead::Parsed(v) => cals.push((id, v)),
            ConfigRead::ReadFailed { path, error } => bad.push((id, path, error)),
            ConfigRead::ParseFailed { path, error } => bad.push((id, path, error)),
            _ => {},
        }
        i = i + 1;
        proof {
            assert(rest@ =~= all.skip(i as int));
        }
    }
    proof {
        assert(all.take(total as int) =~= all);
    }
    (cals, bad)
}

} // verus!
