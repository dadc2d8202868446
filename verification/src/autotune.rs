//! Configuration of autotuning.

use vstd::prelude::*;

verus! {

/// Configuration of a logger, with the log levels of its own domain. `O` says where the log goes.
#[derive(Debug)]
pub struct LoggerConfig<L, O> {
    /// How much is logged.
    pub level: L,
    /// Where it is logged to.
    pub output: O,
}

/// Configuration for autotuning. `O` says where the log goes, and `K` where results are cached.
#[derive(Debug)]
pub struct AutotuneConfig<O, K> {
    /// Logger configuration for autotune logs, using autotune-specific log levels.
    pub logger: LoggerConfig<AutotuneLogLevel, O>,
    /// Autotune level, controlling the intensity of autotuning.
    pub level: AutotuneLevel,
    /// Frozen mode: never benchmark. Read the (shipped) cache, pick the cached fastest index, and
    /// fail hard on any key that is missing or whose checksum no longer matches the compiled
    /// kernels.
    pub frozen: bool,
    /// Cache location for storing autotune results: `()` where none can be stored.
    pub cache: K,
}

/// Log levels for autotune logging.
#[derive(Clone, Copy, Debug, PartialEq, Eq, Structural)]
pub enum AutotuneLogLevel {
    /// Autotune logging is disabled.
    Disabled,
    /// Minimal autotune information is logged such as the fastest kernel selected and a few
    /// statistics (default).
    Minimal,
    /// Full autotune details are logged.
    Full,
}

/// Autotune levels controlling the intensity of autotuning.
#[derive(Debug, PartialEq, Eq, Structural)]
pub enum AutotuneLevel {
    /// Minimal autotuning effort.
    Minimal,
    /// Balanced autotuning effort (default).
    Balanced,
    /// Increased autotuning effort.
    Extensive,
    /// Maximum autotuning effort.
    Full,
}

impl Clone for AutotuneLevel {
    fn clone(&self) -> (r: Self)
        ensures
            r == *self,
    {
        match self {
            AutotuneLevel::Minimal => AutotuneLevel::Minimal,
            AutotuneLevel::Balanced => AutotuneLevel::Balanced,
            AutotuneLevel::Extensive => AutotuneLevel::Extensive,
            AutotuneLevel::Full => AutotuneLevel::Full,
        }
    }
}

impl<L: Clone, O: Clone> Clone for LoggerConfig<L, O> {
    fn clone(&self) -> (r: Self)
        ensures
            cloned(self.level, r.level),
            cloned(self.output, r.output),
    {
        LoggerConfig { level: self.level.clone(), output: self.output.clone() }
    }
}

impl<O: Clone, K: Clone> Clone for AutotuneConfig<O, K> {
    fn clone(&self) -> (r: Self)
        ensures
            r.logger.level == self.logger.level,
            cloned(self.logger.output, r.logger.output),
            r.level == self.level,
            r.frozen == self.frozen,
            cloned(self.cache, r.cache),
    {
        AutotuneConfig {
            logger: self.logger.clone(),
            level: self.level.clone(),
            frozen: self.frozen,
            cache: self.cache.clone(),
        }
    }
}

impl Default for AutotuneLogLevel {
    fn default() -> (r: Self)
        ensures
            r == AutotuneLogLevel::Minimal,
    {
        AutotuneLogLevel::Minimal
    }
}

impl Default for AutotuneLevel {
    fn default() -> (r: Self)
        ensures
            r == AutotuneLevel::Balanced,
    {
        AutotuneLevel::Balanced
    }
}

impl<L: Default, O: Default> Default for LoggerConfig<L, O> {
    fn default() -> (r: Self)
        ensures
            call_ensures(L::default, (), r.level),
            call_ensures(O::default, (), r.output),
    {
        LoggerConfig { level: L::default(), output: O::default() }
    }
}

impl<O: Default, K: Default> Default for AutotuneConfig<O, K> {
    /// Minimal logging, balanced effort, and benchmarks allowed.
    fn default() -> (r: Self)
        ensures
            r.logger.level == AutotuneLogLevel::Minimal,
            call_ensures(O::default, (), r.logger.output),
            r.level == AutotuneLevel::Balanced,
            !r.frozen,
            call_ensures(K::default, (), r.cache),
    {
        AutotuneConfig {
            logger: LoggerConfig::default(),
            level: AutotuneLevel::default(),
            frozen: false,
            cache: K::default(),
        }
    }
}

} // verus!
