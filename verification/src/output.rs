//! Logs and output: what an extension writes, and at which level.

use vstd::prelude::*;
use crate::functions::c_name;
use crate::utils::ensure_end_with_zero;

verus! {

/// The level of fatal errors.
pub const E_ERROR: u32 = 1;
/// The level of warnings.
pub const E_WARNING: u32 = 2;
/// The level of notices.
pub const E_NOTICE: u32 = 8;
/// The level of deprecation notices.
pub const E_DEPRECATED: u32 = 8192;

/// Log level.
#[derive(Debug, Clone, Copy, PartialEq, Eq, Structural)]
pub enum LogLevel {
    /// Error level.
    Error,
    /// Warning level.
    Warning,
    /// Notice level.
    Notice,
    /// Deprecated level.
    Deprecated,
}

impl LogLevel {
    /// The number of the level.
    pub open spec fn spec_raw(self) -> u32 {
        match self {
            LogLevel::Error => E_ERROR,
            LogLevel::Warning => E_WARNING,
            LogLevel::Notice => E_NOTICE,
            LogLevel::Deprecated => E_DEPRECATED,
        }
    }

    /// The number of the level.
    pub fn raw(self) -> (r: u32)
        ensures
            r == self.spec_raw(),
    {
        match self {
            LogLevel::Error => E_ERROR,
            LogLevel::Warning => E_WARNING,
            LogLevel::Notice => E_NOTICE,
            LogLevel::Deprecated => E_DEPRECATED,
        }
    }
}

/// Each level is logged at an engine error level of its own: two levels
/// share a number only when they are the same level; every number is one of
/// `E_ERROR`, `E_WARNING`, `E_NOTICE` and `E_DEPRECATED` (PHP's values 1, 2,
/// 8 and 8192), each of them is used, and a more severe level has a smaller
/// number (`Error`, then `Warning`, `Notice`, `Deprecated`).
pub proof fn lemma_levels_are_engine_levels(a: LogLevel, b: LogLevel)
    ensures
        a.spec_raw() == b.spec_raw() ==> a == b,
        a.spec_raw() == E_ERROR || a.spec_raw() == E_WARNING || a.spec_raw() == E_NOTICE
            || a.spec_raw() == E_DEPRECATED,
        exists|l: LogLevel| #[trigger] l.spec_raw() == E_ERROR,
        exists|l: LogLevel| #[trigger] l.spec_raw() == E_WARNING,
        exists|l: LogLevel| #[trigger] l.spec_raw() == E_NOTICE,
        exists|l: LogLevel| #[trigger] l.spec_raw() == E_DEPRECATED,
        LogLevel::Error.spec_raw() < LogLevel::Warning.spec_raw(),
        LogLevel::Warning.spec_raw() < LogLevel::Notice.spec_raw(),
        LogLevel::Notice.spec_raw() < LogLevel::Deprecated.spec_raw(),
        E_ERROR == 1 && E_WARNING == 2 && E_NOTICE == 8 && E_DEPRECATED == 8192,
{
    assert(LogLevel::Error.spec_raw() == E_ERROR);
    assert(LogLevel::Warning.spec_raw() == E_WARNING);
    assert(LogLevel::Notice.spec_raw() == E_NOTICE);
    assert(LogLevel::Deprecated.spec_raw() == E_DEPRECATED);
}

/// Log level, as the older API names it.
#[derive(Debug, Clone, Copy, PartialEq, Eq, Structural)]
pub enum Level {
    /// Error level.
    Error,
    /// Warning level.
    Warning,
    /// Notice level.
    Notice,
    /// Deprecated level.
    Deprecated,
}

impl Level {
    /// The same level in the current API.
    pub fn to_log_level(self) -> (r: LogLevel)
        ensures
            r == (match self {
                Level::Error => LogLevel::Error,
                Level::Warning => LogLevel::Warning,
                Level::Notice => LogLevel::Notice,
                Level::Deprecated => LogLevel::Deprecated,
            }),
    {
        match self {
            Level::Error => LogLevel::Error,
            Level::Warning => LogLevel::Warning,
            Level::Notice => LogLevel::Notice,
            Level::Deprecated => LogLevel::Deprecated,
        }
    }
}

/// What an extension has written: the output, and the messages logged with
/// their levels.
#[derive(Debug)]
pub struct Output {
    written: Vec<u8>,
    logs: Vec<(u32, Vec<u8>)>,
}

impl Output {
    /// The bytes written so far.
    pub closed spec fn spec_written(&self) -> Seq<u8> {
        self.written@
    }

    /// The messages logged so far, with their levels, as C strings.
    pub closed spec fn spec_logs(&self) -> Seq<(u32, Seq<u8>)> {
        self.logs@.map_values(|l: (u32, Vec<u8>)| (l.0, l.1@))
    }

    /// Nothing written or logged.
    pub fn new() -> (r: Self)
        ensures
            r.spec_written() == Seq::<u8>::empty(),
            r.spec_logs() == Seq::<(u32, Seq<u8>)>::empty(),
    {
        let r = Output { written: Vec::new(), logs: Vec::new() };
        assert(r.spec_logs() =~= Seq::<(u32, Seq<u8>)>::empty());
        r
    }

    /// Gets the bytes written so far.
    pub fn written(&self) -> (r: &[u8])
        ensures
            r@ == self.spec_written(),
    {
        self.written.as_slice()
    }

    /// Logs a message at a level; the message is passed on as a C string.
    pub fn log(&mut self, level: LogLevel, message: &[u8])
        ensures
            final(self).spec_logs() == old(self).spec_logs().push(
                (level.spec_raw(), c_name(message@)),
            ),
            final(self).spec_written() == old(self).spec_written(),
    {
        let m = ensure_end_with_zero(message);
        self.logs.push((level.raw(), m));
        assert(self.spec_logs() =~= old(self).spec_logs().push((level.spec_raw(), c_name(message@))));
    }

    /// Echoes a message: the bytes of its C string, the NUL included, are
    /// written.
    pub fn echo(&mut self, message: &[u8])
        ensures
            final(self).spec_written() == old(self).spec_written() + c_name(message@),
            final(self).spec_logs() == old(self).spec_logs(),
    {
        let m = ensure_end_with_zero(message);
        crate::utils::append_bytes(&mut self.written, m.as_slice());
    }
}

} // verus!
