//! Logging setup for the native library: a severity scale and the block of
//! strings the log-initialization call marshals.

use crate::cbuf::lemma_encode_null_free;
use crate::error::{Error, ErrorRecord};
use vstd::prelude::*;

verus! {

/// The native log severities.
#[derive(Clone, Copy, Debug, PartialEq, Eq, Structural)]
pub enum Level {
    Trace,
    Debug,
    Info,
    Notice,
    Warn,
    Error,
    Crit,
    Alert,
    Fatal,
    Notset,
}

/// The name the native side knows each severity by.
pub open spec fn level_name(l: Level) -> Seq<char> {
    match l {
        Level::Trace => "TRACE"@,
        Level::Debug => "DEBUG"@,
        Level::Info => "INFO"@,
        Level::Notice => "NOTICE"@,
        Level::Warn => "WARN"@,
        Level::Error => "ERROR"@,
        Level::Crit => "CRIT"@,
        Level::Alert => "ALERT"@,
        Level::Fatal => "FATAL"@,
        Level::Notset => "NOTSET"@,
    }
}

impl Level {
    /// The severity's native name.
    pub fn as_str(&self) -> (r: &'static str)
        ensures
            r@ == level_name(*self),
            !r@.contains('\0'),
    {
        proof {
            reveal_strlit("TRACE");
            reveal_strlit("DEBUG");
            reveal_strlit("INFO");
            reveal_strlit("NOTICE");
            reveal_strlit("WARN");
            reveal_strlit("ERROR");
            reveal_strlit("CRIT");
            reveal_strlit("ALERT");
            reveal_strlit("FATAL");
            reveal_strlit("NOTSET");
        }
        let r: &'static str = match self {
            Level::Trace => "TRACE",
            Level::Debug => "DEBUG",
            Level::Info => "INFO",
            Level::Notice => "NOTICE",
            Level::Warn => "WARN",
            Level::Error => "ERROR",
            Level::Crit => "CRIT",
            Level::Alert => "ALERT",
            Level::Fatal => "FATAL",
            Level::Notset => "NOTSET",
        };
        proof {
            assert(forall|i: int| 0 <= i < r@.len() ==> r@[i] != '\0');
        }
        r
    }
}

/// What the log-initialization call marshals: the container name and
/// directory, the log file, the threshold severity, the message prefix and
/// the quiet switch.
pub struct Log {
    pub name: String,
    pub lxcpath: String,
    pub file: String,
    pub level: Level,
    pub prefix: String,
    pub quiet: bool,
}

impl Log {
    /// Initializes the log, or reports why the native call refused.
    pub fn init(self) -> (r: Result<(), Error>)
        ensures
            r is Ok <==> (!self.name@.contains('\0') && !self.lxcpath@.contains('\0')
                && !self.file@.contains('\0') && !self.prefix@.contains('\0')),
            (r matches Err(e) ==> e matches Error::Foreign(rec) && rec.num == -1),
    {
        let num = self.log_init();
        if num == 0 {
            Ok(())
        } else {
            Err(
                Error::Foreign(
                    ErrorRecord { num, message: "failed to initialize the log".to_owned() },
                ),
            )
        }
    }

    /// The modeled native log-initialization call: every string member must
    /// cross the boundary as a null-terminated buffer, so the call fails
    /// exactly when one of them cannot.
    fn log_init(self) -> (r: i32)
        ensures
            (r == 0) == (!self.name@.contains('\0') && !self.lxcpath@.contains('\0')
                && !self.file@.contains('\0') && !self.prefix@.contains('\0')),
            r == 0 || r == -1,
    {
        let level_str = self.level.as_str();
        proof {
            lemma_encode_null_free(level_str@);
        }
        if crate::cbuf::to_foreign(self.name.as_str()).is_err() {
            return -1;
        }
        if crate::cbuf::to_foreign(self.lxcpath.as_str()).is_err() {
            return -1;
        }
        if crate::cbuf::to_foreign(self.file.as_str()).is_err() {
            return -1;
        }
        if crate::cbuf::to_foreign(level_str).is_err() {
            return -1;
        }
        if crate::cbuf::to_foreign(self.prefix.as_str()).is_err() {
            return -1;
        }
        0
    }
}

} // verus!
