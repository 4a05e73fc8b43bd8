use vstd::prelude::*;

verus! {

/// The run's command-line options, as plain values.  Argument parsing
/// itself happens outside the library; this type carries the result and
/// owns the validity rules.
pub struct CliArgs {
    /// Path to the configuration file.
    pub config: Option<String>,
    /// Output sheet path.
    pub output: Option<String>,
    /// Log level: one of trace, debug, info, warn, error.
    pub log_level: String,
    /// Run the browser in headless mode.
    pub headless: bool,
    /// Cap on concurrent lookups.
    pub max_concurrent: usize,
    /// Timeout for browser operations, in seconds.
    pub browser_timeout: u64,
}

/// The accepted log levels.
pub open spec fn log_level_ok(s: Seq<char>) -> bool {
    ||| s == "trace"@
    ||| s == "debug"@
    ||| s == "info"@
    ||| s == "warn"@
    ||| s == "error"@
}

/// The arguments as a whole are acceptable: a known log level and
/// positive concurrency and timeout.
pub open spec fn cli_args_ok(a: CliArgs) -> bool {
    &&& log_level_ok(a.log_level@)
    &&& a.max_concurrent > 0
    &&& a.browser_timeout > 0
}

impl Default for CliArgs {
    /// The defaults: info logging, headless, five concurrent lookups,
    /// a thirty-second browser timeout.
    fn default() -> (r: CliArgs)
        ensures
            r.config is None,
            r.output is None,
            r.log_level@ == "info"@,
            r.headless,
            r.max_concurrent == 5,
            r.browser_timeout == 30,
    {
        CliArgs {
            config: None,
            output: None,
            log_level: String::from_str("info"),
            headless: true,
            max_concurrent: 5,
            browser_timeout: 30,
        }
    }
}

impl CliArgs {
    /// Check the options: `Ok` exactly when the log level is one of the
    /// five known ones and both numeric options are positive.  The
    /// error message names the offending option.
    pub fn validate(&self) -> (r: Result<(), String>)
        ensures
            r is Ok <==> cli_args_ok(*self),
    {
        let level_known = self.log_level == String::from_str("trace") || self.log_level
            == String::from_str("debug") || self.log_level == String::from_str("info")
            || self.log_level == String::from_str("warn") || self.log_level == String::from_str(
            "error",
        );
        if !level_known {
            let mut m = String::from_str("Invalid log level '");
            m.append(self.log_level.as_str());
            m.append("'. Valid levels are: trace, debug, info, warn, error");
            return Err(m);
        }
        if self.max_concurrent == 0 {
            return Err(String::from_str("max-concurrent must be greater than 0"));
        }
        if self.browser_timeout == 0 {
            return Err(String::from_str("browser-timeout must be greater than 0"));
        }
        Ok(())
    }
}

} // verus!
