use vstd::prelude::*;

verus! {

/// Process-wide display settings, read once from the `global` key of the
/// configuration document and borrowed by every component.
pub struct GlobalConfig {
    /// strftime-style pattern used when a panel renders a timestamp.
    pub time_format: String,
}

/// The pattern used when the configuration gives no `time_format`.
pub open spec fn default_time_format() -> Seq<char> {
    "%Y-%m-%d %H:%M:%S"@
}

impl GlobalConfig {
    /// The settings used when the configuration document has no `global` key.
    pub fn new_default() -> (r: GlobalConfig)
        ensures
            r.time_format@ == default_time_format(),
    {
        GlobalConfig { time_format: "%Y-%m-%d %H:%M:%S".to_owned() }
    }
}

} // verus!
