use vstd::prelude::*;

verus! {

/// A process configuration could not be parsed; the reason is in `msg`.
#[derive(Debug)]
pub struct ConfigError {
    pub msg: String,
}

impl ConfigError {
    pub fn new(msg: String) -> (e: ConfigError)
        ensures
            e.msg == msg,
    {
        ConfigError { msg }
    }
}

} // verus!
