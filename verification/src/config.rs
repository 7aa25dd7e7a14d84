use vstd::prelude::*;

verus! {

/// The scoring weights of the search. Their exact effect on a placement's
/// rating is an internal, replaceable policy; the engine only passes them
/// through unchanged and uses them deterministically.
#[derive(Clone, Copy, Debug, PartialEq, Eq, Structural)]
pub struct Parameters {
    pub row_factor: i64,
    pub piece_estimate_factor: i64,
    pub i_dependency_factor: i64,
    pub piece_penalty: i64,
}

/// Tunable search parameters attached to a session: a bound on total search
/// effort and the scoring weights.
#[derive(Clone, Copy, Debug, PartialEq, Eq, Structural)]
pub struct Config {
    pub search_limit: usize,
    pub parameters: Parameters,
}

impl Default for Config {
    /// The default configuration.
    fn default() -> (r: Config)
        ensures
            r == Config::spec_default(),
    {
        Config {
            search_limit: 1000,
            parameters: Parameters {
                row_factor: 1,
                piece_estimate_factor: 1,
                i_dependency_factor: 1,
                piece_penalty: 1,
            },
        }
    }
}

impl Config {
    /// The value `Config::default()` returns.
    pub open spec fn spec_default() -> Config {
        Config {
            search_limit: 1000,
            parameters: Parameters {
                row_factor: 1,
                piece_estimate_factor: 1,
                i_dependency_factor: 1,
                piece_penalty: 1,
            },
        }
    }
}

} // verus!
