use vstd::prelude::*;

verus! {

/// Construction parameters of the entity-component environment.
#[derive(Debug, Clone)]
pub struct EnvConfig {
    pub width: usize,
    pub height: usize,
    pub max_steps: u32,
    pub render: bool,
    pub seed: Option<u64>,
}

/// The board is large enough for the initial three-segment snake and an episode
/// has at least one step.
pub open spec fn env_config_accepts(width: usize, height: usize, max_steps: u32) -> bool {
    width >= 5 && height >= 5 && max_steps > 0
}

impl EnvConfig {
    /// Validates the parameters: both sides at least 5 cells, a positive step budget.
    pub fn new(
        width: usize,
        height: usize,
        max_steps: u32,
        render: bool,
        seed: Option<u64>,
    ) -> (r: Result<EnvConfig, String>)
        ensures
            match r {
                Ok(c) => env_config_accepts(width, height, max_steps) && c.width == width
                    && c.height == height && c.max_steps == max_steps && c.render == render
                    && c.seed == seed,
                Err(msg) => if width < 5 || height < 5 {
                    msg@ == "width and height must both be >= 5"@
                } else {
                    max_steps == 0 && msg@ == "max_steps must be > 0"@
                },
            },
    {
        if width < 5 || height < 5 {
            return Err(String::from_str("width and height must both be >= 5"));
        }
        if max_steps == 0 {
            return Err(String::from_str("max_steps must be > 0"));
        }
        Ok(EnvConfig { width, height, max_steps, render, seed })
    }
}

} // verus!
