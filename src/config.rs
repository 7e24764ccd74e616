use vstd::prelude::*;

verus! {

/// Which phases each timed repetition runs.
#[derive(Clone, Copy, Debug, PartialEq, Eq, Structural)]
pub enum Mode {
    /// Generate increments, simulate, and sum the trajectory.
    Full,
    /// Generate increments and sum them; the simulator is not run.
    Gn,
    /// Simulate over increments filled once before timing, and sum the trajectory.
    Ou,
}

/// How the results are rendered.
#[derive(Clone, Copy, Debug, PartialEq, Eq, Structural)]
pub enum Output {
    Text,
    Json,
}

/// The settings of one benchmark process.
#[derive(Clone, Copy, Debug, PartialEq, Eq, Structural)]
pub struct Config {
    /// Points of the trajectory, at least two.
    pub n: usize,
    /// Timed repetitions, at least one.
    pub runs: usize,
    /// Untimed repetitions before timing.
    pub warmup: usize,
    pub seed: u32,
    pub mode: Mode,
    pub output: Output,
}

/// Why an argument was refused.
#[derive(Clone, Copy, Debug, PartialEq, Eq, Structural)]
pub enum ArgError {
    NNotInteger,
    NTooSmall,
    RunsNotInteger,
    RunsTooSmall,
    WarmupNotInteger,
    SeedNotInteger,
    UnknownMode,
    UnknownOutput,
}

/// Which phases a repetition of a mode runs.
#[derive(Clone, Copy, Debug, PartialEq, Eq, Structural)]
pub struct Phases {
    /// Fill the increments once, before warmup and timing.
    pub prefill: bool,
    /// Draw fresh increments in every repetition.
    pub generate: bool,
    /// Run the simulator in every repetition; the checksum then sums the
    /// trajectory, and otherwise the increments.
    pub simulate: bool,
}

pub open spec fn phases_of(m: Mode) -> Phases {
    match m {
        Mode::Full => Phases { prefill: false, generate: true, simulate: true },
        Mode::Gn => Phases { prefill: false, generate: true, simulate: false },
        Mode::Ou => Phases { prefill: true, generate: false, simulate: true },
    }
}

impl Mode {
    pub fn phases(&self) -> (r: Phases)
        ensures
            r == phases_of(*self),
    {
        match self {
            Mode::Full => Phases { prefill: false, generate: true, simulate: true },
            Mode::Gn => Phases { prefill: false, generate: true, simulate: false },
            Mode::Ou => Phases { prefill: true, generate: false, simulate: true },
        }
    }
}

/// Increments are drawn either before timing or in every repetition, never
/// both, and every mode sums something the repetition produced.
pub proof fn lemma_phases_exclusive(m: Mode)
    ensures
        phases_of(m).prefill != phases_of(m).generate,
        phases_of(m).generate || phases_of(m).simulate,
        m == Mode::Ou ==> !phases_of(m).generate,
{
}

pub open spec fn default_config() -> Config {
    Config { n: 500_000, runs: 1000, warmup: 5, seed: 1, mode: Mode::Full, output: Output::Text }
}

impl Config {
    pub fn default_settings() -> (r: Config)
        ensures
            r == default_config(),
    {
        Config { n: 500_000, runs: 1000, warmup: 5, seed: 1, mode: Mode::Full, output: Output::Text }
    }
}

} // verus!
