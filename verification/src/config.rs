//! Run configuration: what a run was asked to do and with which parameters.

use crate::cyclic_automaton::ConfigError;
use crate::cyclic_automaton::CyclicAutomaton;
use vstd::prelude::*;

verus! {

/// A parsed request: either produce an animation, or show the usage help.
pub enum Config {
    GifRequest(GifConfig),
    HelpRequest,
}

/// The parameters of one animation run.
#[derive(Debug)]
pub struct GifConfig {
    pub fname: String,
    pub width: usize,
    pub height: usize,
    pub seed: u64,
    pub num_states: u8,
    pub threshold: usize,
    pub generations: u32,
}

impl Default for GifConfig {
    /// The default run: a 300 by 300 grid, seed 1, five states, threshold 1,
    /// fifty generations, written to `default.gif`.
    fn default() -> (r: GifConfig)
        ensures
            r.fname@ == "default.gif"@,
            r.width == 300,
            r.height == 300,
            r.seed == 1,
            r.num_states == 5,
            r.threshold == 1,
            r.generations == 50,
    {
        GifConfig {
            fname: "default.gif".to_owned(),
            width: 300,
            height: 300,
            seed: 1,
            num_states: 5,
            threshold: 1,
            generations: 50,
        }
    }
}

impl GifConfig {
    /// Construct the automaton that this configuration describes, with every
    /// cell in state 0.
    pub fn get_automaton(&self) -> (r: Result<CyclicAutomaton, ConfigError>)
        ensures
            self.num_states == 0 ==> r == Result::<CyclicAutomaton, ConfigError>::Err(
                ConfigError::ZeroStates,
            ),
            self.num_states >= 1 && self.width * self.height > usize::MAX ==> r == Result::<
                CyclicAutomaton,
                ConfigError,
            >::Err(ConfigError::GridTooLarge),
            self.num_states >= 1 && self.width * self.height <= usize::MAX ==> {
                &&& r is Ok
                &&& r->Ok_0.wf()
                &&& r->Ok_0.width == self.width
                &&& r->Ok_0.height == self.height
                &&& r->Ok_0.num_states == self.num_states
                &&& r->Ok_0.threshold == self.threshold
                &&& forall|i: int| 0 <= i < r->Ok_0.grid@.len() ==> r->Ok_0.grid@[i] == 0u8
            },
    {
        CyclicAutomaton::new(self.width, self.height, self.num_states, self.threshold)
    }
}

} // verus!
