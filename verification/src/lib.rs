pub mod colormap;
pub mod config;
pub mod cyclic_automaton;

pub use colormap::get_colormap;
pub use config::Config;
pub use config::GifConfig;
pub use cyclic_automaton::ConfigError;
pub use cyclic_automaton::CyclicAutomaton;
