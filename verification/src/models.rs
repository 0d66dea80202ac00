//! The data model: enumerable items, samplers, policies, value tables,
//! the MDP interface, and the solver configuration.

pub mod config;
pub mod lookup;
pub mod policy;
pub mod value;
pub mod mdp;
pub mod sampler;

pub use config::Config;
pub use mdp::Action;
pub use mdp::Item;
pub use mdp::State;
pub use mdp::MDP;
pub use policy::Policy;
pub use sampler::Sampler;
pub use value::ActionValue;
pub use value::StateActionValue;
pub use value::StateValue;
