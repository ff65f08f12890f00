pub mod ansiblefile;
pub mod arguments;
pub mod module;
pub mod node;
pub mod task;
pub mod yaml;

pub use ansiblefile::{AnsibleFile, FromParseError};
pub use arguments::Arguments;
pub use module::{Module, ModuleValues};
pub use node::Node;
pub use task::{Task, WhenOpts};
pub mod laws;
