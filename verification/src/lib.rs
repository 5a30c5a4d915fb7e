//! A connection-composition core: a registry of specifier classes, the
//! resolver from spec strings to specifier trees, and the re-specification
//! node that lets the left peer fill in a trusted template.

pub mod environment;
pub mod merge;
pub mod peer_ctl;
pub mod registry;
pub mod resolver;
pub mod session;
pub mod text;

pub use crate::environment::{
    ConfigurationError, ConstructError, ConstructParams, Environment, OverrideSource,
    ProgramOptions,
};
pub use crate::merge::merge;
pub use crate::peer_ctl::{PeerConstructor, PeerCtl};
pub use crate::registry::{
    ArgumentRule, ClassKind, ConnectMode, Orientation, Registry, RegistryError, SpecifierClass,
};
pub use crate::resolver::{ParseError, SpecifierTree};
pub use crate::session::{step, SessionAction, SessionEvent, SessionState};
