//! A conformance harness for an update-tracking protocol.
//!
//! An *application* owns a status snapshot ([`Info`]) and polls a remote
//! source for update packages. Each fetched [`Package`] comes paired with an
//! RSA-SHA256 [`Signature`] over its raw bytes; a package whose signature
//! validates has its version adopted, and any other package only bumps a
//! counter of rejected packages. The harness drives an arbitrary backend —
//! a status-query client, a remote-update client and an application, tied
//! together by the three role traits — through a fixed script of
//! fetch/process cycles and checks the status it observes after each step.
//! The [`dummy`] module is the in-process reference backend serving the
//! canonical fixture sequence.

pub mod driver;
pub mod dummy;
pub mod info;
pub mod json;
pub mod package;
pub mod signature;

pub use driver::AppImpl;
pub use driver::LocalClientImpl;
pub use driver::RemoteClientImpl;
pub use driver::RunError;
pub use driver::check_step;
pub use driver::run;
pub use info::Info;
pub use info::InfoMutation;
pub use info::InfoView;
pub use info::initial_info;
pub use package::Package;
pub use package::PackageView;
pub use package::ParsingError;
pub use signature::Signature;
