//! Supervisor for an always-online peer-to-peer application node.
//!
//! The library holds the decision logic of the node: the network
//! configuration model, the supervisor state machine that owns the runtime
//! lifecycle (mode switches between wide-area and local-only networking,
//! scheduled restarts, graceful shutdown), the idempotent installer that
//! brings a desired set of application bundles into existence exactly once,
//! and the content-derived identifier for a bundle.
//!
//! All I/O — launching the runtime, probing the relay endpoint, reading
//! bundle files, the control channels — lives outside the library, which is
//! driven by events and answers with actions.

pub mod bundle;
pub mod config;
pub mod ident;
pub mod installer;
pub mod logging;
pub mod supervisor;

pub use installer::BundleOutcome;
pub use installer::CellAddress;
pub use installer::CellDefinition;
pub use installer::CellRecord;
pub use installer::Failure;
pub use installer::InitCall;
pub use installer::InstallRequest;
pub use installer::PlanStep;
pub use installer::Reconcile;
pub use installer::RejectReason;
pub use installer::cell_id;
pub use installer::init_entry_point;
pub use installer::init_targets;
pub use installer::reconcile_plan;

pub use logging::LevelParseError;
pub use logging::LogLevel;
pub use logging::log_level;
pub use logging::wasm_level_to_set;

pub use supervisor::Action;
pub use supervisor::Event;
pub use supervisor::Phase;
pub use supervisor::Policy;
pub use supervisor::Supervisor;

pub use bundle::Bundle;
pub use bundle::Resource;
pub use bundle::canonical_encoding;

pub use ident::EncodingError;
pub use ident::hex_encode;

pub use config::Mode;
pub use config::NetworkConfig;
pub use config::config_for_mode;
pub use config::network_config;
