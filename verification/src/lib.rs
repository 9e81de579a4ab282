//! Verified core of the DataZen native database client: the shared API
//! types, the mapping between stored connection configurations and the
//! records the interface shows, locale catalogues, and the state machine
//! behind the main window.

pub mod api;
pub mod display;
pub mod form;
pub mod gateway;
pub mod i18n;
pub mod model;
pub mod roster;
pub mod service;
pub mod ssh_tunnel;
pub mod store;
pub mod text;
pub mod textmap;
pub mod window;
