//! Shared state and decisions of a controllable in-app browser: the registry of open
//! browsers, navigation interception by URL prefix, wake-up of callers that wait for an
//! interception, and the plain values (requests, events, cookies, errors) that flow
//! between the host application and the platform windows.
pub mod text;
pub mod models;
pub mod error;
pub mod controlled;
pub mod waiting;
pub mod urls;
pub mod desktop;
pub mod mobile;
pub mod laws;
