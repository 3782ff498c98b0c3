//! What the configuration store supplies.

use vstd::prelude::*;

verus! {

/// Colour scheme of the user interface.
#[derive(Debug, Clone, Copy, PartialEq, Eq, Structural)]
pub enum Theme {
    System,
    Light,
    Dark,
}

/// Settings that seed the connection and the rate limiter.
#[derive(Debug, Clone)]
pub struct AppConfig {
    pub last_host: String,
    pub last_port: u16,
    pub last_nick: String,
    pub auto_connect: bool,
    pub theme: Theme,
    pub notifications_enabled: bool,
    pub flood_limit_burst: u32,
    pub flood_limit_window_sec: u64,
}

pub struct AppConfigView {
    pub last_host: Seq<char>,
    pub last_port: u16,
    pub last_nick: Seq<char>,
    pub auto_connect: bool,
    pub theme: Theme,
    pub notifications_enabled: bool,
    pub flood_limit_burst: u32,
    pub flood_limit_window_sec: u64,
}

impl View for AppConfig {
    type V = AppConfigView;

    open spec fn view(&self) -> AppConfigView {
        AppConfigView {
            last_host: self.last_host@,
            last_port: self.last_port,
            last_nick: self.last_nick@,
            auto_connect: self.auto_connect,
            theme: self.theme,
            notifications_enabled: self.notifications_enabled,
            flood_limit_burst: self.flood_limit_burst,
            flood_limit_window_sec: self.flood_limit_window_sec,
        }
    }
}

impl AppConfigView {
    /// The settings of a first launch.
    pub open spec fn initial() -> AppConfigView {
        AppConfigView {
            last_host: "0.0.0.0"@,
            last_port: 5555,
            last_nick: Seq::empty(),
            auto_connect: false,
            theme: Theme::Light,
            notifications_enabled: true,
            flood_limit_burst: 8,
            flood_limit_window_sec: 30,
        }
    }
}

impl Default for AppConfig {
    fn default() -> (cfg: AppConfig)
        ensures
            cfg@ == AppConfigView::initial(),
    {
        AppConfig {
            last_host: "0.0.0.0".to_owned(),
            last_port: 5555,
            last_nick: String::new(),
            auto_connect: false,
            theme: Theme::Light,
            notifications_enabled: true,
            flood_limit_burst: 8,
            flood_limit_window_sec: 30,
        }
    }
}

} // verus!
