//! Configuration values for the bar, with the built-in defaults.
//!
//! Loading these from disk is the shell's business; the library defines the
//! shapes and what the defaults are.

use vstd::prelude::*;

verus! {

/// A module that can be placed on the bar.
#[derive(Debug, Clone, Copy, PartialEq, Eq, Structural, Hash)]
pub enum ModuleType {
    AppMenu,
    ActiveClient,
    Clock,
    Battery,
    Network,
    Display,
}

/// The screen corner notification popups anchor to; this decides which edge's
/// margin carries the vertical stacking offset.
#[derive(Debug, Clone, Copy, PartialEq, Eq, Structural, Hash)]
pub enum NotificationPosition {
    TopLeft,
    TopRight,
    BottomLeft,
    BottomRight,
}

/// The screen edge the dock sits on.
#[derive(Debug, Clone, Copy, PartialEq, Eq, Structural, Hash)]
pub enum DockPosition {
    Left,
    Right,
    Bottom,
}

/// Settings of the battery module.
#[derive(Debug, Clone)]
pub struct BatteryConfig {
    pub show_details: bool,
    pub show_power_profiles: bool,
    pub show_conservation_mode: bool,
    pub conservation_mode_path: Option<String>,
}

impl Default for BatteryConfig {
    fn default() -> (r: BatteryConfig)
        ensures
            r.show_details,
            r.show_power_profiles,
            r.show_conservation_mode,
            r.conservation_mode_path is None,
    {
        BatteryConfig {
            show_details: true,
            show_power_profiles: true,
            show_conservation_mode: true,
            conservation_mode_path: None,
        }
    }
}

/// Settings of the network module.
#[derive(Debug, Clone)]
pub struct NetworkConfig {}

impl Default for NetworkConfig {
    fn default() -> (r: NetworkConfig) {
        NetworkConfig {  }
    }
}

/// Settings of the dock.
#[derive(Debug, Clone)]
pub struct DockConfig {
    pub position: DockPosition,
    pub icon_size: u32,
    pub auto_hide: bool,
    pub show_running_apps: bool,
    pub show_favorites: bool,
    pub favorites: Vec<String>,
    pub reveal_delay: u32,
    pub hide_delay: u32,
}

impl Default for DockConfig {
    fn default() -> (r: DockConfig)
        ensures
            r.position == DockPosition::Bottom,
            r.icon_size == 48,
            !r.auto_hide,
            r.show_running_apps,
            r.show_favorites,
            r.favorites@.len() == 4,
            r.favorites@[0]@ == "zen"@,
            r.favorites@[1]@ == "firefox"@,
            r.favorites@[2]@ == "nautilus"@,
            r.favorites@[3]@ == "terminal"@,
            r.reveal_delay == 200,
            r.hide_delay == 1000,
    {
        let mut favorites: Vec<String> = Vec::new();
        favorites.push(String::from_str("zen"));
        favorites.push(String::from_str("firefox"));
        favorites.push(String::from_str("nautilus"));
        favorites.push(String::from_str("terminal"));
        DockConfig {
            position: DockPosition::Bottom,
            icon_size: 48,
            auto_hide: false,
            show_running_apps: true,
            show_favorites: true,
            favorites,
            reveal_delay: 200,
            hide_delay: 1000,
        }
    }
}

/// Settings of the whole bar.
#[derive(Debug, Clone)]
pub struct BarConfig {
    pub font: Option<String>,
    pub modules_left: Vec<ModuleType>,
    pub modules_center: Vec<ModuleType>,
    pub modules_right: Vec<ModuleType>,
    pub distro_icon_override: Option<String>,
    pub clock_format: Option<String>,
    pub notification_position: NotificationPosition,
    pub active_client_max_length: usize,
    pub battery: BatteryConfig,
    pub network: NetworkConfig,
    pub dock: DockConfig,
}

impl Default for BarConfig {
    fn default() -> (r: BarConfig)
        ensures
            r.font matches Some(f) && f@ == "Sans 10"@,
            r.modules_left@ =~= seq![ModuleType::AppMenu, ModuleType::ActiveClient],
            r.modules_center@ =~= Seq::<ModuleType>::empty(),
            r.modules_right@ =~= seq![ModuleType::Battery, ModuleType::Clock],
            r.distro_icon_override is None,
            r.clock_format matches Some(f) && f@ == "%A %e, %H:%M"@,
            r.notification_position == NotificationPosition::TopRight,
            r.active_client_max_length == 20,
    {
        let mut modules_left: Vec<ModuleType> = Vec::new();
        modules_left.push(ModuleType::AppMenu);
        modules_left.push(ModuleType::ActiveClient);
        let modules_center: Vec<ModuleType> = Vec::new();
        let mut modules_right: Vec<ModuleType> = Vec::new();
        modules_right.push(ModuleType::Battery);
        modules_right.push(ModuleType::Clock);
        BarConfig {
            font: Some(String::from_str("Sans 10")),
            modules_left,
            modules_center,
            modules_right,
            distro_icon_override: None,
            clock_format: Some(String::from_str("%A %e, %H:%M")),
            notification_position: NotificationPosition::TopRight,
            active_client_max_length: 20,
            battery: BatteryConfig::default(),
            network: NetworkConfig::default(),
            dock: DockConfig::default(),
        }
    }
}

} // verus!
