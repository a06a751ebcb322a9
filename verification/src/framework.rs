//! The configuration layer of the application framework.
//!
//! The framework owns the event loop, window lifecycle and device setup,
//! and hands control to user callbacks; all of that is plumbing around
//! the native graphics and windowing stack and lives outside this
//! library. What is modeled here is the configuration data the shell is
//! built from: which adapter to prefer and which windows to open.

use vstd::prelude::*;

verus! {

/// Which graphics adapter the device setup should prefer.
#[derive(Clone, Copy, PartialEq, Eq, Structural, Debug)]
pub enum PowerPreference {
    NoPreference,
    LowPower,
    HighPerformance,
}

/// Configuration of the rendering device.
#[derive(Clone, Copy, PartialEq, Eq, Structural, Debug)]
pub struct DeviceConfig {
    pub power_preference: PowerPreference,
}

impl Default for DeviceConfig {
    /// No adapter preference.
    fn default() -> (c: DeviceConfig)
        ensures
            c == (DeviceConfig { power_preference: PowerPreference::NoPreference }),
    {
        DeviceConfig { power_preference: PowerPreference::NoPreference }
    }
}

/// Configuration of one window.
#[derive(Clone, Copy, PartialEq, Eq, Structural, Debug)]
pub struct WindowConfig {
    pub width: u32,
    pub height: u32,
    pub exit_on_esc: bool,
}

impl Default for WindowConfig {
    /// A 1024 by 768 window that does not close on escape.
    fn default() -> (c: WindowConfig)
        ensures
            c == (WindowConfig { width: 1024, height: 768, exit_on_esc: false }),
    {
        WindowConfig { width: 1024, height: 768, exit_on_esc: false }
    }
}

/// Configuration of your windows and devices.
#[derive(Clone, Debug)]
pub struct GlassConfig {
    pub device_config: DeviceConfig,
    pub window_configs: Vec<WindowConfig>,
}

impl GlassConfig {
    /// A configuration that opens no window at all, on the default
    /// device.
    pub fn windowless() -> (c: GlassConfig)
        ensures
            c.device_config == (DeviceConfig { power_preference: PowerPreference::NoPreference }),
            c.window_configs@.len() == 0,
    {
        GlassConfig {
            device_config: DeviceConfig { power_preference: PowerPreference::NoPreference },
            window_configs: Vec::new(),
        }
    }

    /// A configuration that prefers the high-performance adapter and
    /// opens one window of the given size which does not close on
    /// escape.
    pub fn performance(width: u32, height: u32) -> (c: GlassConfig)
        ensures
            c.device_config == (DeviceConfig {
                power_preference: PowerPreference::HighPerformance,
            }),
            c.window_configs@.len() == 1,
            c.window_configs@[0] == (WindowConfig { width, height, exit_on_esc: false }),
    {
        let mut window_configs: Vec<WindowConfig> = Vec::new();
        window_configs.push(WindowConfig { width, height, exit_on_esc: false });
        GlassConfig {
            device_config: DeviceConfig { power_preference: PowerPreference::HighPerformance },
            window_configs,
        }
    }
}

impl Default for GlassConfig {
    /// One default window on the default device.
    fn default() -> (c: GlassConfig)
        ensures
            c.device_config == (DeviceConfig { power_preference: PowerPreference::NoPreference }),
            c.window_configs@.len() == 1,
            c.window_configs@[0] == (WindowConfig { width: 1024, height: 768, exit_on_esc: false }),
    {
        let mut window_configs: Vec<WindowConfig> = Vec::new();
        window_configs.push(WindowConfig::default());
        GlassConfig {
            device_config: DeviceConfig { power_preference: PowerPreference::NoPreference },
            window_configs,
        }
    }
}

/// The application shell: a user application value paired with the
/// configuration its event loop is to start from.
pub struct Glass<A> {
    app: A,
    config: GlassConfig,
}

impl<A> View for Glass<A> {
    type V = (A, GlassConfig);

    closed spec fn view(&self) -> (A, GlassConfig) {
        (self.app, self.config)
    }
}

impl<A> Glass<A> {
    /// Wrap an application value with the configuration to run it under.
    pub fn new(app: A, config: GlassConfig) -> (glass: Glass<A>)
        ensures
            glass@ == (app, config),
    {
        Glass { app, config }
    }

    /// The wrapped application value.
    pub fn app(&self) -> (a: &A)
        ensures
            *a == self@.0,
    {
        &self.app
    }

    /// The configuration the shell was built with.
    pub fn config(&self) -> (c: &GlassConfig)
        ensures
            *c == self@.1,
    {
        &self.config
    }
}

} // verus!
