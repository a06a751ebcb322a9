use glass::cell::{Cell, Material};
use glass::coin::CoinTape;
use glass::framework::{DeviceConfig, Glass, GlassConfig, PowerPreference, WindowConfig};

#[test]
fn coin_tape_yields_tosses_in_order_then_false() {
    let mut tape = CoinTape::new(vec![true, false, true]);
    assert!(tape.next());
    assert!(!tape.next());
    assert!(tape.next());
    // an exhausted tape yields false from then on
    assert!(!tape.next());
    assert!(!tape.next());
}

#[test]
fn empty_coin_tape_yields_false() {
    let mut tape = CoinTape::new(vec![]);
    assert!(!tape.next());
}

#[test]
fn cell_constructors_carry_material_colors() {
    let e = Cell::empty();
    assert!(e.is_empty());
    assert_eq!(e, Cell::of_material(Material::Empty));
    let s = Cell::of_material(Material::Sand);
    assert!(!s.is_empty());
    assert_eq!(s.color.r, 230);
    assert_eq!(s.color.g, 200);
    assert_eq!(s.color.b, 110);
    assert_eq!(s.color.a, 255);
}

#[test]
fn windowless_config_has_no_windows() {
    let config = GlassConfig::windowless();
    assert!(config.window_configs.is_empty());
    assert_eq!(config.device_config.power_preference, PowerPreference::NoPreference);
}

#[test]
fn performance_config_prefers_high_performance() {
    let config = GlassConfig::performance(800, 600);
    assert_eq!(config.device_config.power_preference, PowerPreference::HighPerformance);
    assert_eq!(config.window_configs.len(), 1);
    assert_eq!(
        config.window_configs[0],
        WindowConfig { width: 800, height: 600, exit_on_esc: false }
    );
}

#[test]
fn default_config_opens_one_default_window() {
    let config = GlassConfig::default();
    assert_eq!(config.device_config, DeviceConfig::default());
    assert_eq!(config.window_configs.len(), 1);
    assert_eq!(config.window_configs[0], WindowConfig::default());
    assert_eq!(
        WindowConfig::default(),
        WindowConfig { width: 1024, height: 768, exit_on_esc: false }
    );
}

#[test]
fn glass_holds_app_and_config() {
    let glass = Glass::new(42u32, GlassConfig::windowless());
    assert_eq!(*glass.app(), 42);
    assert!(glass.config().window_configs.is_empty());
}
