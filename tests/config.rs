use tt_riingd::config::{
    choose_config_path,
    broadcast_interval, enable_broadcast, tick_seconds, Config, ConfigError, ControllerCfg, CurveCfg, FanTarget,
    MappingCfg, SensorCfg, UsbSelector,
};
use tt_riingd::curve::Point;
use tt_riingd::event::ConfigChangeType;

#[test]
fn curve_cfg_get_id() {
    let constant = CurveCfg::Constant {
        id: "test_constant".to_string(),
        speed: 50,
    };
    assert_eq!(constant.get_id(), "test_constant");

    let step = CurveCfg::StepCurve {
        id: "test_step".to_string(),
        tmps: vec![30_000, 60_000],
        spds: vec![20, 80],
    };
    assert_eq!(step.get_id(), "test_step");

    let bezier = CurveCfg::Bezier {
        id: "test_bezier".to_string(),
        points: vec![Point { x: 0, y: 0 }],
    };
    assert_eq!(bezier.get_id(), "test_bezier");
}

#[test]
fn analyze_changes_hot_reload_for_curves() {
    let mut config1 = Config::default();
    let mut config2 = Config::default();
    config1.curves = vec![CurveCfg::Constant {
        id: "test".to_string(),
        speed: 50,
    }];
    config2.curves = vec![CurveCfg::Constant {
        id: "test".to_string(),
        speed: 75,
    }];
    let change_type = config1.analyze_changes(&config2);
    match change_type {
        ConfigChangeType::HotReload => {}
        _ => panic!("Expected HotReload for curve changes"),
    }
}

#[test]
fn analyze_changes_cold_restart_for_controllers() {
    let config1 = Config::default();
    let config2 = Config {
        controllers: vec![ControllerCfg::RiingQuad {
            id: "test_controller".to_string(),
            usb: UsbSelector {
                vid: 0x264a,
                pid: 0x2330,
                serial: None,
            },
            fans: vec![],
        }],
        ..Default::default()
    };
    let change_type = config1.analyze_changes(&config2);
    match change_type {
        ConfigChangeType::ColdRestart { changed_sections } => {
            assert!(changed_sections.contains(&"controllers".to_string()));
        }
        _ => panic!("Expected ColdRestart for controller changes"),
    }
}

#[test]
fn analyze_changes_cold_restart_for_sensors() {
    let config1 = Config::default();
    let config2 = Config {
        sensors: vec![SensorCfg::LmSensors {
            id: "test_sensor".to_string(),
            chip: "k10temp-pci-00c3".to_string(),
            feature: "Tctl".to_string(),
        }],
        ..Default::default()
    };
    let change_type = config1.analyze_changes(&config2);
    match change_type {
        ConfigChangeType::ColdRestart { changed_sections } => {
            assert!(changed_sections.contains(&"sensors".to_string()));
        }
        _ => panic!("Expected ColdRestart for sensor changes"),
    }
}

#[test]
fn analyze_changes_hot_reload_for_mappings() {
    let config1 = Config::default();
    let config2 = Config {
        mappings: vec![MappingCfg {
            sensor: "cpu_temp".to_string(),
            targets: vec![FanTarget {
                controller: 1,
                fan_idx: 1,
            }],
        }],
        ..Default::default()
    };
    let change_type = config1.analyze_changes(&config2);
    match change_type {
        ConfigChangeType::HotReload => {}
        _ => panic!("Expected HotReload for mapping changes"),
    }
}

#[test]
fn analyze_changes_no_changes() {
    let config1 = Config::default();
    let config2 = Config::default();
    match config1.analyze_changes(&config2) {
        ConfigChangeType::HotReload => {}
        _ => panic!("Expected HotReload for identical configs"),
    }
}

fn one_controller_one_sensor() -> Config {
    Config {
        controllers: vec![ControllerCfg::RiingQuad {
            id: "main".to_string(),
            usb: UsbSelector { vid: 0x264A, pid: 0x2260, serial: Some("A1".to_string()) },
            fans: vec![],
        }],
        curves: vec![CurveCfg::StepCurve { id: "s".to_string(), tmps: vec![30_000, 60_000], spds: vec![20, 80] }],
        sensors: vec![SensorCfg::LmSensors {
            id: "cpu".to_string(),
            chip: "k10temp-pci-00c3".to_string(),
            feature: "Tctl".to_string(),
        }],
        ..Default::default()
    }
}

#[test]
fn step_speeds_change_is_hot() {
    let a = one_controller_one_sensor();
    let mut b = one_controller_one_sensor();
    b.curves = vec![CurveCfg::StepCurve { id: "s".to_string(), tmps: vec![30_000, 60_000], spds: vec![30, 90] }];
    match a.analyze_changes(&b) {
        ConfigChangeType::HotReload => {}
        _ => panic!("Expected HotReload"),
    }
}

#[test]
fn sensor_feature_change_is_cold_for_sensors_only() {
    let a = one_controller_one_sensor();
    let mut b = one_controller_one_sensor();
    b.sensors = vec![SensorCfg::LmSensors {
        id: "cpu".to_string(),
        chip: "k10temp-pci-00c3".to_string(),
        feature: "Tdie".to_string(),
    }];
    match a.analyze_changes(&b) {
        ConfigChangeType::ColdRestart { changed_sections } => assert_eq!(changed_sections, vec!["sensors".to_string()]),
        _ => panic!("Expected ColdRestart"),
    }
}

#[test]
fn added_controller_is_cold_for_controllers_only() {
    let a = one_controller_one_sensor();
    let mut b = one_controller_one_sensor();
    b.controllers.push(ControllerCfg::RiingQuad {
        id: "second".to_string(),
        usb: UsbSelector { vid: 0x264A, pid: 0x2261, serial: None },
        fans: vec![],
    });
    match a.analyze_changes(&b) {
        ConfigChangeType::ColdRestart { changed_sections } => {
            assert_eq!(changed_sections, vec!["controllers".to_string()])
        }
        _ => panic!("Expected ColdRestart"),
    }
}

#[test]
fn both_sections_listed_in_order() {
    let a = one_controller_one_sensor();
    let b = Config::default();
    match a.analyze_changes(&b) {
        ConfigChangeType::ColdRestart { changed_sections } => {
            assert_eq!(changed_sections, vec!["controllers".to_string(), "sensors".to_string()])
        }
        _ => panic!("Expected ColdRestart"),
    }
}

#[test]
fn serial_change_is_a_controller_change() {
    let a = one_controller_one_sensor();
    let mut b = one_controller_one_sensor();
    b.controllers = vec![ControllerCfg::RiingQuad {
        id: "main".to_string(),
        usb: UsbSelector { vid: 0x264A, pid: 0x2260, serial: None },
        fans: vec![],
    }];
    assert!(matches!(a.analyze_changes(&b), ConfigChangeType::ColdRestart { .. }));
    assert!(matches!(b.analyze_changes(&b), ConfigChangeType::HotReload));
}

#[test]
fn defaults_and_version() {
    let c = Config::default();
    assert_eq!(c.version, 1);
    assert_eq!(c.tick_seconds, 2);
    assert!(!c.enable_broadcast);
    assert_eq!(c.broadcast_interval, 2);
    assert_eq!(tick_seconds(), 2);
    assert!(!enable_broadcast());
    assert_eq!(broadcast_interval(), 2);
    assert_eq!(c.validate(), Ok(()));
    let v2 = Config { version: 2, ..Default::default() };
    assert_eq!(v2.validate(), Err(ConfigError::UnsupportedVersion { found: 2 }));
}

#[test]
fn config_path_choice_order() {
    let s = |x: &str| x.to_string();
    assert_eq!(choose_config_path(Some(s("/env.yml")), Some(s("/u.yml")), true, s("/etc.yml"), true), Some(s("/env.yml")));
    assert_eq!(choose_config_path(None, Some(s("/u.yml")), true, s("/etc.yml"), true), Some(s("/u.yml")));
    assert_eq!(choose_config_path(None, Some(s("/u.yml")), false, s("/etc.yml"), true), Some(s("/etc.yml")));
    assert_eq!(choose_config_path(None, None, true, s("/etc.yml"), false), None);
}
