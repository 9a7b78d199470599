use std::cell::RefCell;

use tt_riingd::config::{ControllerCfg, CurveCfg, FanCfg, MappingCfg, FanTarget, UsbSelector, ColorCfg, ColorMappingCfg};
use tt_riingd::controller::{color_frame, expect_data, expect_status, ControlError, Controller, ControllerSet, DeviceIO, READ_TIMEOUT};
use tt_riingd::curve::{CurveError, FanCurve};
use tt_riingd::mappings::Mapping;
use tt_riingd::monitor::{apply_colors, find_color, run_tick, SampleCache};
use tt_riingd::protocol::{DeviceError, Response};

struct StubIo {
    written: RefCell<Vec<Vec<u8>>>,
    responses: RefCell<Vec<Vec<u8>>>,
    status: u8,
}

impl StubIo {
    fn new(resps: Vec<Vec<u8>>) -> Self {
        StubIo { written: RefCell::new(vec![]), responses: RefCell::new(resps), status: 0xFC }
    }
    fn with_status(status: u8) -> Self {
        StubIo { written: RefCell::new(vec![]), responses: RefCell::new(vec![]), status }
    }
    fn written(&self) -> Vec<Vec<u8>> {
        self.written.borrow().clone()
    }
}

impl DeviceIO for StubIo {
    fn write(&self, buf: &[u8]) -> Result<usize, DeviceError> {
        self.written.borrow_mut().push(buf.to_vec());
        Ok(buf.len())
    }
    fn read(&self, buf: &mut Vec<u8>, _timeout: i32) -> Result<(), DeviceError> {
        let mut resp = self.responses.borrow_mut();
        if !resp.is_empty() {
            let next = resp.remove(0);
            buf[..next.len()].copy_from_slice(&next);
            return Ok(());
        }
        let last = self.written.borrow().last().cloned().unwrap_or_default();
        match (last.get(1), last.get(2)) {
            (Some(0x33), Some(0x51)) => {
                buf[2] = 50;
                buf[3] = 0xE8;
                buf[4] = 0x03;
            }
            (Some(0x33), Some(0x50)) => {
                buf[0] = 1;
                buf[1] = 2;
                buf[2] = 3;
            }
            _ => buf[2] = self.status,
        }
        Ok(())
    }
}

#[test]
fn stub_io_cycle() {
    let stub = StubIo::new(vec![vec![0xAA]]);
    let n = stub.write(&[1, 2, 3]).unwrap();
    assert_eq!(n, 3);
    let mut buf = vec![0u8; 1];
    stub.read(&mut buf, READ_TIMEOUT).unwrap();
    assert_eq!(buf[0], 0xAA);
    assert_eq!(stub.written(), vec![vec![1, 2, 3]]);
}

fn constant_controller(io: StubIo) -> Controller<StubIo> {
    let cfg = ControllerCfg::RiingQuad {
        id: "one".to_string(),
        usb: UsbSelector { vid: 0x264A, pid: 0x2260, serial: None },
        fans: (1..=3)
            .map(|i| FanCfg {
                idx: i,
                name: format!("fan{}", i),
                active_curve: "c50".to_string(),
                curve: vec!["c50".to_string(), "ramp".to_string()],
            })
            .collect(),
    };
    let curves = vec![
        CurveCfg::Constant { id: "c50".to_string(), speed: 50 },
        CurveCfg::StepCurve { id: "ramp".to_string(), tmps: vec![30_000, 70_000], spds: vec![20, 100] },
    ];
    Controller::from_config(&cfg, io, &curves)
}

#[test]
fn update_channel_writes_duty_and_records_reply() {
    let mut c = constant_controller(StubIo::new(vec![]));
    c.update_channel(2, 65_000).unwrap();
    let w = c.dev.written();
    assert_eq!(w[0], vec![0x00, 0x32, 0x51, 2, 0x01, 50]);
    assert_eq!(w[1], vec![0x00, 0x33, 0x51, 2]);
    assert_eq!(c.fans[1].current_speed, 50);
    assert_eq!(c.fans[1].current_rpm, 1000);
    assert_eq!(c.fans[0].current_rpm, 0);
}

#[test]
fn update_channel_out_of_range() {
    let mut c = constant_controller(StubIo::new(vec![]));
    assert_eq!(c.update_channel(0, 40_000), Err(ControlError::UnknownChannel(0)));
    assert_eq!(c.update_channel(4, 40_000), Err(ControlError::UnknownChannel(4)));
    assert!(c.dev.written().is_empty());
}

#[test]
fn update_channel_surfaces_curve_error() {
    let mut c = constant_controller(StubIo::new(vec![]));
    c.switch_curve(1, "ramp").unwrap();
    assert_eq!(c.update_channel(1, 10_000), Err(ControlError::Curve(CurveError::TemperatureOutOfRange)));
    assert!(c.dev.written().is_empty());
    c.update_channel(1, 50_000).unwrap();
    assert_eq!(c.dev.written()[0], vec![0x00, 0x32, 0x51, 1, 0x01, 60]);
}

#[test]
fn invalid_status_is_reported() {
    let mut c = constant_controller(StubIo::with_status(0x00));
    assert_eq!(
        c.update_channel(1, 40_000),
        Err(ControlError::Device(DeviceError::InvalidStatus { expected: 0xFC, got: 0x00 }))
    );
    assert_eq!(c.fans[0].current_speed, 0);
    assert_eq!(c.init(), Err(DeviceError::InvalidStatus { expected: 0xFC, got: 0x00 }));
}

#[test]
fn status_and_data_interpretation() {
    assert_eq!(expect_status(Ok(Response::Status(0xFC))), Ok(()));
    assert_eq!(expect_status(Ok(Response::Status(0x01))), Err(DeviceError::InvalidStatus { expected: 0xFC, got: 0x01 }));
    assert_eq!(expect_status(Ok(Response::Data { speed: 1, rpm: 2 })), Err(DeviceError::UnexpectedResponse));
    assert_eq!(expect_data(Ok(Response::Data { speed: 55, rpm: 8208 })), Ok((55, 8208)));
    assert_eq!(expect_data(Err(DeviceError::IncompleteRead)), Err(DeviceError::IncompleteRead));
}

#[test]
fn channel_color_frame() {
    let frame = color_frame(1, 2, 3);
    assert_eq!(frame.len(), 52);
    assert!(frame.iter().all(|c| *c == (2, 1, 3)));
    let c = constant_controller(StubIo::new(vec![]));
    c.update_channel_color(3, 1, 2, 3).unwrap();
    let w = c.dev.written();
    assert_eq!(w[0][0..5], [0x00, 0x32, 0x52, 3, 0x24]);
    assert_eq!(w[0].len(), 161);
    assert_eq!(w[0][5..8], [2, 1, 3]);
    assert_eq!(c.update_channel_color(6, 1, 2, 3), Err(ControlError::UnknownChannel(6)));
}

#[test]
fn firmware_and_curves_through_the_set() {
    let mut set = ControllerSet::new(vec![constant_controller(StubIo::new(vec![]))]);
    assert_eq!(set.send_init(), Ok(()));
    assert_eq!(set.get_firmware_version(1), Ok((1, 2, 3)));
    assert_eq!(set.get_firmware_version(2), Err(ControlError::UnknownController(2)));
    assert_eq!(set.get_active_curve(1, 1), Ok("c50".to_string()));
    set.switch_curve(1, 1, "ramp").unwrap();
    assert_eq!(set.get_active_curve(1, 1), Ok("ramp".to_string()));
    assert_eq!(set.switch_curve(1, 1, "nope"), Err(ControlError::Curve(CurveError::UnknownCurve("nope".to_string()))));
    assert_eq!(set.switch_curve(3, 1, "ramp"), Err(ControlError::UnknownController(3)));
    let data = FanCurve::StepCurve { temps: vec![0, 100_000], speeds: vec![0, 100] };
    set.update_curve_data(1, 1, "ramp", &data).unwrap();
    assert_eq!(
        set.update_curve_data(1, 1, "c50", &data),
        Err(ControlError::Curve(CurveError::IncompatibleCurveKind))
    );
    set.update_channel(1, 1, 25_000).unwrap();
    assert_eq!(set.controllers[0].dev.written().last().unwrap(), &vec![0x00, 0x33, 0x51, 1]);
    assert_eq!(set.update_channel(0, 1, 25_000), Err(ControlError::UnknownController(0)));
    assert_eq!(set.update_channel_color(9, 1, 0, 0, 0), Err(ControlError::UnknownController(9)));
}

#[test]
fn update_speeds_covers_every_channel() {
    let mut c = constant_controller(StubIo::new(vec![]));
    c.update_speeds(40_000).unwrap();
    assert_eq!(c.dev.written().len(), 6);
    assert!(c.fans.iter().all(|f| f.current_speed == 50 && f.current_rpm == 1000));
}

#[test]
fn monitoring_tick_updates_mapped_fans() {
    let mut set = ControllerSet::new(vec![constant_controller(StubIo::new(vec![]))]);
    let mapping = Mapping::load_mappings(&vec![MappingCfg {
        sensor: "cpu".to_string(),
        targets: vec![FanTarget { controller: 1, fan_idx: 1 }, FanTarget { controller: 1, fan_idx: 2 }],
    }]);
    let readings = vec![("cpu".to_string(), Some(65_000)), ("gpu".to_string(), None)];
    let snapshot = run_tick(&mut set, &mapping, &readings);
    assert_eq!(snapshot, vec![("cpu".to_string(), 65_000)]);
    assert_eq!(set.controllers[0].fans[0].current_speed, 50);
    assert_eq!(set.controllers[0].fans[1].current_speed, 50);
    assert_eq!(set.controllers[0].fans[2].current_speed, 0);
    let mut cache = SampleCache::new();
    assert_eq!(cache.len(), 0);
    cache.replace(snapshot);
    assert_eq!(cache.get(&"cpu".to_string()), Some(65_000));
    assert_eq!(cache.get(&"gpu".to_string()), None);
    assert_eq!(cache.len(), 1);
}

#[test]
fn color_pass_paints_targets() {
    let set = ControllerSet::new(vec![constant_controller(StubIo::new(vec![]))]);
    let colors = vec![ColorCfg { color: "red".to_string(), rgb: [255, 0, 0] }];
    assert_eq!(find_color(&colors, &"red".to_string()), Some([255, 0, 0]));
    assert_eq!(find_color(&colors, &"blue".to_string()), None);
    let cms = vec![
        ColorMappingCfg { color: "red".to_string(), targets: vec![FanTarget { controller: 1, fan_idx: 2 }] },
        ColorMappingCfg { color: "blue".to_string(), targets: vec![FanTarget { controller: 1, fan_idx: 1 }] },
    ];
    assert_eq!(apply_colors(&set, &cms, &colors), 1);
    let w = set.controllers[0].dev.written();
    assert_eq!(w.len(), 1);
    assert_eq!(w[0][0..8], [0x00, 0x32, 0x52, 2, 0x24, 0, 255, 0]);
}

use tt_riingd::config::Config;
use tt_riingd::controller::{color_command, first_failure_index};
use tt_riingd::mappings::FanRef;
use tt_riingd::monitor::{color_requests, plan_tick, ColorRequest};
use tt_riingd::protocol::Command;

#[test]
fn plan_lists_fans_of_read_sensors_only() {
    let mapping = Mapping::load_mappings(&vec![
        MappingCfg { sensor: "cpu".to_string(), targets: vec![FanTarget { controller: 1, fan_idx: 1 }, FanTarget { controller: 1, fan_idx: 2 }] },
        MappingCfg { sensor: "gpu".to_string(), targets: vec![FanTarget { controller: 1, fan_idx: 3 }] },
    ]);
    let readings = vec![("cpu".to_string(), Some(65_000)), ("gpu".to_string(), None)];
    let mut plan = plan_tick(&mapping, &readings);
    assert_eq!(plan.len(), 2);
    plan[0].sort_by_key(|f| f.channel);
    assert_eq!(plan[0], vec![FanRef { controller_id: 0, channel: 0 }, FanRef { controller_id: 0, channel: 1 }]);
    assert!(plan[1].is_empty());
}

#[test]
fn failed_reading_leaves_its_fans_alone() {
    let mut set = ControllerSet::new(vec![constant_controller(StubIo::new(vec![]))]);
    let mapping = Mapping::load_mappings(&vec![
        MappingCfg { sensor: "cpu".to_string(), targets: vec![FanTarget { controller: 1, fan_idx: 1 }] },
        MappingCfg { sensor: "gpu".to_string(), targets: vec![FanTarget { controller: 1, fan_idx: 2 }] },
        MappingCfg { sensor: "bad".to_string(), targets: vec![FanTarget { controller: 9, fan_idx: 1 }, FanTarget { controller: 1, fan_idx: 1 }] },
    ]);
    let readings = vec![("gpu".to_string(), None), ("bad".to_string(), Some(40_000)), ("cpu".to_string(), Some(65_000))];
    let snapshot = run_tick(&mut set, &mapping, &readings);
    assert_eq!(snapshot, vec![("bad".to_string(), 40_000), ("cpu".to_string(), 65_000)]);
    assert_eq!(set.controllers[0].fans[0].current_speed, 50);
    assert_eq!(set.controllers[0].fans[1].current_speed, 0);
    let speed_writes: Vec<Vec<u8>> = set.controllers[0].dev.written().into_iter().filter(|w| w[1] == 0x32).collect();
    assert_eq!(speed_writes, vec![vec![0x00, 0x32, 0x51, 1, 0x01, 50], vec![0x00, 0x32, 0x51, 1, 0x01, 50]]);
}

#[test]
fn color_requests_follow_mappings() {
    let colors = vec![
        ColorCfg { color: "red".to_string(), rgb: [255, 0, 0] },
        ColorCfg { color: "red".to_string(), rgb: [1, 1, 1] },
    ];
    let cms = vec![
        ColorMappingCfg { color: "red".to_string(), targets: vec![FanTarget { controller: 1, fan_idx: 2 }, FanTarget { controller: 2, fan_idx: 1 }] },
        ColorMappingCfg { color: "blue".to_string(), targets: vec![FanTarget { controller: 1, fan_idx: 1 }] },
    ];
    let (reqs, missing) = color_requests(&cms, &colors);
    assert_eq!(missing, 1);
    assert_eq!(
        reqs,
        vec![
            ColorRequest { controller: 1, channel: 2, red: 255, green: 0, blue: 0 },
            ColorRequest { controller: 2, channel: 1, red: 255, green: 0, blue: 0 },
        ]
    );
    let set = ControllerSet::new(vec![constant_controller(StubIo::new(vec![]))]);
    assert_eq!(apply_colors(&set, &cms, &colors), 2);
}

#[test]
fn color_command_has_52_triplets() {
    match color_command(4, 1, 2, 3) {
        Command::SetRgb { port, mode, colors } => {
            assert_eq!(port, 4);
            assert_eq!(mode, 0x24);
            assert_eq!(colors, vec![(2, 1, 3); 52]);
        }
        _ => panic!("expected SetRgb"),
    }
}

#[test]
fn set_level_color_and_firmware_delegate() {
    let set = ControllerSet::new(vec![constant_controller(StubIo::with_status(0x01))]);
    assert_eq!(
        set.update_channel_color(1, 2, 1, 2, 3),
        Err(ControlError::Device(DeviceError::InvalidStatus { expected: 0xFC, got: 0x01 }))
    );
    assert_eq!(set.update_channel_color(1, 7, 1, 2, 3), Err(ControlError::UnknownChannel(7)));
    assert_eq!(set.get_firmware_version(1), Ok((1, 2, 3)));
    assert_eq!(set.send_init(), Err(ControlError::Device(DeviceError::InvalidStatus { expected: 0xFC, got: 0x01 })));
    assert_eq!(ControllerSet::<StubIo>::new(vec![]).send_init(), Ok(()));
}

#[test]
fn first_failure_is_found() {
    let rs = vec![Ok(()), Err(ControlError::UnknownChannel(2)), Err(ControlError::UnknownChannel(3))];
    assert_eq!(first_failure_index(&rs), Some(1));
    assert_eq!(first_failure_index(&vec![Ok(()), Ok(())]), None);
}

#[test]
fn cache_keeps_later_sample_of_a_sensor() {
    let mut cache = SampleCache::new();
    cache.replace(vec![("cpu".to_string(), 1), ("gpu".to_string(), 2), ("cpu".to_string(), 3)]);
    assert_eq!(cache.len(), 2);
    assert_eq!(cache.get(&"cpu".to_string()), Some(3));
    assert_eq!(cache.get(&"gpu".to_string()), Some(2));
    let _ = Config::default();
}
