//! A controller session over a device, its fan channels, and the set of
//! controllers addressed by 1-based position.
use vstd::prelude::*;

use crate::curve::{CurveError, CurveModel, FanCurve};
use crate::config::{ControllerCfg, CurveCfg, strings_view};
use crate::fan::{Fan, FanView, assemble_curves, curve_index, switched, updated};
use crate::protocol::{
    Command, DeviceError, MODE_FULL_STATIC, RESPONSE_LEN, RGB_TRIPLETS, Response, STATUS_OK,
};

verus! {

/// Read timeout for one response, in milliseconds.
pub const READ_TIMEOUT: i32 = 250;

/// The byte transport of one controller.
pub trait DeviceIO {
    /// Writes one report; returns the number of bytes written.
    fn write(&self, buf: &[u8]) -> Result<usize, DeviceError>;

    /// Reads one report into `buf`, waiting at most `timeout` milliseconds.
    fn read(&self, buf: &mut Vec<u8>, timeout: i32) -> Result<(), DeviceError>;
}

/// Failures of a channel or controller operation.
#[derive(Debug, Clone, PartialEq, Eq)]
pub enum ControlError {
    Curve(CurveError),
    Device(DeviceError),
    UnknownChannel(u8),
    UnknownController(u8),
}

/// What a status reply means: success only for the success byte.
pub open spec fn status_outcome(r: Result<Response, DeviceError>) -> Result<(), DeviceError> {
    match r {
        Ok(Response::Status(s)) => if s == STATUS_OK {
            Ok(())
        } else {
            Err(DeviceError::InvalidStatus { expected: STATUS_OK, got: s })
        },
        Ok(_) => Err(DeviceError::UnexpectedResponse),
        Err(e) => Err(e),
    }
}

/// Turns a decoded reply into the outcome of a status command.
pub fn expect_status(r: Result<Response, DeviceError>) -> (out: Result<(), DeviceError>)
    ensures
        out == status_outcome(r),
{
    match r {
        Ok(Response::Status(s)) => {
            if s == STATUS_OK {
                Ok(())
            } else {
                Err(DeviceError::InvalidStatus { expected: STATUS_OK, got: s })
            }
        },
        Ok(_) => Err(DeviceError::UnexpectedResponse),
        Err(e) => Err(e),
    }
}

/// What a data reply means: the reported speed and RPM.
pub open spec fn data_outcome(r: Result<Response, DeviceError>) -> Result<(u8, u16), DeviceError> {
    match r {
        Ok(Response::Data { speed, rpm }) => Ok((speed, rpm)),
        Ok(_) => Err(DeviceError::UnexpectedResponse),
        Err(e) => Err(e),
    }
}

/// Turns a decoded reply into the speed and RPM it reports.
pub fn expect_data(r: Result<Response, DeviceError>) -> (out: Result<(u8, u16), DeviceError>)
    ensures
        out == data_outcome(r),
{
    match r {
        Ok(Response::Data { speed, rpm }) => Ok((speed, rpm)),
        Ok(_) => Err(DeviceError::UnexpectedResponse),
        Err(e) => Err(e),
    }
}

/// What a firmware reply means: major, minor and patch.
pub open spec fn firmware_outcome(r: Result<Response, DeviceError>) -> Result<(u8, u8, u8), DeviceError> {
    match r {
        Ok(Response::FirmwareVersion { major, minor, patch }) => Ok((major, minor, patch)),
        Ok(_) => Err(DeviceError::UnexpectedResponse),
        Err(e) => Err(e),
    }
}

/// Turns a decoded reply into the firmware version it reports.
pub fn expect_firmware(r: Result<Response, DeviceError>) -> (out: Result<(u8, u8, u8), DeviceError>)
    ensures
        out == firmware_outcome(r),
{
    match r {
        Ok(Response::FirmwareVersion { major, minor, patch }) => Ok((major, minor, patch)),
        Ok(_) => Err(DeviceError::UnexpectedResponse),
        Err(e) => Err(e),
    }
}

/// The full-fan static color frame: `(green, red, blue)` repeated.
pub fn color_frame(red: u8, green: u8, blue: u8) -> (r: Vec<(u8, u8, u8)>)
    ensures
        r@.len() == RGB_TRIPLETS,
        forall|k: int| 0 <= k < r@.len() ==> r@[k] == (green, red, blue),
{
    let mut colors: Vec<(u8, u8, u8)> = Vec::new();
    let mut i: usize = 0;
    while i < RGB_TRIPLETS
        invariant
            i <= RGB_TRIPLETS,
            colors@.len() == i,
            forall|k: int| 0 <= k < colors@.len() ==> colors@[k] == (green, red, blue),
        decreases RGB_TRIPLETS - i,
    {
        colors.push((green, red, blue));
        i = i + 1;
    }
    colors
}

/// The command that paints a port in one static color: the full-fan mode
/// and `RGB_TRIPLETS` triplets of `(green, red, blue)`.
pub fn color_command(port: u8, red: u8, green: u8, blue: u8) -> (c: Command)
    ensures
        match c {
            Command::SetRgb { port: p, mode, colors } => p == port && mode == MODE_FULL_STATIC
                && colors@ == Seq::new(RGB_TRIPLETS as nat, |k: int| (green, red, blue)),
            _ => false,
        },
{
    let colors = color_frame(red, green, blue);
    assert(colors@ =~= Seq::new(RGB_TRIPLETS as nat, |k: int| (green, red, blue)));
    Command::SetRgb { port, mode: MODE_FULL_STATIC, colors }
}

/// What holds after painting a channel of a controller with `n` fans,
/// whatever the device answered.
pub open spec fn color_post(n: int, channel: u8, r: Result<(), ControlError>) -> bool {
    &&& !channel_ok(channel, n) ==> r == Err::<(), ControlError>(ControlError::UnknownChannel(channel))
    &&& channel_ok(channel, n) ==> (r is Ok || r->Err_0 is Device)
}

/// The first failure among per-controller results, if any.
pub open spec fn first_error(results: Seq<Result<(), ControlError>>) -> Result<(), ControlError>
    decreases results.len(),
{
    if results.len() == 0 {
        Ok(())
    } else if results[0] is Err {
        results[0]
    } else {
        first_error(results.drop_first())
    }
}

/// Position of the first failure among per-controller results.
pub fn first_failure_index(results: &Vec<Result<(), ControlError>>) -> (r: Option<usize>)
    ensures
        match r {
            Some(i) => i < results@.len() && results@[i as int] is Err && first_error(results@) == results@[i as int],
            None => first_error(results@) is Ok,
        },
{
    let mut i: usize = 0;
    assert(results@.subrange(0, results@.len() as int) =~= results@);
    while i < results.len()
        invariant
            i <= results@.len(),
            first_error(results@) == first_error(results@.subrange(i as int, results@.len() as int)),
        decreases results@.len() - i,
    {
        proof {
            assert(results@.subrange(i as int, results@.len() as int).drop_first() =~= results@.subrange(i + 1, results@.len() as int));
        }
        if results[i].is_err() {
            return Some(i);
        }
        i = i + 1;
    }
    None
}

/// One controller: its transport and its fan channels.
pub struct Controller<Io: DeviceIO> {
    pub name: String,
    pub dev: Io,
    pub fans: Vec<Fan>,
}

pub open spec fn fans_view(fans: Seq<Fan>) -> Seq<FanView> {
    fans.map_values(|f: Fan| f@)
}

/// Whether `channel` (1-based) names one of `n` fans.
pub open spec fn channel_ok(channel: u8, n: int) -> bool {
    1 <= channel <= n
}

impl<Io: DeviceIO> Controller<Io> {
    pub open spec fn wf(&self) -> bool {
        forall|k: int| 0 <= k < self.fans@.len() ==> (#[trigger] self.fans@[k]).wf()
    }

    /// A controller over `dev` with the given fans.
    pub fn new(name: String, dev: Io, fans: Vec<Fan>) -> (r: Self)
        ensures
            r.name == name,
            r.dev == dev,
            r.fans == fans,
    {
        Controller { name, dev, fans }
    }

    /// One exchange: encode, write, read a full report, decode.
    fn request(&self, cmd: Command) -> (r: Result<Response, DeviceError>)
        requires
            match cmd {
                Command::SetRgb { colors, .. } => 5 + 3 * colors@.len() <= usize::MAX,
                _ => true,
            },
    {
        let pkt = cmd.to_bytes();
        match self.dev.write(pkt.as_slice()) {
            Ok(_) => {},
            Err(e) => return Err(e),
        }
        let mut buf: Vec<u8> = vec![0u8; cmd.expected_response_len()];
        match self.dev.read(&mut buf, READ_TIMEOUT) {
            Ok(()) => {},
            Err(e) => return Err(e),
        }
        Response::parse(cmd, buf.as_slice())
    }

    /// Sends the initialisation command.
    pub fn init(&self) -> (r: Result<(), DeviceError>) {
        expect_status(self.request(Command::Init))
    }

    /// Reads the firmware version as (major, minor, patch).
    pub fn get_firmware_version(&self) -> (r: Result<(u8, u8, u8), DeviceError>) {
        expect_firmware(self.request(Command::GetFirmwareVersion))
    }

    /// Sets a port's duty percentage.
    pub fn set_speed(&self, port: u8, speed: u8) -> (r: Result<(), DeviceError>) {
        expect_status(self.request(Command::SetSpeed { port, speed }))
    }

    /// Reads a port's duty percentage and RPM.
    pub fn get_data(&self, port: u8) -> (r: Result<(u8, u16), DeviceError>) {
        expect_data(self.request(Command::GetData { port }))
    }

    /// Writes a port's RGB frame.
    pub fn set_rgb(&self, port: u8, mode: u8, colors: Vec<(u8, u8, u8)>) -> (r: Result<(), DeviceError>)
        requires
            5 + 3 * colors@.len() <= usize::MAX,
    {
        expect_status(self.request(Command::SetRgb { port, mode, colors }))
    }

    /// Computes the duty of channel `channel` (1-based) for `temp`, writes it,
    /// reads back speed and RPM and records them.
    pub fn update_channel(&mut self, channel: u8, temp: i32) -> (r: Result<(), ControlError>)
        requires
            old(self).wf(),
        ensures
            update_channel_post(*old(self), *final(self), channel, temp, r),
    {
        if channel == 0 || channel as usize > self.fans.len() {
            return Err(ControlError::UnknownChannel(channel));
        }
        let idx: usize = (channel - 1) as usize;
        let speed = match self.fans[idx].compute_speed(temp) {
            Ok(s) => s,
            Err(e) => return Err(ControlError::Curve(e)),
        };
        match self.set_speed(channel, speed) {
            Ok(()) => {},
            Err(e) => return Err(ControlError::Device(e)),
        }
        let (ret_speed, rpm) = match self.get_data(channel) {
            Ok(d) => d,
            Err(e) => return Err(ControlError::Device(e)),
        };
        let mut fan = self.fans.remove(idx);
        fan.update_stats(ret_speed, rpm);
        self.fans.insert(idx, fan);
        Ok(())
    }

    /// Makes `curve` the active curve of channel `channel` (1-based).
    pub fn switch_curve(&mut self, channel: u8, curve: &str) -> (r: Result<(), ControlError>)
        requires
            old(self).wf(),
        ensures
            switch_curve_post(*old(self), *final(self), channel, curve@, r),
    {
        if channel == 0 || channel as usize > self.fans.len() {
            return Err(ControlError::UnknownChannel(channel));
        }
        let idx: usize = (channel - 1) as usize;
        let mut fan = self.fans.remove(idx);
        let r = fan.update_curve(curve);
        self.fans.insert(idx, fan);
        match r {
            Ok(()) => Ok(()),
            Err(e) => Err(ControlError::Curve(e)),
        }
    }

    /// Name of the active curve of channel `channel` (1-based).
    pub fn get_active_curve(&self, channel: u8) -> (r: Result<String, ControlError>)
        ensures
            !channel_ok(channel, self.fans@.len() as int) ==> r == Err::<String, ControlError>(
                ControlError::UnknownChannel(channel),
            ),
            channel_ok(channel, self.fans@.len() as int) ==> r is Ok && r->Ok_0@ == self.fans@[channel
                - 1]@.active_curve,
    {
        if channel == 0 || channel as usize > self.fans.len() {
            return Err(ControlError::UnknownChannel(channel));
        }
        match self.fans[(channel - 1) as usize].get_active_curve() {
            Ok(s) => Ok(s),
            Err(e) => Err(ControlError::Curve(e)),
        }
    }

    /// Replaces the data of curve `curve` on channel `channel` (1-based).
    pub fn update_curve_data(&mut self, channel: u8, curve: &str, curve_data: &FanCurve) -> (r: Result<(), ControlError>)
        requires
            old(self).wf(),
        ensures
            update_curve_data_post(*old(self), *final(self), channel, curve@, curve_data@, r),
    {
        if channel == 0 || channel as usize > self.fans.len() {
            return Err(ControlError::UnknownChannel(channel));
        }
        let idx: usize = (channel - 1) as usize;
        let mut fan = self.fans.remove(idx);
        let r = fan.update_curve_data(curve, curve_data);
        self.fans.insert(idx, fan);
        match r {
            Ok(()) => Ok(()),
            Err(e) => Err(ControlError::Curve(e)),
        }
    }

    /// Paints channel `channel` (1-based) in one static color.
    pub fn update_channel_color(&self, channel: u8, red: u8, green: u8, blue: u8) -> (r: Result<(), ControlError>)
        ensures
            color_post(self.fans@.len() as int, channel, r),
    {
        if channel == 0 || channel as usize > self.fans.len() {
            return Err(ControlError::UnknownChannel(channel));
        }
        match expect_status(self.request(color_command(channel, red, green, blue))) {
            Ok(()) => Ok(()),
            Err(e) => Err(ControlError::Device(e)),
        }
    }
}

/// What holds after `update_channel`, whatever the device answered.
pub open spec fn update_channel_post<Io: DeviceIO>(old: Controller<Io>, new: Controller<Io>, channel: u8, temp: i32, r: Result<(), ControlError>) -> bool {
    &&& new.wf()
    &&& new.fans@.len() == old.fans@.len()
    &&& !channel_ok(channel, old.fans@.len() as int) ==> r == Err::<(), ControlError>(
                ControlError::UnknownChannel(channel)) && fans_view(new.fans@) == fans_view(old.fans@)
    &&& (channel_ok(channel, old.fans@.len() as int) && old.fans@[channel - 1].compute_speed_spec(temp) is Ok)
        ==> (r is Ok || r->Err_0 is Device)
    &&& channel_ok(channel, old.fans@.len() as int) ==> ({
                let i = channel - 1;
                let before = old.fans@[i]@;
                let after = new.fans@[i]@;
                &&& forall|k: int|
                    0 <= k < new.fans@.len() && k != i ==> new.fans@[k]@ == old.fans@[k]@
                &&& after.active_curve == before.active_curve
                &&& after.curves == before.curves
                &&& old.fans@[i].compute_speed_spec(temp) is Err ==> r == Err::<(), ControlError>(
                    ControlError::Curve(old.fans@[i].compute_speed_spec(temp)->Err_0),
                ) && after == before
                &&& r is Ok ==> old.fans@[i].compute_speed_spec(temp) is Ok
            })
}

/// What holds after `switch_curve`, whatever the device answered.
pub open spec fn switch_curve_post<Io: DeviceIO>(old: Controller<Io>, new: Controller<Io>, channel: u8, curve: Seq<char>, r: Result<(), ControlError>) -> bool {
    &&& new.wf()
    &&& new.fans@.len() == old.fans@.len()
    &&& !channel_ok(channel, old.fans@.len() as int) ==> r == Err::<(), ControlError>(
                ControlError::UnknownChannel(channel)) && fans_view(new.fans@) == fans_view(old.fans@)
    &&& channel_ok(channel, old.fans@.len() as int) ==> ({
                let i = channel - 1;
                let before = old.fans@[i]@;
                &&& forall|k: int|
                    0 <= k < new.fans@.len() && k != i ==> new.fans@[k]@ == old.fans@[k]@
                &&& curve_index(before.curves, curve) >= 0 ==> r is Ok && new.fans@[i]@
                    == switched(before, curve)
                &&& curve_index(before.curves, curve) == -1 ==> r is Err && new.fans@[i]@
                    == before
            })
}

/// What holds after `update_curve_data`, whatever the device answered.
pub open spec fn update_curve_data_post<Io: DeviceIO>(old: Controller<Io>, new: Controller<Io>, channel: u8, curve: Seq<char>, curve_data: CurveModel, r: Result<(), ControlError>) -> bool {
    &&& new.wf()
    &&& new.fans@.len() == old.fans@.len()
    &&& !channel_ok(channel, old.fans@.len() as int) ==> r == Err::<(), ControlError>(
                ControlError::UnknownChannel(channel)) && fans_view(new.fans@) == fans_view(old.fans@)
    &&& channel_ok(channel, old.fans@.len() as int) ==> ({
                let i = channel - 1;
                let before = old.fans@[i]@;
                let ci = curve_index(before.curves, curve);
                &&& forall|k: int|
                    0 <= k < new.fans@.len() && k != i ==> new.fans@[k]@ == old.fans@[k]@
                &&& (ci >= 0 && before.curves[ci].1.kind() == curve_data.kind()) ==> r is Ok
                    && new.fans@[i]@ == updated(before, curve, curve_data)
                &&& ci == -1 ==> r is Err && new.fans@[i]@ == before
                &&& (ci >= 0 && before.curves[ci].1.kind() != curve_data.kind()) ==> r
                    == Err::<(), ControlError>(ControlError::Curve(CurveError::IncompatibleCurveKind))
                    && new.fans@[i]@ == before
            })
}

impl<Io: DeviceIO> Controller<Io> {
    /// A controller as configured, over an opened device: one fan per fan
    /// entry, in order, each built from the curve table.
    pub fn from_config(cfg: &ControllerCfg, dev: Io, curves: &Vec<CurveCfg>) -> (r: Self)
        ensures
            r.wf(),
            r.dev == dev,
            ({
                let ControllerCfg::RiingQuad { id, fans, .. } = *cfg;
                &&& r.name@ == id@
                &&& r.fans@.len() == fans@.len()
                &&& forall|k: int| 0 <= k < fans@.len() ==> {
                    &&& (#[trigger] r.fans@[k])@.active_curve == fans@[k].active_curve@
                    &&& r.fans@[k]@.current_speed == 0
                    &&& r.fans@[k]@.current_rpm == 0
                    &&& r.fans@[k]@.curves == assemble_curves(strings_view(fans@[k].curve@), curves@)
                }
            }),
    {
        match cfg {
            ControllerCfg::RiingQuad { id, fans, .. } => {
                let mut out: Vec<Fan> = Vec::new();
                let mut i: usize = 0;
                while i < fans.len()
                    invariant
                        i <= fans@.len(),
                        out@.len() == i,
                        forall|k: int| 0 <= k < i ==> {
                            &&& (#[trigger] out@[k]).wf()
                            &&& out@[k]@.active_curve == fans@[k].active_curve@
                            &&& out@[k]@.current_speed == 0
                            &&& out@[k]@.current_rpm == 0
                            &&& out@[k]@.curves == assemble_curves(strings_view(fans@[k].curve@), curves@)
                        },
                    decreases fans@.len() - i,
                {
                    out.push(Fan::from_config(&fans[i], curves));
                    i = i + 1;
                }
                Controller { name: id.clone(), dev, fans: out }
            },
        }
    }

    /// Sends the initialisation command; a failure names the device error.
    pub fn send_init(&self) -> (r: Result<(), ControlError>)
        ensures
            r is Ok || r->Err_0 is Device,
    {
        match self.init() {
            Ok(()) => Ok(()),
            Err(e) => Err(ControlError::Device(e)),
        }
    }

    /// Reads the firmware version.
    pub fn firmware_version(&self) -> (r: Result<(u8, u8, u8), ControlError>)
        ensures
            r is Ok || r->Err_0 is Device,
    {
        match self.get_firmware_version() {
            Ok(v) => Ok(v),
            Err(e) => Err(ControlError::Device(e)),
        }
    }

    /// Updates every channel in order for one temperature, stopping at the
    /// first failure.
    pub fn update_speeds(&mut self, temp: i32) -> (r: Result<(), ControlError>)
        requires
            old(self).wf(),
        ensures
            final(self).wf(),
            final(self).fans@.len() == old(self).fans@.len(),
            forall|k: int| 0 <= k < old(self).fans@.len() ==> (#[trigger] final(self).fans@[k])@.curves == old(self).fans@[k]@.curves
                && final(self).fans@[k]@.active_curve == old(self).fans@[k]@.active_curve,
            r is Err ==> (r->Err_0 is Curve || r->Err_0 is Device),
            r is Ok ==> forall|k: int| 0 <= k < old(self).fans@.len() && k < 255 ==> (#[trigger] old(self).fans@[k]).compute_speed_spec(temp) is Ok,
    {
        let n: usize = if self.fans.len() > 255 { 255 } else { self.fans.len() };
        let mut ch: usize = 1;
        while ch <= n
            invariant
                self.wf(),
                self.fans@.len() == old(self).fans@.len(),
                n <= 255,
                n == (if old(self).fans@.len() > 255 { 255 } else { old(self).fans@.len() }),
                1 <= ch <= n + 1,
                forall|k: int| 0 <= k < old(self).fans@.len() ==> (#[trigger] self.fans@[k])@.curves == old(self).fans@[k]@.curves
                    && self.fans@[k]@.active_curve == old(self).fans@[k]@.active_curve,
                forall|k: int| 0 <= k < ch - 1 ==> (#[trigger] old(self).fans@[k]).compute_speed_spec(temp) is Ok,
            decreases n + 1 - ch,
        {
            let ghost before = self.fans@;
            match self.update_channel(ch as u8, temp) {
                Ok(()) => {},
                Err(e) => return Err(e),
            }
            proof {
                assert forall|k: int| 0 <= k < old(self).fans@.len() implies (#[trigger] self.fans@[k])@.curves == old(self).fans@[k]@.curves
                    && self.fans@[k]@.active_curve == old(self).fans@[k]@.active_curve by {
                    assert(before[k]@.curves == old(self).fans@[k]@.curves);
                }
                let i = ch - 1;
                assert(before[i as int].compute_speed_spec(temp) is Ok);
                assert(before[i as int]@.curves == old(self).fans@[i as int]@.curves);
                assert(old(self).fans@[i as int].compute_speed_spec(temp) is Ok);
            }
            ch = ch + 1;
        }
        Ok(())
    }
}

/// The controllers of the service, addressed by 1-based position.
pub struct ControllerSet<Io: DeviceIO> {
    pub controllers: Vec<Controller<Io>>,
}

/// Whether `id` (1-based) names one of `n` controllers.
pub open spec fn controller_ok(id: u8, n: int) -> bool {
    1 <= id <= n
}

impl<Io: DeviceIO> ControllerSet<Io> {
    pub open spec fn wf(&self) -> bool {
        forall|k: int| 0 <= k < self.controllers@.len() ==> (#[trigger] self.controllers@[k]).wf()
    }

    /// The set of the given controllers, in order.
    pub fn new(controllers: Vec<Controller<Io>>) -> (r: Self)
        ensures
            r.controllers == controllers,
    {
        ControllerSet { controllers }
    }

    /// Sends the initialisation command to every controller; the first
    /// failure is returned after all were tried.
    pub fn send_init(&self) -> (r: Result<(), ControlError>)
        ensures
            self.controllers@.len() == 0 ==> r is Ok,
            r is Ok || r->Err_0 is Device,
    {
        let mut results: Vec<Result<(), ControlError>> = Vec::new();
        let mut i: usize = 0;
        while i < self.controllers.len()
            invariant
                i <= self.controllers@.len(),
                results@.len() == i,
                forall|k: int| 0 <= k < results@.len() ==> (#[trigger] results@[k] is Ok || results@[k]->Err_0 is Device),
            decreases self.controllers@.len() - i,
        {
            results.push(self.controllers[i].send_init());
            i = i + 1;
        }
        match first_failure_index(&results) {
            Some(k) => results.remove(k),
            None => Ok(()),
        }
    }

    /// Runs one channel update on controller `controller` (1-based).
    pub fn update_channel(&mut self, controller: u8, channel: u8, temp: i32) -> (r: Result<(), ControlError>)
        requires
            old(self).wf(),
        ensures
            final(self).wf(),
            final(self).controllers@.len() == old(self).controllers@.len(),
            !controller_ok(controller, old(self).controllers@.len() as int) ==> r == Err::<(), ControlError>(
                ControlError::UnknownController(controller),
            ) && final(self).controllers@ == old(self).controllers@,
            controller_ok(controller, old(self).controllers@.len() as int) ==> {
                let i = controller - 1;
                &&& update_channel_post(old(self).controllers@[i], final(self).controllers@[i], channel, temp, r)
                &&& forall|k: int| 0 <= k < old(self).controllers@.len() && k != i ==> final(self).controllers@[k] == old(self).controllers@[k]
            },
    {
        if controller == 0 || controller as usize > self.controllers.len() {
            return Err(ControlError::UnknownController(controller));
        }
        let idx: usize = (controller - 1) as usize;
        let mut c = self.controllers.remove(idx);
        let r = c.update_channel(channel, temp);
        self.controllers.insert(idx, c);
        r
    }

    /// Paints one channel of controller `controller` (1-based).
    pub fn update_channel_color(&self, controller: u8, channel: u8, red: u8, green: u8, blue: u8) -> (r: Result<(), ControlError>)
        ensures
            !controller_ok(controller, self.controllers@.len() as int) ==> r == Err::<(), ControlError>(
                ControlError::UnknownController(controller),
            ),
            controller_ok(controller, self.controllers@.len() as int) ==> color_post(
                self.controllers@[controller - 1].fans@.len() as int,
                channel,
                r,
            ),
    {
        if controller == 0 || controller as usize > self.controllers.len() {
            return Err(ControlError::UnknownController(controller));
        }
        self.controllers[(controller - 1) as usize].update_channel_color(channel, red, green, blue)
    }

    /// Switches the active curve of one channel.
    pub fn switch_curve(&mut self, controller: u8, channel: u8, curve: &str) -> (r: Result<(), ControlError>)
        requires
            old(self).wf(),
        ensures
            final(self).wf(),
            final(self).controllers@.len() == old(self).controllers@.len(),
            !controller_ok(controller, old(self).controllers@.len() as int) ==> r == Err::<(), ControlError>(
                ControlError::UnknownController(controller),
            ) && final(self).controllers@ == old(self).controllers@,
            controller_ok(controller, old(self).controllers@.len() as int) ==> {
                let i = controller - 1;
                &&& switch_curve_post(old(self).controllers@[i], final(self).controllers@[i], channel, curve@, r)
                &&& forall|k: int| 0 <= k < old(self).controllers@.len() && k != i ==> final(self).controllers@[k] == old(self).controllers@[k]
            },
    {
        if controller == 0 || controller as usize > self.controllers.len() {
            return Err(ControlError::UnknownController(controller));
        }
        let idx: usize = (controller - 1) as usize;
        let mut c = self.controllers.remove(idx);
        let r = c.switch_curve(channel, curve);
        self.controllers.insert(idx, c);
        r
    }

    /// Name of the active curve of one channel.
    pub fn get_active_curve(&self, controller: u8, channel: u8) -> (r: Result<String, ControlError>)
        ensures
            !controller_ok(controller, self.controllers@.len() as int) ==> r == Err::<String, ControlError>(
                ControlError::UnknownController(controller),
            ),
            controller_ok(controller, self.controllers@.len() as int) ==> {
                let c = self.controllers@[controller - 1];
                &&& !channel_ok(channel, c.fans@.len() as int) ==> r == Err::<String, ControlError>(ControlError::UnknownChannel(channel))
                &&& channel_ok(channel, c.fans@.len() as int) ==> r is Ok && r->Ok_0@ == c.fans@[channel - 1]@.active_curve
            },
    {
        if controller == 0 || controller as usize > self.controllers.len() {
            return Err(ControlError::UnknownController(controller));
        }
        self.controllers[(controller - 1) as usize].get_active_curve(channel)
    }

    /// Firmware version of controller `controller` (1-based).
    pub fn get_firmware_version(&self, controller: u8) -> (r: Result<(u8, u8, u8), ControlError>)
        ensures
            !controller_ok(controller, self.controllers@.len() as int) ==> r == Err::<(u8, u8, u8), ControlError>(
                ControlError::UnknownController(controller),
            ),
            controller_ok(controller, self.controllers@.len() as int) ==> (r is Ok || r->Err_0 is Device),
    {
        if controller == 0 || controller as usize > self.controllers.len() {
            return Err(ControlError::UnknownController(controller));
        }
        self.controllers[(controller - 1) as usize].firmware_version()
    }

    /// Replaces the data of one curve of one channel.
    pub fn update_curve_data(&mut self, controller: u8, channel: u8, curve: &str, curve_data: &FanCurve) -> (r: Result<(), ControlError>)
        requires
            old(self).wf(),
        ensures
            final(self).wf(),
            final(self).controllers@.len() == old(self).controllers@.len(),
            !controller_ok(controller, old(self).controllers@.len() as int) ==> r == Err::<(), ControlError>(
                ControlError::UnknownController(controller),
            ) && final(self).controllers@ == old(self).controllers@,
            controller_ok(controller, old(self).controllers@.len() as int) ==> {
                let i = controller - 1;
                &&& update_curve_data_post(old(self).controllers@[i], final(self).controllers@[i], channel, curve@, curve_data@, r)
                &&& forall|k: int| 0 <= k < old(self).controllers@.len() && k != i ==> final(self).controllers@[k] == old(self).controllers@[k]
            },
    {
        if controller == 0 || controller as usize > self.controllers.len() {
            return Err(ControlError::UnknownController(controller));
        }
        let idx: usize = (controller - 1) as usize;
        let mut c = self.controllers.remove(idx);
        let r = c.update_curve_data(channel, curve, curve_data);
        self.controllers.insert(idx, c);
        r
    }
}

} // verus!
