//! One monitoring tick, one color pass, and the sample cache.
use vstd::prelude::*;

use crate::config::{ColorCfg, ColorMappingCfg, FanTarget};
use crate::controller::{ControllerSet, DeviceIO};
use crate::mappings::{FanRef, Mapping};

verus! {

/// The samples a tick records: each successful reading, in order.
pub open spec fn readings_snapshot(rs: Seq<(String, Option<i32>)>) -> Seq<(Seq<char>, i32)>
    decreases rs.len(),
{
    if rs.len() == 0 {
        Seq::empty()
    } else {
        let prev = readings_snapshot(rs.drop_last());
        match rs.last().1 {
            Some(t) => prev.push((rs.last().0@, t)),
            None => prev,
        }
    }
}

pub open spec fn samples_view(s: Seq<(String, i32)>) -> Seq<(Seq<char>, i32)> {
    s.map_values(|p: (String, i32)| (p.0@, p.1))
}

/// Whether fan `(k, j)` (0-based) is mapped to a sensor that was read.
pub open spec fn driven(mapping: Mapping, readings: Seq<(String, Option<i32>)>, k: int, j: int) -> bool {
    exists|i: int|
        0 <= i < readings.len() && readings[i].1 is Some && #[trigger] mapping.linked(
            readings[i].0@,
            FanRef { controller_id: k as usize, channel: j as usize },
        )
}

/// The fans each reading drives: none for a failed reading; otherwise each
/// fan mapped to its sensor, once.
pub fn plan_tick(mapping: &Mapping, readings: &Vec<(String, Option<i32>)>) -> (r: Vec<Vec<FanRef>>)
    requires
        mapping.wf(),
    ensures
        r@.len() == readings@.len(),
        forall|i: int| 0 <= i < r@.len() ==> (#[trigger] r@[i])@.no_duplicates(),
        forall|i: int| 0 <= i < r@.len() && readings@[i].1 is None ==> (#[trigger] r@[i])@.len() == 0,
        forall|i: int, f: FanRef|
            #![trigger r@[i]@.contains(f)]
            0 <= i < r@.len() && readings@[i].1 is Some ==> (r@[i]@.contains(f) <==> mapping.linked(
                readings@[i].0@,
                f,
            )),
{
    let mut plan: Vec<Vec<FanRef>> = Vec::new();
    let mut i: usize = 0;
    while i < readings.len()
        invariant
            mapping.wf(),
            i <= readings@.len(),
            plan@.len() == i,
            forall|k: int| 0 <= k < i ==> (#[trigger] plan@[k])@.no_duplicates(),
            forall|k: int| 0 <= k < i && readings@[k].1 is None ==> (#[trigger] plan@[k])@.len() == 0,
            forall|k: int, f: FanRef|
                #![trigger plan@[k]@.contains(f)]
                0 <= k < i && readings@[k].1 is Some ==> (plan@[k]@.contains(f) <==> mapping.linked(
                    readings@[k].0@,
                    f,
                )),
        decreases readings@.len() - i,
    {
        if readings[i].1.is_some() {
            plan.push(mapping.fans_for_sensor(&readings[i].0));
        } else {
            plan.push(Vec::new());
        }
        i = i + 1;
    }
    plan
}

/// One monitoring tick over the readings of this tick (`None` where a sensor
/// could not be read). Each fan that `plan_tick` gives a reading is updated
/// once with `update_channel(controller_id + 1, channel + 1, t)`; a failing
/// channel does not stop the others. Fans mapped to no sensor that was read
/// are left as they were. Returns the new samples, to replace the cache with
/// in one step.
pub fn run_tick<Io: DeviceIO>(
    controllers: &mut ControllerSet<Io>,
    mapping: &Mapping,
    readings: &Vec<(String, Option<i32>)>,
) -> (r: Vec<(String, i32)>)
    requires
        old(controllers).wf(),
        mapping.wf(),
    ensures
        final(controllers).wf(),
        final(controllers).controllers@.len() == old(controllers).controllers@.len(),
        forall|k: int|
            0 <= k < old(controllers).controllers@.len() ==> (#[trigger] final(controllers).controllers@[k]).fans@.len()
                == old(controllers).controllers@[k].fans@.len(),
        forall|k: int, j: int|
            #![trigger final(controllers).controllers@[k].fans@[j]]
            0 <= k < old(controllers).controllers@.len() && 0 <= j < old(controllers).controllers@[k].fans@.len()
                && !driven(*mapping, readings@, k, j) ==> final(controllers).controllers@[k].fans@[j]@ == old(
                controllers,
            ).controllers@[k].fans@[j]@,
        samples_view(r@) == readings_snapshot(readings@),
{
    let plan = plan_tick(mapping, readings);
    let ghost start = controllers.controllers@;
    let mut snapshot: Vec<(String, i32)> = Vec::new();
    let mut i: usize = 0;
    while i < readings.len()
        invariant
            controllers.wf(),
            mapping.wf(),
            start == old(controllers).controllers@,
            plan@.len() == readings@.len(),
            forall|a: int, f: FanRef|
                #![trigger plan@[a]@.contains(f)]
                0 <= a < plan@.len() && readings@[a].1 is Some ==> (plan@[a]@.contains(f) <==> mapping.linked(
                    readings@[a].0@,
                    f,
                )),
            controllers.controllers@.len() == start.len(),
            forall|k: int| 0 <= k < start.len() ==> (#[trigger] controllers.controllers@[k]).fans@.len() == start[k].fans@.len(),
            forall|k: int, j: int|
                #![trigger controllers.controllers@[k].fans@[j]]
                0 <= k < start.len() && 0 <= j < start[k].fans@.len() && !driven(*mapping, readings@, k, j)
                    ==> controllers.controllers@[k].fans@[j]@ == start[k].fans@[j]@,
            i <= readings@.len(),
            samples_view(snapshot@) == readings_snapshot(readings@.take(i as int)),
        decreases readings@.len() - i,
    {
        proof {
            assert(readings@.take(i + 1).drop_last() =~= readings@.take(i as int));
        }
        let name = &readings[i].0;
        match readings[i].1 {
            Some(t) => {
                let fans = &plan[i];
                let mut j: usize = 0;
                while j < fans.len()
                    invariant
                        controllers.wf(),
                        mapping.wf(),
                        i < readings@.len(),
                        readings@[i as int].1 == Some(t),
                        *fans == plan@[i as int],
                        forall|f: FanRef| #[trigger] fans@.contains(f) ==> mapping.linked(readings@[i as int].0@, f),
                        controllers.controllers@.len() == start.len(),
                        forall|k: int| 0 <= k < start.len() ==> (#[trigger] controllers.controllers@[k]).fans@.len() == start[k].fans@.len(),
                        forall|k: int, j2: int|
                            #![trigger controllers.controllers@[k].fans@[j2]]
                            0 <= k < start.len() && 0 <= j2 < start[k].fans@.len() && !driven(*mapping, readings@, k, j2)
                                ==> controllers.controllers@[k].fans@[j2]@ == start[k].fans@[j2]@,
                        j <= fans@.len(),
                    decreases fans@.len() - j,
                {
                    let f = fans[j];
                    proof {
                        assert(fans@.contains(f)) by {
                            assert(fans@[j as int] == f);
                        }
                        assert(mapping.linked(readings@[i as int].0@, f));
                        assert(driven(*mapping, readings@, f.controller_id as int, f.channel as int)) by {
                            assert(f == FanRef { controller_id: (f.controller_id as int) as usize, channel: (f.channel as int) as usize });
                        }
                    }
                    if f.controller_id < 255 && f.channel < 255 {
                        let ghost before = controllers.controllers@;
                        let _ = controllers.update_channel((f.controller_id + 1) as u8, (f.channel + 1) as u8, t);
                        proof {
                            let after = controllers.controllers@;
                            assert forall|k: int| 0 <= k < start.len() implies (#[trigger] after[k]).fans@.len() == start[k].fans@.len() by {
                                if k != f.controller_id as int {
                                    assert(after[k] == before[k]);
                                }
                            }
                            assert forall|k: int, j2: int|
                                0 <= k < start.len() && 0 <= j2 < start[k].fans@.len() && !driven(*mapping, readings@, k, j2)
                                implies #[trigger] after[k].fans@[j2]@ == start[k].fans@[j2]@ by {
                                assert(before[k].fans@[j2]@ == start[k].fans@[j2]@);
                                if k != f.controller_id as int {
                                    assert(after[k] == before[k]);
                                } else {
                                    assert(j2 != f.channel as int);
                                    let n = before[k].fans@.len() as int;
                                    let ch = (f.channel + 1) as u8;
                                    if !crate::controller::channel_ok(ch, n) {
                                        assert(crate::controller::fans_view(after[k].fans@)[j2] == crate::controller::fans_view(before[k].fans@)[j2]);
                                    }
                                }
                            }
                        }
                    }
                    j = j + 1;
                }
                let ghost before = snapshot@;
                snapshot.push((name.clone(), t));
                proof {
                    assert(samples_view(snapshot@) =~= samples_view(before).push((name@, t)));
                }
            },
            None => {},
        }
        i = i + 1;
    }
    proof {
        assert(readings@.take(i as int) =~= readings@);
    }
    snapshot
}

/// The last temperature recorded for `sensor` in `v`.
pub open spec fn latest(v: Seq<(Seq<char>, i32)>, sensor: Seq<char>) -> Option<i32>
    decreases v.len(),
{
    if v.len() == 0 {
        None
    } else if v.last().0 == sensor {
        Some(v.last().1)
    } else {
        latest(v.drop_last(), sensor)
    }
}

/// No sensor appears twice.
pub open spec fn sensors_unique(v: Seq<(Seq<char>, i32)>) -> bool {
    forall|a: int, b: int| 0 <= a < v.len() && 0 <= b < v.len() && #[trigger] v[a].0 == #[trigger] v[b].0 ==> a == b
}

proof fn lemma_latest_at(v: Seq<(Seq<char>, i32)>, k: int)
    requires
        sensors_unique(v),
        0 <= k < v.len(),
    ensures
        latest(v, v[k].0) == Some(v[k].1),
    decreases v.len(),
{
    if k < v.len() - 1 {
        assert(v.last().0 != v[k].0);
        let w = v.drop_last();
        assert(sensors_unique(w)) by {
            assert forall|a: int, b: int| 0 <= a < w.len() && 0 <= b < w.len() && #[trigger] w[a].0 == #[trigger] w[b].0 implies a == b by {
                assert(v[a].0 == v[b].0);
            }
        }
        assert(w[k] == v[k]);
        lemma_latest_at(w, k);
    }
}

proof fn lemma_latest_none(v: Seq<(Seq<char>, i32)>, sensor: Seq<char>)
    requires
        forall|k: int| 0 <= k < v.len() ==> (#[trigger] v[k]).0 != sensor,
    ensures
        latest(v, sensor) is None,
    decreases v.len(),
{
    if v.len() > 0 {
        let w = v.drop_last();
        assert forall|k: int| 0 <= k < w.len() implies (#[trigger] w[k]).0 != sensor by {
            assert(w[k] == v[k]);
        }
        lemma_latest_none(w, sensor);
    }
}

/// The latest temperature of each sensor, replaced whole once per tick.
#[derive(Debug)]
pub struct SampleCache {
    samples: Vec<(String, i32)>,
}

impl SampleCache {
    pub closed spec fn view_samples(&self) -> Seq<(Seq<char>, i32)> {
        samples_view(self.samples@)
    }

    /// Each sensor is held once.
    pub closed spec fn wf(&self) -> bool {
        sensors_unique(self.view_samples())
    }

    /// An empty cache.
    pub fn new() -> (r: SampleCache)
        ensures
            r.wf(),
            r.view_samples().len() == 0,
    {
        SampleCache { samples: Vec::new() }
    }

    /// Replaces all samples by those of one tick; a sensor sampled twice
    /// keeps its later sample.
    pub fn replace(&mut self, snapshot: Vec<(String, i32)>)
        ensures
            final(self).wf(),
            forall|s: Seq<char>| #[trigger] latest(final(self).view_samples(), s) == latest(samples_view(snapshot@), s),
    {
        let mut out: Vec<(String, i32)> = Vec::new();
        let mut i: usize = 0;
        while i < snapshot.len()
            invariant
                i <= snapshot@.len(),
                sensors_unique(samples_view(out@)),
                forall|s: Seq<char>| #[trigger] latest(samples_view(out@), s) == latest(samples_view(snapshot@.take(i as int)), s),
            decreases snapshot@.len() - i,
        {
            let name = &snapshot[i].0;
            let t = snapshot[i].1;
            let ghost v0 = samples_view(out@);
            proof {
                let w = samples_view(snapshot@.take(i + 1));
                assert(w =~= samples_view(snapshot@.take(i as int)).push((name@, t)));
                assert(w.drop_last() =~= samples_view(snapshot@.take(i as int)));
                assert(w.last() == (name@, t));
                assert forall|s: Seq<char>| #[trigger] latest(w, s) == (if s == name@ { Some(t) } else { latest(v0, s) }) by {
                    assert(latest(v0, s) == latest(samples_view(snapshot@.take(i as int)), s));
                }
            }
            let mut p: usize = 0;
            while p < out.len()
                invariant
                    p <= out@.len(),
                    v0 == samples_view(out@),
                    forall|k: int| 0 <= k < p ==> (#[trigger] v0[k]).0 != name@,
                ensures
                    p <= out@.len(),
                    p < out@.len() ==> v0[p as int].0 == name@,
                    forall|k: int| 0 <= k < p ==> (#[trigger] v0[k]).0 != name@,
                decreases out@.len() - p,
            {
                if out[p].0 == *name {
                    break;
                }
                p = p + 1;
            }
            if p < out.len() {
                out.set(p, (name.clone(), t));
                proof {
                    let v1 = samples_view(out@);
                    assert(v1 =~= v0.update(p as int, (name@, t)));
                    assert(sensors_unique(v1)) by {
                        assert forall|a: int, b: int| 0 <= a < v1.len() && 0 <= b < v1.len() && #[trigger] v1[a].0 == #[trigger] v1[b].0 implies a == b by {
                            assert(v0[a].0 == v1[a].0 && v0[b].0 == v1[b].0);
                        }
                    }
                    assert forall|s: Seq<char>| #[trigger] latest(v1, s) == latest(samples_view(snapshot@.take(i + 1)), s) by {
                        if s == name@ {
                            lemma_latest_at(v1, p as int);
                        } else if exists|k: int| 0 <= k < v0.len() && #[trigger] v0[k].0 == s {
                            let k = choose|k: int| 0 <= k < v0.len() && #[trigger] v0[k].0 == s;
                            lemma_latest_at(v0, k);
                            assert(v1[k] == v0[k]);
                            lemma_latest_at(v1, k);
                        } else {
                            lemma_latest_none(v0, s);
                            assert forall|k: int| 0 <= k < v1.len() implies (#[trigger] v1[k]).0 != s by {
                                if k != p {
                                    assert(v1[k] == v0[k]);
                                }
                            }
                            lemma_latest_none(v1, s);
                        }
                    }
                }
            } else {
                out.push((name.clone(), t));
                proof {
                    let v1 = samples_view(out@);
                    assert(v1 =~= v0.push((name@, t)));
                    assert(v1.drop_last() =~= v0);
                    assert(sensors_unique(v1)) by {
                        assert forall|a: int, b: int| 0 <= a < v1.len() && 0 <= b < v1.len() && #[trigger] v1[a].0 == #[trigger] v1[b].0 implies a == b by {
                            if a < v0.len() {
                                assert(v1[a] == v0[a]);
                            }
                            if b < v0.len() {
                                assert(v1[b] == v0[b]);
                            }
                        }
                    }
                    assert forall|s: Seq<char>| #[trigger] latest(v1, s) == latest(samples_view(snapshot@.take(i + 1)), s) by {
                        assert(samples_view(snapshot@.take(i + 1)).drop_last() =~= samples_view(snapshot@.take(i as int)));
                    }
                }
            }
            i = i + 1;
        }
        proof {
            assert(snapshot@.take(i as int) =~= snapshot@);
        }
        self.samples = out;
    }

    /// Temperature of `sensor`, if it was sampled.
    pub fn get(&self, sensor: &String) -> (r: Option<i32>)
        requires
            self.wf(),
        ensures
            r == latest(self.view_samples(), sensor@),
    {
        let mut i: usize = 0;
        while i < self.samples.len()
            invariant
                self.wf(),
                i <= self.samples@.len(),
                forall|k: int| 0 <= k < i ==> (#[trigger] self.view_samples()[k]).0 != sensor@,
            decreases self.samples@.len() - i,
        {
            if self.samples[i].0 == *sensor {
                proof {
                    assert(self.view_samples()[i as int] == (sensor@, self.samples@[i as int].1));
                    lemma_latest_at(self.view_samples(), i as int);
                }
                return Some(self.samples[i].1);
            }
            i = i + 1;
        }
        proof {
            lemma_latest_none(self.view_samples(), sensor@);
        }
        None
    }

    /// A copy of the samples.
    pub fn snapshot(&self) -> (r: Vec<(String, i32)>)
        ensures
            samples_view(r@) == self.view_samples(),
    {
        let mut out: Vec<(String, i32)> = Vec::new();
        let mut i: usize = 0;
        while i < self.samples.len()
            invariant
                i <= self.samples@.len(),
                out@.len() == i,
                forall|k: int| 0 <= k < i ==> (#[trigger] out@[k]).0@ == self.samples@[k].0@ && out@[k].1 == self.samples@[k].1,
            decreases self.samples@.len() - i,
        {
            out.push((self.samples[i].0.clone(), self.samples[i].1));
            i = i + 1;
        }
        assert(samples_view(out@) =~= samples_view(self.samples@));
        out
    }

    /// Number of sensors sampled.
    pub fn len(&self) -> (r: usize)
        ensures
            r == self.view_samples().len(),
    {
        self.samples.len()
    }
}

/// The RGB of the first color entry called `name`.
pub open spec fn first_color(colors: Seq<ColorCfg>, name: Seq<char>) -> Option<[u8; 3]>
    decreases colors.len(),
{
    if colors.len() == 0 {
        None
    } else if colors[0].color@ == name {
        Some(colors[0].rgb)
    } else {
        first_color(colors.drop_first(), name)
    }
}

/// The RGB of the first color entry called `name`.
pub fn find_color(colors: &Vec<ColorCfg>, name: &String) -> (r: Option<[u8; 3]>)
    ensures
        r == first_color(colors@, name@),
{
    let mut i: usize = 0;
    assert(colors@.subrange(0, colors@.len() as int) =~= colors@);
    while i < colors.len()
        invariant
            i <= colors@.len(),
            first_color(colors@, name@) == first_color(colors@.subrange(i as int, colors@.len() as int), name@),
        decreases colors@.len() - i,
    {
        proof {
            assert(colors@.subrange(i as int, colors@.len() as int).drop_first() =~= colors@.subrange(i + 1, colors@.len() as int));
        }
        if colors[i].color == *name {
            return Some(colors[i].rgb);
        }
        i = i + 1;
    }
    None
}

/// One channel to paint: 1-based controller and channel, and the color.
#[derive(Debug, Clone, Copy, PartialEq, Eq, Structural)]
pub struct ColorRequest {
    pub controller: u8,
    pub channel: u8,
    pub red: u8,
    pub green: u8,
    pub blue: u8,
}

pub open spec fn request_for(t: FanTarget, rgb: [u8; 3]) -> ColorRequest {
    ColorRequest { controller: t.controller, channel: t.fan_idx, red: rgb[0], green: rgb[1], blue: rgb[2] }
}

/// The channels a color pass paints, in order: each target of each color
/// mapping whose color is defined, with the first matching RGB.
pub open spec fn color_plan(cms: Seq<ColorMappingCfg>, colors: Seq<ColorCfg>) -> Seq<ColorRequest>
    decreases cms.len(),
{
    if cms.len() == 0 {
        Seq::empty()
    } else {
        let prev = color_plan(cms.drop_last(), colors);
        match first_color(colors, cms.last().color@) {
            Some(rgb) => prev + cms.last().targets@.map_values(|t: FanTarget| request_for(t, rgb)),
            None => prev,
        }
    }
}

/// Number of color mappings whose color is not defined.
pub open spec fn missing_colors(cms: Seq<ColorMappingCfg>, colors: Seq<ColorCfg>) -> nat
    decreases cms.len(),
{
    if cms.len() == 0 {
        0
    } else {
        missing_colors(cms.drop_last(), colors) + if first_color(colors, cms.last().color@) is None {
            1nat
        } else {
            0nat
        }
    }
}

/// The requests of a color pass, and the number of mappings skipped for an
/// undefined color.
pub fn color_requests(color_mappings: &Vec<ColorMappingCfg>, colors: &Vec<ColorCfg>) -> (r: (Vec<ColorRequest>, usize))
    ensures
        r.0@ == color_plan(color_mappings@, colors@),
        r.1 == missing_colors(color_mappings@, colors@),
{
    let mut out: Vec<ColorRequest> = Vec::new();
    let mut missing: usize = 0;
    let mut i: usize = 0;
    while i < color_mappings.len()
        invariant
            i <= color_mappings@.len(),
            out@ == color_plan(color_mappings@.take(i as int), colors@),
            missing == missing_colors(color_mappings@.take(i as int), colors@),
            missing <= i,
        decreases color_mappings@.len() - i,
    {
        proof {
            assert(color_mappings@.take(i + 1).drop_last() =~= color_mappings@.take(i as int));
            assert(color_mappings@.take(i + 1).last() == color_mappings@[i as int]);
        }
        let cm = &color_mappings[i];
        match find_color(colors, &cm.color) {
            Some(rgb) => {
                let ghost prev = out@;
                let mut j: usize = 0;
                while j < cm.targets.len()
                    invariant
                        i < color_mappings@.len(),
                        *cm == color_mappings@[i as int],
                        j <= cm.targets@.len(),
                        out@ == prev + cm.targets@.take(j as int).map_values(|t: FanTarget| request_for(t, rgb)),
                    decreases cm.targets@.len() - j,
                {
                    let t = cm.targets[j];
                    out.push(ColorRequest { controller: t.controller, channel: t.fan_idx, red: rgb[0], green: rgb[1], blue: rgb[2] });
                    proof {
                        assert(cm.targets@.take(j + 1).map_values(|t: FanTarget| request_for(t, rgb)) =~= cm.targets@.take(j as int).map_values(|t: FanTarget| request_for(t, rgb)).push(request_for(t, rgb)));
                        assert(out@ =~= prev + cm.targets@.take(j + 1).map_values(|t: FanTarget| request_for(t, rgb)));
                    }
                    j = j + 1;
                }
                proof {
                    assert(cm.targets@.take(j as int) =~= cm.targets@);
                }
            },
            None => {
                missing = missing + 1;
            },
        }
        i = i + 1;
    }
    proof {
        assert(color_mappings@.take(i as int) =~= color_mappings@);
    }
    (out, missing)
}

/// One color pass: paints each request of `color_requests`, in order, one
/// failing channel not stopping the rest. Returns the number of failures:
/// every mapping of an undefined color, and every channel the device or
/// the addressing refused.
pub fn apply_colors<Io: DeviceIO>(
    controllers: &ControllerSet<Io>,
    color_mappings: &Vec<ColorMappingCfg>,
    colors: &Vec<ColorCfg>,
) -> (failures: usize)
    ensures
        missing_colors(color_mappings@, colors@) <= failures,
        failures <= missing_colors(color_mappings@, colors@) + color_plan(color_mappings@, colors@).len(),
{
    let (requests, missing) = color_requests(color_mappings, colors);
    let mut failures: usize = missing;
    let mut j: usize = 0;
    while j < requests.len()
        invariant
            j <= requests@.len(),
            missing <= failures <= missing + j,
        decreases requests@.len() - j,
    {
        let q = requests[j];
        match controllers.update_channel_color(q.controller, q.channel, q.red, q.green, q.blue) {
            Ok(()) => {},
            Err(_) => {
                if failures < usize::MAX {
                    failures = failures + 1;
                }
            },
        }
        j = j + 1;
    }
    failures
}

} // verus!
