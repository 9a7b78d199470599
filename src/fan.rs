//! Per-channel fan state: the named curves, the active one, the last reading.
use vstd::prelude::*;

use crate::config::{CurveCfg, FanCfg, strings_view};
use crate::curve::{CurveError, CurveModel, FanCurve, cfg_model, curve_duty};

verus! {

/// One fan channel of a controller.
#[derive(Debug)]
pub struct Fan {
    /// Last duty percentage reported by the device.
    pub current_speed: u8,
    /// Last RPM reported by the device.
    pub current_rpm: u16,
    /// Name of the curve in use.
    pub active_curve: String,
    /// The curves this fan may use, by name; no name appears twice.
    pub curve: Vec<(String, FanCurve)>,
}

/// What a fan holds.
pub struct FanView {
    pub current_speed: u8,
    pub current_rpm: u16,
    pub active_curve: Seq<char>,
    pub curves: Seq<(Seq<char>, CurveModel)>,
}

pub open spec fn entries_view(s: Seq<(String, FanCurve)>) -> Seq<(Seq<char>, CurveModel)> {
    s.map_values(|e: (String, FanCurve)| (e.0@, e.1@))
}

impl View for Fan {
    type V = FanView;

    open spec fn view(&self) -> FanView {
        FanView {
            current_speed: self.current_speed,
            current_rpm: self.current_rpm,
            active_curve: self.active_curve@,
            curves: entries_view(self.curve@),
        }
    }
}

/// No curve name appears twice.
pub open spec fn unique_names(curves: Seq<(Seq<char>, CurveModel)>) -> bool {
    forall|i: int, j: int|
        0 <= i < curves.len() && 0 <= j < curves.len() && #[trigger] curves[i].0 == #[trigger] curves[j].0
            ==> i == j
}

/// Position of the curve called `name`, or -1.
pub open spec fn curve_index(curves: Seq<(Seq<char>, CurveModel)>, name: Seq<char>) -> int {
    if exists|i: int| 0 <= i < curves.len() && #[trigger] curves[i].0 == name {
        choose|i: int| 0 <= i < curves.len() && #[trigger] curves[i].0 == name
    } else {
        -1
    }
}

/// The fan after making `name` the active curve.
pub open spec fn switched(v: FanView, name: Seq<char>) -> FanView {
    FanView { active_curve: name, ..v }
}

/// The fan after replacing the data of the curve called `name`.
pub open spec fn updated(v: FanView, name: Seq<char>, data: CurveModel) -> FanView {
    FanView { curves: v.curves.update(curve_index(v.curves, name), (name, data)), ..v }
}

/// The error that names an unknown curve.
pub open spec fn is_unknown_curve(e: CurveError, name: Seq<char>) -> bool {
    e is UnknownCurve && e->UnknownCurve_0@ == name
}

impl Fan {
    pub open spec fn wf(&self) -> bool {
        unique_names(self@.curves)
    }

    /// Position of the curve called `name`.
    fn find(&self, name: &String) -> (r: Option<usize>)
        requires
            self.wf(),
        ensures
            match r {
                Some(i) => i == curve_index(self@.curves, name@),
                None => curve_index(self@.curves, name@) == -1,
            },
    {
        let mut i: usize = 0;
        while i < self.curve.len()
            invariant
                self.wf(),
                i <= self.curve@.len(),
                forall|k: int| 0 <= k < i ==> self@.curves[k].0 != name@,
            decreases self.curve@.len() - i,
        {
            if self.curve[i].0 == *name {
                proof {
                    assert(self@.curves[i as int].0 == name@);
                    let j = curve_index(self@.curves, name@);
                    assert(self@.curves[j].0 == self@.curves[i as int].0);
                }
                return Some(i);
            }
            i = i + 1;
        }
        assert(!exists|k: int| 0 <= k < self@.curves.len() && #[trigger] self@.curves[k].0 == name@);
        None
    }

    /// What `compute_speed` returns.
    pub open spec fn compute_speed_spec(&self, temp: i32) -> Result<u8, CurveError> {
        let i = curve_index(self@.curves, self@.active_curve);
        if i == -1 {
            Err(CurveError::UnknownCurve(self.active_curve))
        } else {
            curve_duty(self@.curves[i].1, temp as int)
        }
    }

    /// Duty for `temp` from the active curve.
    pub fn compute_speed(&self, temp: i32) -> (r: Result<u8, CurveError>)
        requires
            self.wf(),
        ensures
            curve_index(self@.curves, self@.active_curve) == -1 ==> r is Err && is_unknown_curve(
                r->Err_0,
                self@.active_curve,
            ),
            curve_index(self@.curves, self@.active_curve) >= 0 ==> r == curve_duty(
                self@.curves[curve_index(self@.curves, self@.active_curve)].1,
                temp as int,
            ),
            r == self.compute_speed_spec(temp),
    {
        match self.find(&self.active_curve) {
            Some(i) => self.curve[i].1.evaluate(temp),
            None => Err(CurveError::UnknownCurve(self.active_curve.clone())),
        }
    }

    /// Records the last reading.
    pub fn update_stats(&mut self, speed: u8, rpm: u16)
        ensures
            final(self)@ == (FanView { current_speed: speed, current_rpm: rpm, ..old(self)@ }),
            final(self).curve@ == old(self).curve@,
    {
        self.current_rpm = rpm;
        self.current_speed = speed;
    }

    /// Makes `curve` the active curve, if the fan has it.
    pub fn update_curve(&mut self, curve: &str) -> (r: Result<(), CurveError>)
        requires
            old(self).wf(),
        ensures
            final(self).wf(),
            curve_index(old(self)@.curves, curve@) >= 0 ==> r is Ok && final(self)@ == switched(
                old(self)@,
                curve@,
            ),
            curve_index(old(self)@.curves, curve@) == -1 ==> r is Err && is_unknown_curve(r->Err_0, curve@)
                && final(self)@ == old(self)@,
    {
        let name = curve.to_owned();
        match self.find(&name) {
            Some(_) => {
                self.active_curve = name;
                Ok(())
            },
            None => Err(CurveError::UnknownCurve(name)),
        }
    }

    /// Replaces the data of the curve called `curve` by `curve_data`, which
    /// must be of the same kind.
    pub fn update_curve_data(&mut self, curve: &str, curve_data: &FanCurve) -> (r: Result<(), CurveError>)
        requires
            old(self).wf(),
        ensures
            final(self).wf(),
            ({
                let i = curve_index(old(self)@.curves, curve@);
                if i == -1 {
                    r is Err && is_unknown_curve(r->Err_0, curve@) && final(self)@ == old(self)@
                } else if old(self)@.curves[i].1.kind() != curve_data@.kind() {
                    r == Err::<(), CurveError>(CurveError::IncompatibleCurveKind) && final(self)@ == old(self)@
                } else {
                    r is Ok && final(self)@ == updated(old(self)@, curve@, curve_data@)
                }
            }),
    {
        let name = curve.to_owned();
        match self.find(&name) {
            Some(i) => {
                if self.curve[i].1.kind() != curve_data.kind() {
                    return Err(CurveError::IncompatibleCurveKind);
                }
                let ghost before = self@;
                self.curve.set(i, (name, curve_data.duplicate()));
                proof {
                    assert(self@.curves =~= updated(before, curve@, curve_data@).curves);
                    lemma_update_keeps_names(before.curves, i as int, curve@, curve_data@);
                }
                Ok(())
            },
            None => Err(CurveError::UnknownCurve(name)),
        }
    }

    /// Name of the active curve.
    pub fn get_active_curve(&self) -> (r: Result<String, CurveError>)
        ensures
            r is Ok && r->Ok_0@ == self@.active_curve,
    {
        Ok(self.active_curve.clone())
    }
}

/// Position of the last curve entry named `id`, or -1.
pub open spec fn last_cfg_index(cfgs: Seq<CurveCfg>, id: Seq<char>) -> int
    decreases cfgs.len(),
{
    if cfgs.len() == 0 {
        -1
    } else if cfgs.last().id_spec()@ == id {
        cfgs.len() - 1
    } else {
        last_cfg_index(cfgs.drop_last(), id)
    }
}

/// The curves of a fan that lists `names`: each listed name that some entry
/// of `cfgs` defines, once, with the last such entry's curve.
pub open spec fn assemble_curves(names: Seq<Seq<char>>, cfgs: Seq<CurveCfg>) -> Seq<(Seq<char>, CurveModel)>
    decreases names.len(),
{
    if names.len() == 0 {
        Seq::empty()
    } else {
        let prev = assemble_curves(names.drop_last(), cfgs);
        let n = names.last();
        let k = last_cfg_index(cfgs, n);
        if k < 0 || curve_index(prev, n) >= 0 {
            prev
        } else {
            prev.push((n, cfg_model(cfgs[k])))
        }
    }
}

proof fn lemma_last_cfg_index_bounds(cfgs: Seq<CurveCfg>, id: Seq<char>)
    ensures
        -1 <= last_cfg_index(cfgs, id) < cfgs.len(),
        last_cfg_index(cfgs, id) >= 0 ==> cfgs[last_cfg_index(cfgs, id)].id_spec()@ == id,
    decreases cfgs.len(),
{
    if cfgs.len() > 0 {
        lemma_last_cfg_index_bounds(cfgs.drop_last(), id);
    }
}

/// Position of the last curve entry named `id`.
fn find_last_cfg(cfgs: &Vec<CurveCfg>, id: &String) -> (r: Option<usize>)
    ensures
        match r {
            Some(k) => k == last_cfg_index(cfgs@, id@),
            None => last_cfg_index(cfgs@, id@) == -1,
        },
{
    let mut k: usize = cfgs.len();
    assert(cfgs@.take(k as int) =~= cfgs@);
    while k > 0
        invariant
            k <= cfgs@.len(),
            last_cfg_index(cfgs@, id@) == last_cfg_index(cfgs@.take(k as int), id@),
        decreases k,
    {
        proof {
            assert(cfgs@.take(k as int).drop_last() =~= cfgs@.take(k - 1));
        }
        if cfgs[k - 1].get_id() == *id {
            return Some(k - 1);
        }
        k = k - 1;
    }
    None
}

impl Fan {
    /// A fan as configured: its active curve copied as written, and each of
    /// its listed curves that the curve table defines.
    pub fn from_config(fan: &FanCfg, curves: &Vec<CurveCfg>) -> (r: Fan)
        ensures
            r.wf(),
            r@.current_speed == 0,
            r@.current_rpm == 0,
            r@.active_curve == fan.active_curve@,
            r@.curves == assemble_curves(strings_view(fan.curve@), curves@),
    {
        let mut entries: Vec<(String, FanCurve)> = Vec::new();
        let mut i: usize = 0;
        let ghost names = strings_view(fan.curve@);
        while i < fan.curve.len()
            invariant
                i <= fan.curve@.len(),
                names == strings_view(fan.curve@),
                unique_names(entries_view(entries@)),
                entries_view(entries@) == assemble_curves(names.take(i as int), curves@),
            decreases fan.curve@.len() - i,
        {
            let ghost prev = entries_view(entries@);
            proof {
                assert(names.take(i + 1).drop_last() =~= names.take(i as int));
                assert(names.take(i + 1).last() == fan.curve@[i as int]@);
            }
            let name = fan.curve[i].clone();
            let probe = Fan {
                current_speed: 0,
                current_rpm: 0,
                active_curve: String::new(),
                curve: entries,
            };
            let present = probe.find(&name);
            entries = probe.curve;
            if present.is_none() {
                match find_last_cfg(curves, &name) {
                    Some(k) => {
                        proof {
                            lemma_last_cfg_index_bounds(curves@, name@);
                        }
                        let c = FanCurve::from_cfg(&curves[k]);
                        entries.push((name, c));
                        proof {
                            assert(entries_view(entries@) =~= prev.push((name@, c@)));
                            let u = entries_view(entries@);
                            assert forall|a: int, b: int|
                                0 <= a < u.len() && 0 <= b < u.len() && #[trigger] u[a].0 == #[trigger] u[b].0
                                implies a == b by {
                                if a < prev.len() && b == prev.len() {
                                    assert(prev[a].0 == name@);
                                } else if b < prev.len() && a == prev.len() {
                                    assert(prev[b].0 == name@);
                                } else if a < prev.len() && b < prev.len() {
                                    assert(prev[a].0 == u[a].0 && prev[b].0 == u[b].0);
                                }
                            }
                        }
                    },
                    None => {},
                }
            }
            i = i + 1;
        }
        proof {
            assert(names.take(i as int) =~= names);
        }
        Fan { current_speed: 0, current_rpm: 0, active_curve: fan.active_curve.clone(), curve: entries }
    }
}

proof fn lemma_update_keeps_names(
    curves: Seq<(Seq<char>, CurveModel)>,
    i: int,
    name: Seq<char>,
    data: CurveModel,
)
    requires
        unique_names(curves),
        0 <= i < curves.len(),
        curves[i].0 == name,
    ensures
        unique_names(curves.update(i, (name, data))),
{
    let u = curves.update(i, (name, data));
    assert forall|a: int, b: int|
        0 <= a < u.len() && 0 <= b < u.len() && #[trigger] u[a].0 == #[trigger] u[b].0 implies a == b by {
        assert(u[a].0 == curves[a].0);
        assert(u[b].0 == curves[b].0);
    }
}

/// Making the active curve active again leaves the fan as it is, and
/// switching twice to one curve is switching once.
pub proof fn lemma_switch_idempotent(v: FanView, name: Seq<char>)
    ensures
        name == v.active_curve ==> switched(v, name) == v,
        switched(switched(v, name), name) == switched(v, name),
{
}

/// Replacing a curve's data twice with the same data is replacing it once.
pub proof fn lemma_update_idempotent(v: FanView, name: Seq<char>, data: CurveModel)
    requires
        unique_names(v.curves),
        curve_index(v.curves, name) >= 0,
    ensures
        unique_names(updated(v, name, data).curves),
        curve_index(updated(v, name, data).curves, name) == curve_index(v.curves, name),
        updated(updated(v, name, data), name, data) == updated(v, name, data),
{
    let i = curve_index(v.curves, name);
    let w = updated(v, name, data);
    lemma_update_keeps_names(v.curves, i, name, data);
    assert(w.curves[i].0 == name);
    let j = curve_index(w.curves, name);
    assert(w.curves[j].0 == name);
    assert(j == i);
    assert(w.curves.update(i, (name, data)) =~= w.curves);
}

} // verus!
