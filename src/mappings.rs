//! Sensor-to-fan and color-to-fan relations.
use vstd::prelude::*;

use crate::config::{ColorCfg, ColorMappingCfg, FanTarget, MappingCfg};

verus! {

/// A fan addressed by 0-based controller position and 0-based channel.
#[derive(Debug, Clone, Copy, Hash, PartialEq, Eq, Structural)]
pub struct FanRef {
    pub controller_id: usize,
    pub channel: usize,
}

/// The 0-based form of a 1-based configuration target; none for a zero index.
pub open spec fn target_ref(t: FanTarget) -> Option<FanRef> {
    if t.controller >= 1 && t.fan_idx >= 1 {
        Some(FanRef { controller_id: (t.controller - 1) as usize, channel: (t.fan_idx - 1) as usize })
    } else {
        None
    }
}

/// Normalises a configuration target.
pub fn to_fan_ref(t: FanTarget) -> (r: Option<FanRef>)
    ensures
        r == target_ref(t),
{
    if t.controller >= 1 && t.fan_idx >= 1 {
        Some(FanRef { controller_id: (t.controller - 1) as usize, channel: (t.fan_idx - 1) as usize })
    } else {
        None
    }
}

/// Whether some entry for `key` lists a target that normalises to `f`.
pub open spec fn configured(keys: Seq<Seq<char>>, targets: Seq<Seq<FanTarget>>, key: Seq<char>, f: FanRef) -> bool {
    exists|i: int, j: int|
        0 <= i < keys.len() && i < targets.len() && 0 <= j < targets[i].len() && keys[i] == key
            && #[trigger] target_ref(targets[i][j]) == Some(f)
}

/// Whether `v` holds the pair `(s, g)`.
pub open spec fn pairs_has(v: Seq<(String, FanRef)>, s: Seq<char>, g: FanRef) -> bool {
    exists|k: int| 0 <= k < v.len() && #[trigger] v[k].0@ == s && v[k].1 == g
}

/// No pair appears twice in `v`.
pub open spec fn pairs_unique(v: Seq<(String, FanRef)>) -> bool {
    forall|i: int, j: int|
        0 <= i < v.len() && 0 <= j < v.len() && #[trigger] v[i].0@ == #[trigger] v[j].0@ && v[i].1 == v[j].1 ==> i == j
}

proof fn lemma_push_pair(v: Seq<(String, FanRef)>, e: (String, FanRef))
    ensures
        forall|s: Seq<char>, g: FanRef|
            pairs_has(v.push(e), s, g) <==> (pairs_has(v, s, g) || (e.0@ == s && e.1 == g)),
        pairs_unique(v) && !pairs_has(v, e.0@, e.1) ==> pairs_unique(v.push(e)),
{
    let w = v.push(e);
    assert forall|s: Seq<char>, g: FanRef|
        pairs_has(w, s, g) <==> (pairs_has(v, s, g) || (e.0@ == s && e.1 == g)) by {
        if pairs_has(w, s, g) {
            let k = choose|k: int| 0 <= k < w.len() && #[trigger] w[k].0@ == s && w[k].1 == g;
            if k < v.len() {
                assert(v[k] == w[k]);
            }
        }
        if pairs_has(v, s, g) {
            let k = choose|k: int| 0 <= k < v.len() && #[trigger] v[k].0@ == s && v[k].1 == g;
            assert(w[k] == v[k]);
        }
        if e.0@ == s && e.1 == g {
            assert(w[v.len() as int] == e);
        }
    }
    if pairs_unique(v) && !pairs_has(v, e.0@, e.1) {
        assert forall|i: int, j: int|
            0 <= i < w.len() && 0 <= j < w.len() && #[trigger] w[i].0@ == #[trigger] w[j].0@ && w[i].1 == w[j].1
            implies i == j by {
            if i < v.len() && j < v.len() {
                assert(v[i] == w[i] && v[j] == w[j]);
            } else if i < v.len() {
                assert(v[i] == w[i]);
            } else if j < v.len() {
                assert(v[j] == w[j]);
            }
        }
    }
}

proof fn lemma_take_pair(v: Seq<(String, FanRef)>, i: int)
    requires
        0 <= i < v.len(),
    ensures
        v.take(i + 1) == v.take(i).push(v[i]),
{
    assert(v.take(i + 1) =~= v.take(i).push(v[i]));
}

/// A relation between names (sensors or colors) and fans, without repeated pairs.
#[derive(Debug)]
pub struct Mapping {
    links: Vec<(String, FanRef)>,
}

impl Mapping {
    /// Whether `sensor` drives fan `f`.
    pub closed spec fn linked(&self, sensor: Seq<char>, f: FanRef) -> bool {
        pairs_has(self.links@, sensor, f)
    }

    pub closed spec fn wf(&self) -> bool {
        pairs_unique(self.links@)
    }

    /// The empty relation.
    pub fn new() -> (r: Mapping)
        ensures
            r.wf(),
            forall|s: Seq<char>, f: FanRef| !r.linked(s, f),
    {
        Mapping { links: Vec::new() }
    }

    fn position(&self, sensor: &String, f: FanRef) -> (r: Option<usize>)
        ensures
            match r {
                Some(i) => i < self.links@.len() && self.links@[i as int].0@ == sensor@ && self.links@[i as int].1 == f,
                None => !self.linked(sensor@, f),
            },
    {
        let mut i: usize = 0;
        while i < self.links.len()
            invariant
                i <= self.links@.len(),
                forall|k: int| 0 <= k < i ==> !(#[trigger] self.links@[k].0@ == sensor@ && self.links@[k].1 == f),
            decreases self.links@.len() - i,
        {
            if self.links[i].1 == f && self.links[i].0 == *sensor {
                return Some(i);
            }
            i = i + 1;
        }
        None
    }

    /// Adds the pair `(sensor, f)` if it is not there yet.
    fn link(&mut self, sensor: String, f: FanRef)
        requires
            old(self).wf(),
        ensures
            final(self).wf(),
            forall|s: Seq<char>, g: FanRef|
                final(self).linked(s, g) <==> (old(self).linked(s, g) || (s == sensor@ && g == f)),
    {
        match self.position(&sensor, f) {
            Some(_) => {},
            None => {
                proof {
                    lemma_push_pair(self.links@, (sensor, f));
                }
                self.links.push((sensor, f));
            },
        }
    }

    /// Removes every pair of fan `f`.
    pub fn detach(&mut self, fan: FanRef)
        requires
            old(self).wf(),
        ensures
            final(self).wf(),
            forall|s: Seq<char>, g: FanRef| final(self).linked(s, g) <==> (old(self).linked(s, g) && g != fan),
    {
        let mut kept: Vec<(String, FanRef)> = Vec::new();
        let mut i: usize = 0;
        let ghost src = self.links@;
        while i < self.links.len()
            invariant
                src == self.links@,
                pairs_unique(src),
                i <= src.len(),
                pairs_unique(kept@),
                forall|s: Seq<char>, g: FanRef| pairs_has(kept@, s, g) <==> (pairs_has(src.take(i as int), s, g) && g != fan),
            decreases src.len() - i,
        {
            proof {
                lemma_take_pair(src, i as int);
                lemma_push_pair(src.take(i as int), src[i as int]);
            }
            let ghost kept0 = kept@;
            if self.links[i].1 != fan {
                let e = (self.links[i].0.clone(), self.links[i].1);
                proof {
                    lemma_push_pair(kept@, e);
                    if pairs_has(kept@, e.0@, e.1) {
                        let k = choose|k: int| 0 <= k < src.take(i as int).len() && #[trigger] src.take(i as int)[k].0@ == e.0@ && src.take(i as int)[k].1 == e.1;
                        assert(src[k].0@ == src[i as int].0@);
                    }
                }
                kept.push(e);
            }
            proof {
                let t1 = src.take(i + 1);
                let t0 = src.take(i as int);
                assert forall|s: Seq<char>, g: FanRef| pairs_has(kept@, s, g) <==> (pairs_has(t1, s, g) && g != fan) by {
                    assert(pairs_has(t1, s, g) <==> (pairs_has(t0, s, g) || (src[i as int].0@ == s && src[i as int].1 == g)));
                    assert(pairs_has(kept0, s, g) <==> (pairs_has(t0, s, g) && g != fan));
                    if src[i as int].1 != fan {
                        assert(kept@ == kept0.push((src[i as int].0, src[i as int].1)));
                        assert(pairs_has(kept@, s, g) <==> (pairs_has(kept0, s, g) || (src[i as int].0@ == s && src[i as int].1 == g)));
                    } else {
                        assert(kept@ == kept0);
                    }
                }
            }
            i = i + 1;
        }
        proof {
            assert(src.take(i as int) =~= src);
        }
        self.links = kept;
    }

    /// Makes `sensor` the one sensor that drives fan `f`.
    pub fn attach(&mut self, fan: FanRef, sensor: String)
        requires
            old(self).wf(),
        ensures
            final(self).wf(),
            forall|s: Seq<char>, g: FanRef|
                final(self).linked(s, g) <==> (if g == fan { s == sensor@ } else { old(self).linked(s, g) }),
    {
        self.detach(fan);
        self.link(sensor, fan);
    }

    /// The fans that `sensor` drives, each once.
    pub fn fans_for_sensor(&self, sensor: &String) -> (r: Vec<FanRef>)
        requires
            self.wf(),
        ensures
            forall|f: FanRef| r@.contains(f) <==> self.linked(sensor@, f),
            r@.no_duplicates(),
    {
        let mut out: Vec<FanRef> = Vec::new();
        let mut i: usize = 0;
        let ghost src = self.links@;
        while i < self.links.len()
            invariant
                src == self.links@,
                pairs_unique(src),
                i <= src.len(),
                forall|f: FanRef| out@.contains(f) <==> pairs_has(src.take(i as int), sensor@, f),
                out@.no_duplicates(),
            decreases src.len() - i,
        {
            proof {
                lemma_take_pair(src, i as int);
                lemma_push_pair(src.take(i as int), src[i as int]);
            }
            let ghost out0 = out@;
            if self.links[i].0 == *sensor {
                let f = self.links[i].1;
                let ghost prev = out@;
                proof {
                    if prev.contains(f) {
                        let k = choose|k: int| 0 <= k < src.take(i as int).len() && #[trigger] src.take(i as int)[k].0@ == sensor@ && src.take(i as int)[k].1 == f;
                        assert(src[k].0@ == src[i as int].0@);
                    }
                }
                out.push(f);
                proof {
                    assert forall|g: FanRef| out@.contains(g) <==> (prev.contains(g) || g == f) by {
                        if out@.contains(g) {
                            let j = choose|j: int| 0 <= j < out@.len() && out@[j] == g;
                            if j < prev.len() {
                                assert(prev[j] == g);
                            }
                        }
                        if prev.contains(g) {
                            let j = choose|j: int| 0 <= j < prev.len() && prev[j] == g;
                            assert(out@[j] == g);
                        }
                        if g == f {
                            assert(out@[prev.len() as int] == g);
                        }
                    }
                    assert forall|a: int, b: int| 0 <= a < out@.len() && 0 <= b < out@.len() && a != b implies out@[a] != out@[b] by {
                        if a < prev.len() && b < prev.len() {
                            assert(prev[a] == out@[a] && prev[b] == out@[b]);
                        } else if a < prev.len() {
                            assert(prev[a] == out@[a]);
                            assert(prev.contains(out@[a]));
                        } else if b < prev.len() {
                            assert(prev[b] == out@[b]);
                            assert(prev.contains(out@[b]));
                        }
                    }
                }
            }
            proof {
                let t1 = src.take(i + 1);
                let t0 = src.take(i as int);
                assert forall|g: FanRef| out@.contains(g) <==> pairs_has(t1, sensor@, g) by {
                    assert(pairs_has(t1, sensor@, g) <==> (pairs_has(t0, sensor@, g) || (src[i as int].0@ == sensor@ && src[i as int].1 == g)));
                    assert(out0.contains(g) <==> pairs_has(t0, sensor@, g));
                    if src[i as int].0@ == sensor@ {
                        assert(out@.contains(g) <==> (out0.contains(g) || g == src[i as int].1));
                    } else {
                        assert(out@ == out0);
                    }
                }
            }
            i = i + 1;
        }
        proof {
            assert(src.take(i as int) =~= src);
        }
        out
    }

    /// The relation the configuration describes: each entry's sensor drives
    /// each of its targets.
    pub fn load_mappings(mapping_cfg: &Vec<MappingCfg>) -> (r: Mapping)
        ensures
            r.wf(),
            forall|s: Seq<char>, f: FanRef|
                r.linked(s, f) <==> configured(
                    mapping_cfg@.map_values(|m: MappingCfg| m.sensor@),
                    mapping_cfg@.map_values(|m: MappingCfg| m.targets@),
                    s,
                    f,
                ),
    {
        let ghost keys = mapping_cfg@.map_values(|m: MappingCfg| m.sensor@);
        let ghost tgts = mapping_cfg@.map_values(|m: MappingCfg| m.targets@);
        let mut r = Mapping::new();
        let mut i: usize = 0;
        while i < mapping_cfg.len()
            invariant
                i <= mapping_cfg@.len(),
                keys == mapping_cfg@.map_values(|m: MappingCfg| m.sensor@),
                tgts == mapping_cfg@.map_values(|m: MappingCfg| m.targets@),
                r.wf(),
                forall|s: Seq<char>, f: FanRef| r.linked(s, f) <==> configured(keys.take(i as int), tgts, s, f),
            decreases mapping_cfg@.len() - i,
        {
            let m = &mapping_cfg[i];
            let mut j: usize = 0;
            while j < m.targets.len()
                invariant
                    i < mapping_cfg@.len(),
                    *m == mapping_cfg@[i as int],
                    keys == mapping_cfg@.map_values(|m: MappingCfg| m.sensor@),
                    tgts == mapping_cfg@.map_values(|m: MappingCfg| m.targets@),
                    j <= m.targets@.len(),
                    r.wf(),
                    forall|s: Seq<char>, f: FanRef| r.linked(s, f) <==> (configured(keys.take(i as int), tgts, s, f)
                        || (s == m.sensor@ && exists|q: int| 0 <= q < j && #[trigger] target_ref(m.targets@[q]) == Some(f))),
                decreases m.targets@.len() - j,
            {
                match to_fan_ref(m.targets[j]) {
                    Some(f) => {
                        r.link(m.sensor.clone(), f);
                    },
                    None => {},
                }
                j = j + 1;
            }
            proof {
                assert forall|s: Seq<char>, f: FanRef| configured(keys.take(i + 1), tgts, s, f) <==> (configured(keys.take(i as int), tgts, s, f)
                    || (s == m.sensor@ && exists|q: int| 0 <= q < m.targets@.len() && #[trigger] target_ref(m.targets@[q]) == Some(f))) by {
                    if configured(keys.take(i + 1), tgts, s, f) {
                        let (a, b) = choose|a: int, b: int| 0 <= a < keys.take(i + 1).len() && a < tgts.len() && 0 <= b < tgts[a].len()
                            && keys.take(i + 1)[a] == s && #[trigger] target_ref(tgts[a][b]) == Some(f);
                        if a < i {
                            assert(keys.take(i as int)[a] == s);
                        } else {
                            assert(tgts[a] == m.targets@);
                        }
                    }
                    if configured(keys.take(i as int), tgts, s, f) {
                        let (a, b) = choose|a: int, b: int| 0 <= a < keys.take(i as int).len() && a < tgts.len() && 0 <= b < tgts[a].len()
                            && keys.take(i as int)[a] == s && #[trigger] target_ref(tgts[a][b]) == Some(f);
                        assert(keys.take(i + 1)[a] == s);
                    }
                    if s == m.sensor@ && exists|q: int| 0 <= q < m.targets@.len() && #[trigger] target_ref(m.targets@[q]) == Some(f) {
                        let q = choose|q: int| 0 <= q < m.targets@.len() && #[trigger] target_ref(m.targets@[q]) == Some(f);
                        assert(keys.take(i + 1)[i as int] == s);
                        assert(tgts[i as int][q] == m.targets@[q]);
                    }
                }
            }
            i = i + 1;
        }
        proof {
            assert(keys.take(i as int) =~= keys);
        }
        r
    }
}

impl Mapping {
    /// The names that appear in some pair, each once.
    pub fn names(&self) -> (r: Vec<String>)
        requires
            self.wf(),
        ensures
            forall|s: Seq<char>, f: FanRef| self.linked(s, f) ==> (exists|k: int| 0 <= k < r@.len() && #[trigger] r@[k]@ == s),
            forall|a: int, b: int| 0 <= a < r@.len() && 0 <= b < r@.len() && #[trigger] r@[a]@ == #[trigger] r@[b]@ ==> a == b,
    {
        let mut out: Vec<String> = Vec::new();
        let mut i: usize = 0;
        let ghost src = self.links@;
        while i < self.links.len()
            invariant
                src == self.links@,
                i <= src.len(),
                forall|k: int| #![trigger src[k]] 0 <= k < i ==> exists|m: int| 0 <= m < out@.len() && out@[m]@ == src[k].0@,
                forall|m: int| #![trigger out@[m]] 0 <= m < out@.len() ==> exists|k: int| 0 <= k < i && src[k].0@ == out@[m]@,
                forall|a: int, b: int| 0 <= a < out@.len() && 0 <= b < out@.len() && #[trigger] out@[a]@ == #[trigger] out@[b]@ ==> a == b,
            decreases src.len() - i,
        {
            let name = &self.links[i].0;
            let mut j: usize = 0;
            let mut seen = false;
            while j < out.len()
                invariant
                    j <= out@.len(),
                    !seen ==> forall|k: int| 0 <= k < j ==> #[trigger] out@[k]@ != name@,
                    seen ==> exists|k: int| 0 <= k < out@.len() && #[trigger] out@[k]@ == name@,
                decreases out@.len() - j,
            {
                if out[j] == *name {
                    seen = true;
                }
                j = j + 1;
            }
            let ghost out0 = out@;
            if !seen {
                out.push(name.clone());
                proof {
                    assert forall|a: int, b: int| 0 <= a < out@.len() && 0 <= b < out@.len() && #[trigger] out@[a]@ == #[trigger] out@[b]@ implies a == b by {
                        if a < out0.len() && b < out0.len() {
                            assert(out0[a] == out@[a] && out0[b] == out@[b]);
                        } else if a < out0.len() {
                            assert(out0[a] == out@[a]);
                        } else if b < out0.len() {
                            assert(out0[b] == out@[b]);
                        }
                    }
                }
            }
            proof {
                assert forall|k: int| #![trigger src[k]] 0 <= k < i + 1 implies exists|m: int| 0 <= m < out@.len() && out@[m]@ == src[k].0@ by {
                    if k < i {
                        let m = choose|m: int| 0 <= m < out0.len() && out0[m]@ == src[k].0@;
                        assert(out@[m] == out0[m]);
                    } else if !seen {
                        assert(out@[out0.len() as int]@ == src[k].0@);
                    } else {
                        let m = choose|m: int| 0 <= m < out@.len() && #[trigger] out@[m]@ == name@;
                        assert(out@[m]@ == src[k].0@);
                    }
                }
                assert forall|m: int| #![trigger out@[m]] 0 <= m < out@.len() implies exists|k: int| 0 <= k < i + 1 && src[k].0@ == out@[m]@ by {
                    if m < out0.len() {
                        assert(out0[m] == out@[m]);
                        let k = choose|k: int| 0 <= k < i && src[k].0@ == out0[m]@;
                        assert(src[k].0@ == out@[m]@);
                    } else {
                        assert(src[i as int].0@ == out@[m]@);
                    }
                }
            }
            i = i + 1;
        }
        proof {
            assert forall|s: Seq<char>, f: FanRef| self.linked(s, f) implies (exists|k: int| 0 <= k < out@.len() && #[trigger] out@[k]@ == s) by {
                let k = choose|k: int| 0 <= k < src.len() && #[trigger] src[k].0@ == s && src[k].1 == f;
                let m = choose|m: int| 0 <= m < out@.len() && out@[m]@ == src[k].0@;
                assert(out@[m]@ == s);
            }
        }
        out
    }
}

/// Which fans show which named color.
#[derive(Debug)]
pub struct ColorMapping {
    pub color2fans: Mapping,
}

impl ColorMapping {
    /// The relation the configuration describes: each entry's color is shown
    /// on each of its targets.
    pub fn build_color_mapping(color_cfg: &Vec<ColorMappingCfg>) -> (r: ColorMapping)
        ensures
            r.color2fans.wf(),
            forall|s: Seq<char>, f: FanRef|
                r.color2fans.linked(s, f) <==> configured(
                    color_cfg@.map_values(|m: ColorMappingCfg| m.color@),
                    color_cfg@.map_values(|m: ColorMappingCfg| m.targets@),
                    s,
                    f,
                ),
    {
        let mut as_sensors: Vec<MappingCfg> = Vec::new();
        let mut i: usize = 0;
        while i < color_cfg.len()
            invariant
                i <= color_cfg@.len(),
                as_sensors@.len() == i,
                forall|k: int| 0 <= k < i ==> (#[trigger] as_sensors@[k]).sensor@ == color_cfg@[k].color@
                    && as_sensors@[k].targets@ == color_cfg@[k].targets@,
            decreases color_cfg@.len() - i,
        {
            let t = color_cfg[i].targets.clone();
            assert(t@ =~= color_cfg@[i as int].targets@);
            as_sensors.push(MappingCfg { sensor: color_cfg[i].color.clone(), targets: t });
            i = i + 1;
        }
        assert(as_sensors@.map_values(|m: MappingCfg| m.sensor@) =~= color_cfg@.map_values(|m: ColorMappingCfg| m.color@));
        assert(as_sensors@.map_values(|m: MappingCfg| m.targets@) =~= color_cfg@.map_values(|m: ColorMappingCfg| m.targets@));
        ColorMapping { color2fans: Mapping::load_mappings(&as_sensors) }
    }

    /// Each color with the fans that show it.
    pub fn color_to_fans(&self) -> (r: Vec<(String, Vec<FanRef>)>)
        requires
            self.color2fans.wf(),
        ensures
            forall|k: int, f: FanRef| #![trigger r@[k].1@.contains(f)] 0 <= k < r@.len() ==> (r@[k].1@.contains(f) <==> self.color2fans.linked(r@[k].0@, f)),
            forall|s: Seq<char>, f: FanRef| self.color2fans.linked(s, f) ==> exists|k: int| 0 <= k < r@.len() && #[trigger] r@[k].0@ == s,
            forall|a: int, b: int| 0 <= a < r@.len() && 0 <= b < r@.len() && #[trigger] r@[a].0@ == #[trigger] r@[b].0@ ==> a == b,
    {
        let names = self.color2fans.names();
        let mut out: Vec<(String, Vec<FanRef>)> = Vec::new();
        let mut i: usize = 0;
        while i < names.len()
            invariant
                self.color2fans.wf(),
                i <= names@.len(),
                out@.len() == i,
                forall|k: int| 0 <= k < i ==> (#[trigger] out@[k]).0@ == names@[k]@,
                forall|a: int, b: int| 0 <= a < names@.len() && 0 <= b < names@.len() && #[trigger] names@[a]@ == #[trigger] names@[b]@ ==> a == b,
                forall|k: int, f: FanRef| #![trigger out@[k].1@.contains(f)] 0 <= k < i ==> (out@[k].1@.contains(f) <==> self.color2fans.linked(out@[k].0@, f)),
            decreases names@.len() - i,
        {
            let fans = self.color2fans.fans_for_sensor(&names[i]);
            out.push((names[i].clone(), fans));
            i = i + 1;
        }
        proof {
            assert forall|s: Seq<char>, f: FanRef| self.color2fans.linked(s, f) implies exists|k: int| 0 <= k < out@.len() && #[trigger] out@[k].0@ == s by {
                let k = choose|k: int| 0 <= k < names@.len() && #[trigger] names@[k]@ == s;
                assert(out@[k].0@ == s);
            }
        }
        out
    }
}

/// One color channel at `temp` on the gradient from `c0` at `t0` to `c1` at
/// `t1`, rounded down.
pub open spec fn blend(temp: int, t0: int, t1: int, c0: int, c1: int) -> int {
    (c0 * (t1 - temp) + c1 * (temp - t0)) / (t1 - t0)
}

fn blend_exec(temp: i32, t0: i32, t1: i32, c0: u8, c1: u8) -> (r: u8)
    requires
        t0 < temp < t1,
    ensures
        r as int == blend(temp as int, t0 as int, t1 as int, c0 as int, c1 as int),
{
    let den: i64 = t1 as i64 - t0 as i64;
    let a: i64 = t1 as i64 - temp as i64;
    let b: i64 = temp as i64 - t0 as i64;
    assert(0 <= (c0 as i64) * a <= 255 * den && 0 <= (c1 as i64) * b <= 255 * den) by (nonlinear_arith)
        requires
            0 < a,
            0 < b,
            a + b == den,
            0 <= c0 <= 255,
            0 <= c1 <= 255,
    ;
    let num: i64 = (c0 as i64) * a + (c1 as i64) * b;
    assert(num <= 255 * den) by (nonlinear_arith)
        requires
            0 < a,
            0 < b,
            a + b == den,
            0 <= c0 <= 255,
            0 <= c1 <= 255,
            num == c0 * a + c1 * b,
    ;
    let q: i64 = num / den;
    assert(0 <= q <= 255) by (nonlinear_arith)
        requires
            den > 0,
            0 <= num <= 255 * den,
            q == num / den,
    ;
    q as u8
}

/// The color for `temp` on the gradient from `min_color` at `min_temp` to
/// `max_color` at `max_temp`; the end colors outside that range.
pub fn color_for_temp(temp: i32, min_temp: i32, max_temp: i32, min_color: [u8; 3], max_color: [u8; 3]) -> (r: [u8; 3])
    ensures
        temp <= min_temp ==> r == min_color,
        min_temp < temp && temp >= max_temp ==> r == max_color,
        min_temp < temp < max_temp ==> forall|k: int| 0 <= k < 3 ==> r[k] as int == blend(
            temp as int,
            min_temp as int,
            max_temp as int,
            min_color[k] as int,
            max_color[k] as int,
        ),
{
    if temp <= min_temp {
        return min_color;
    }
    if temp >= max_temp {
        return max_color;
    }
    let r = [
        blend_exec(temp, min_temp, max_temp, min_color[0], max_color[0]),
        blend_exec(temp, min_temp, max_temp, min_color[1], max_color[1]),
        blend_exec(temp, min_temp, max_temp, min_color[2], max_color[2]),
    ];
    assert forall|k: int| 0 <= k < 3 implies r[k] as int == blend(
        temp as int,
        min_temp as int,
        max_temp as int,
        min_color[k] as int,
        max_color[k] as int,
    ) by {
        if k == 0 {
        } else if k == 1 {
        } else {
        }
    }
    r
}

/// Temperature of the first sample named `sensor`.
pub open spec fn temp_of(temps: Seq<(String, i32)>, sensor: Seq<char>) -> Option<i32>
    decreases temps.len(),
{
    if temps.len() == 0 {
        None
    } else if temps[0].0@ == sensor {
        Some(temps[0].1)
    } else {
        temp_of(temps.drop_first(), sensor)
    }
}

pub open spec fn target_key(t: FanTarget) -> (u8, u8) {
    (t.controller, t.fan_idx)
}

pub open spec fn lists_key(targets: Seq<FanTarget>, key: (u8, u8)) -> bool {
    exists|j: int| 0 <= j < targets.len() && #[trigger] target_key(targets[j]) == key
}

/// Temperature that the mappings give a target: that of the last entry whose
/// sensor has a sample and which lists the target.
pub open spec fn resolved(temps: Seq<(String, i32)>, mappings: Seq<MappingCfg>, key: (u8, u8)) -> Option<i32>
    decreases mappings.len(),
{
    if mappings.len() == 0 {
        None
    } else {
        let m = mappings.last();
        match temp_of(temps, m.sensor@) {
            Some(t) => if lists_key(m.targets@, key) {
                Some(t)
            } else {
                resolved(temps, mappings.drop_last(), key)
            },
            None => resolved(temps, mappings.drop_last(), key),
        }
    }
}

/// Value stored for `key` in an association list, if any.
pub open spec fn assoc(v: Seq<((u8, u8), i32)>, key: (u8, u8)) -> Option<i32> {
    if exists|k: int| 0 <= k < v.len() && #[trigger] v[k].0 == key {
        Some(v[choose|k: int| 0 <= k < v.len() && #[trigger] v[k].0 == key].1)
    } else {
        None
    }
}

pub open spec fn keys_unique(v: Seq<((u8, u8), i32)>) -> bool {
    forall|a: int, b: int| 0 <= a < v.len() && 0 <= b < v.len() && #[trigger] v[a].0 == #[trigger] v[b].0 ==> a == b
}

fn find_temp(temps: &Vec<(String, i32)>, sensor: &String) -> (r: Option<i32>)
    ensures
        r == temp_of(temps@, sensor@),
{
    let mut i: usize = 0;
    assert(temps@.subrange(0, temps@.len() as int) =~= temps@);
    while i < temps.len()
        invariant
            i <= temps@.len(),
            temp_of(temps@, sensor@) == temp_of(temps@.subrange(i as int, temps@.len() as int), sensor@),
        decreases temps@.len() - i,
    {
        proof {
            assert(temps@.subrange(i as int, temps@.len() as int).drop_first() =~= temps@.subrange(i + 1, temps@.len() as int));
        }
        if temps[i].0 == *sensor {
            return Some(temps[i].1);
        }
        i = i + 1;
    }
    None
}

/// Sets `key` to `t`, keeping keys unique.
fn upsert(v: &mut Vec<((u8, u8), i32)>, key: (u8, u8), t: i32)
    requires
        keys_unique(old(v)@),
    ensures
        keys_unique(final(v)@),
        forall|k: (u8, u8)| assoc(final(v)@, k) == if k == key { Some(t) } else { assoc(old(v)@, k) },
{
    let mut i: usize = 0;
    while i < v.len()
        invariant
            i <= v@.len(),
            v@ == old(v)@,
            keys_unique(old(v)@),
            forall|k: int| 0 <= k < i ==> (#[trigger] v@[k]).0 != key,
        decreases v@.len() - i,
    {
        if v[i].0.0 == key.0 && v[i].0.1 == key.1 {
            let ghost before = v@;
            v.set(i, (key, t));
            proof {
                assert forall|a: int, b: int| 0 <= a < v@.len() && 0 <= b < v@.len() && #[trigger] v@[a].0 == #[trigger] v@[b].0 implies a == b by {
                    assert(before[a].0 == v@[a].0 && before[b].0 == v@[b].0);
                }
                assert forall|k: (u8, u8)| assoc(v@, k) == if k == key { Some(t) } else { assoc(before, k) } by {
                    if k == key {
                        assert(v@[i as int].0 == k);
                        let c = choose|c: int| 0 <= c < v@.len() && #[trigger] v@[c].0 == k;
                        assert(before[c].0 == before[i as int].0);
                    } else {
                        if exists|c: int| 0 <= c < before.len() && #[trigger] before[c].0 == k {
                            let c = choose|c: int| 0 <= c < before.len() && #[trigger] before[c].0 == k;
                            assert(v@[c].0 == k);
                            let d = choose|d: int| 0 <= d < v@.len() && #[trigger] v@[d].0 == k;
                            assert(before[d].0 == k);
                            assert(c == d);
                        }
                        if exists|c: int| 0 <= c < v@.len() && #[trigger] v@[c].0 == k {
                            let c = choose|c: int| 0 <= c < v@.len() && #[trigger] v@[c].0 == k;
                            assert(before[c].0 == k);
                        }
                    }
                }
            }
            return;
        }
        i = i + 1;
    }
    let ghost before = v@;
    v.push((key, t));
    proof {
        assert forall|a: int, b: int| 0 <= a < v@.len() && 0 <= b < v@.len() && #[trigger] v@[a].0 == #[trigger] v@[b].0 implies a == b by {
            if a < before.len() {
                assert(before[a] == v@[a]);
            }
            if b < before.len() {
                assert(before[b] == v@[b]);
            }
        }
        assert forall|k: (u8, u8)| assoc(v@, k) == if k == key { Some(t) } else { assoc(before, k) } by {
            if k == key {
                assert(v@[before.len() as int].0 == k);
                let c = choose|c: int| 0 <= c < v@.len() && #[trigger] v@[c].0 == k;
                if c < before.len() {
                    assert(before[c] == v@[c]);
                }
            } else {
                if exists|c: int| 0 <= c < before.len() && #[trigger] before[c].0 == k {
                    let c = choose|c: int| 0 <= c < before.len() && #[trigger] before[c].0 == k;
                    assert(v@[c] == before[c]);
                    let d = choose|d: int| 0 <= d < v@.len() && #[trigger] v@[d].0 == k;
                    if d < before.len() {
                        assert(before[d] == v@[d]);
                    }
                }
                if exists|c: int| 0 <= c < v@.len() && #[trigger] v@[c].0 == k {
                    let c = choose|c: int| 0 <= c < v@.len() && #[trigger] v@[c].0 == k;
                    assert(c < before.len());
                    assert(before[c] == v@[c]);
                }
            }
        }
    }
}

/// The temperature each configured target gets from the samples: a target
/// listed by several entries takes the last one whose sensor was sampled;
/// entries of unsampled sensors are skipped. Each target appears once.
pub fn resolve_mappings(temperatures: &Vec<(String, i32)>, mappings: &Vec<MappingCfg>) -> (r: Vec<((u8, u8), i32)>)
    ensures
        keys_unique(r@),
        forall|k: (u8, u8)| assoc(r@, k) == resolved(temperatures@, mappings@, k),
{
    let mut result: Vec<((u8, u8), i32)> = Vec::new();
    let mut i: usize = 0;
    while i < mappings.len()
        invariant
            i <= mappings@.len(),
            keys_unique(result@),
            forall|k: (u8, u8)| assoc(result@, k) == resolved(temperatures@, mappings@.take(i as int), k),
        decreases mappings@.len() - i,
    {
        proof {
            assert(mappings@.take(i + 1).drop_last() =~= mappings@.take(i as int));
            assert(mappings@.take(i + 1).last() == mappings@[i as int]);
        }
        let m = &mappings[i];
        match find_temp(temperatures, &m.sensor) {
            Some(t) => {
                let mut j: usize = 0;
                while j < m.targets.len()
                    invariant
                        i < mappings@.len(),
                        *m == mappings@[i as int],
                        temp_of(temperatures@, m.sensor@) == Some(t),
                        j <= m.targets@.len(),
                        keys_unique(result@),
                        forall|k: (u8, u8)| assoc(result@, k) == if lists_key(m.targets@.take(j as int), k) {
                            Some(t)
                        } else {
                            resolved(temperatures@, mappings@.take(i as int), k)
                        },
                    decreases m.targets@.len() - j,
                {
                    let tg = m.targets[j];
                    upsert(&mut result, (tg.controller, tg.fan_idx), t);
                    proof {
                        assert forall|k: (u8, u8)| lists_key(m.targets@.take(j + 1), k) <==> (lists_key(m.targets@.take(j as int), k) || target_key(m.targets@[j as int]) == k) by {
                            if lists_key(m.targets@.take(j + 1), k) {
                                let q = choose|q: int| 0 <= q < m.targets@.take(j + 1).len() && #[trigger] target_key(m.targets@.take(j + 1)[q]) == k;
                                if q < j {
                                    assert(m.targets@.take(j as int)[q] == m.targets@.take(j + 1)[q]);
                                }
                            }
                            if lists_key(m.targets@.take(j as int), k) {
                                let q = choose|q: int| 0 <= q < m.targets@.take(j as int).len() && #[trigger] target_key(m.targets@.take(j as int)[q]) == k;
                                assert(m.targets@.take(j + 1)[q] == m.targets@.take(j as int)[q]);
                            }
                            if target_key(m.targets@[j as int]) == k {
                                assert(m.targets@.take(j + 1)[j as int] == m.targets@[j as int]);
                            }
                        }
                    }
                    j = j + 1;
                }
                proof {
                    assert(m.targets@.take(j as int) =~= m.targets@);
                }
            },
            None => {},
        }
        i = i + 1;
    }
    proof {
        assert(mappings@.take(i as int) =~= mappings@);
    }
    result
}

} // verus!
