use vstd::prelude::*;

verus! {

/// One full normalized coordinate domain, in fixed-point units. The visible
/// window always lies inside `[0, UNIT]`.
pub const UNIT: u64 = 1_000_000_000;

/// Largest permitted window radius: half of the normalized domain.
pub const HALF_UNIT: u64 = 500_000_000;

/// Smallest radius a zoom may reach (one ten-millionth of the domain).
pub const MIN_RADIUS: u64 = 100;

/// Fixed-point one for zoom factors and for the transient scale accumulator.
pub const FACTOR_ONE: u64 = 1_000_000;

/// The view navigator: the coordinate-space window currently rastered, as
/// `[center - radius, center + radius]` in units of [`UNIT`], plus a transient
/// pixel-space translation and scale applied for visual smoothness between
/// reloads and reset to identity once a reload completes.
#[derive(Clone, Copy, PartialEq, Eq, Structural, Debug)]
pub struct ViewWindow {
    pub center: u64,
    pub radius: u64,
    pub translation: i64,
    pub scaling: u64,
}

/// The radius clamped to at most half the domain.
pub open spec fn clamped_radius(r: u64) -> u64 {
    if r > HALF_UNIT {
        HALF_UNIT
    } else {
        r
    }
}

/// The center adjusted so the window `[c - r, c + r]` stays inside the domain;
/// the radius takes precedence over the center.
pub open spec fn clamped_center(c: u64, r: u64) -> u64
    recommends
        r <= HALF_UNIT,
{
    if c < r {
        r
    } else if c + r > UNIT {
        (UNIT - r) as u64
    } else {
        c
    }
}

/// The view with its limits enforced: radius first, then center.
pub open spec fn enforce_spec(v: ViewWindow) -> ViewWindow {
    ViewWindow {
        center: clamped_center(v.center, clamped_radius(v.radius)),
        radius: clamped_radius(v.radius),
        translation: v.translation,
        scaling: v.scaling,
    }
}

/// Signed addition clamped to the `i64` range.
pub open spec fn sat_add(a: i64, b: i64) -> i64 {
    if a + b > i64::MAX {
        i64::MAX
    } else if a + b < i64::MIN {
        i64::MIN
    } else {
        (a + b) as i64
    }
}

/// The center shifted by a signed delta, clamped to the domain.
pub open spec fn shifted_center(c: u64, d: i64) -> u64 {
    if c + d < 0 {
        0
    } else if c + d > UNIT {
        UNIT
    } else {
        (c + d) as u64
    }
}

/// The radius multiplied by a fixed-point factor and clamped to
/// `[MIN_RADIUS, HALF_UNIT]`.
pub open spec fn zoomed_radius(r: u64, factor: u64) -> u64 {
    let z = (r * factor) / (FACTOR_ONE as int);
    if z < MIN_RADIUS {
        MIN_RADIUS
    } else if z > HALF_UNIT {
        HALF_UNIT
    } else {
        z as u64
    }
}

/// The transient scale multiplied by a fixed-point factor, saturating at the
/// top of the `u64` range.
pub open spec fn scaled(s: u64, factor: u64) -> u64 {
    let z = (s * factor) / (FACTOR_ONE as int);
    if z > u64::MAX {
        u64::MAX
    } else {
        z as u64
    }
}

/// A coordinate clamped to the domain.
pub open spec fn clamp_unit(x: u64) -> u64 {
    if x > UNIT {
        UNIT
    } else {
        x
    }
}

proof fn lemma_u64_mul_fits(a: u64, b: u64)
    ensures
        (a as int) * (b as int) <= u128::MAX as int,
{
    assert((a as int) * (b as int) <= (u64::MAX as int) * (u64::MAX as int)) by (nonlinear_arith)
        requires
            a <= u64::MAX,
            b <= u64::MAX,
    ;
}

fn sat_add_i64(a: i64, b: i64) -> (r: i64)
    ensures
        r == sat_add(a, b),
{
    if b >= 0 {
        if a > i64::MAX - b {
            i64::MAX
        } else {
            a + b
        }
    } else {
        if a < i64::MIN - b {
            i64::MIN
        } else {
            a + b
        }
    }
}

impl ViewWindow {
    /// Both coordinates lie inside the domain.
    pub open spec fn wf(self) -> bool {
        self.center <= UNIT && self.radius <= UNIT
    }

    /// The window respects the view limits: it lies inside `[0, UNIT]` and
    /// covers at most half the domain.
    pub open spec fn clamped(self) -> bool {
        self.radius <= HALF_UNIT && self.radius <= self.center && self.center + self.radius
            <= UNIT
    }

    /// Clamp the window to the view limits: the radius to at most half the
    /// domain, then the center so the window stays inside it.
    pub fn enforce_view_limits(&mut self)
        requires
            old(self).wf(),
        ensures
            *final(self) == enforce_spec(*old(self)),
            final(self).clamped(),
            final(self).wf(),
    {
        let r = if self.radius > HALF_UNIT {
            HALF_UNIT
        } else {
            self.radius
        };
        let c = self.center;
        let c2 = if c < r {
            r
        } else if c > UNIT - r {
            UNIT - r
        } else {
            c
        };
        self.radius = r;
        self.center = c2;
    }

    /// Pan the window: the delta joins both the transient translation and the
    /// coordinate-space center, and the limits are enforced afterwards.
    pub fn pan(&mut self, delta: i64)
        requires
            old(self).wf(),
        ensures
            *final(self) == enforce_spec(
                ViewWindow {
                    center: shifted_center(old(self).center, delta),
                    radius: old(self).radius,
                    translation: sat_add(old(self).translation, delta),
                    scaling: old(self).scaling,
                },
            ),
            final(self).clamped(),
    {
        let c = self.center;
        let nc: u64 = if delta >= 0 {
            let d = delta as u64;
            if d > UNIT - c {
                UNIT
            } else {
                c + d
            }
        } else if delta <= -(UNIT as i64) {
            0
        } else {
            let d = (-delta) as u64;
            if d > c {
                0
            } else {
                c - d
            }
        };
        let t = self.translation;
        self.translation = sat_add_i64(t, delta);
        self.center = nc;
        self.enforce_view_limits();
    }

    /// Zoom the window: the radius is multiplied by the fixed-point `factor`
    /// and clamped to `[MIN_RADIUS, HALF_UNIT]`; the transient scale
    /// accumulates the factor only when the radius actually changed, and the
    /// returned flag reports exactly that.
    pub fn zoom(&mut self, factor: u64) -> (changed: bool)
        requires
            old(self).wf(),
        ensures
            changed == (zoomed_radius(old(self).radius, factor) != old(self).radius),
            final(self).radius == zoomed_radius(old(self).radius, factor),
            final(self).center == clamped_center(old(self).center, final(self).radius),
            final(self).translation == old(self).translation,
            final(self).scaling == if changed {
                scaled(old(self).scaling, factor)
            } else {
                old(self).scaling
            },
            final(self).clamped(),
    {
        let old_r = self.radius;
        proof {
            lemma_u64_mul_fits(old_r, factor);
        }
        let prod: u128 = (old_r as u128) * (factor as u128);
        let z: u128 = prod / (FACTOR_ONE as u128);
        let nr: u64 = if z < MIN_RADIUS as u128 {
            MIN_RADIUS
        } else if z > HALF_UNIT as u128 {
            HALF_UNIT
        } else {
            z as u64
        };
        self.radius = nr;
        self.enforce_view_limits();
        let changed = nr != old_r;
        if changed {
            proof {
                lemma_u64_mul_fits(self.scaling, factor);
            }
            let sprod: u128 = (self.scaling as u128) * (factor as u128);
            let sz: u128 = sprod / (FACTOR_ONE as u128);
            self.scaling = if sz > u64::MAX as u128 {
                u64::MAX
            } else {
                sz as u64
            };
        }
        changed
    }

    /// Set the window to cover `[left, right]`, each bound clamped to the
    /// domain; the order of the two bounds does not matter.
    pub fn set_visible_range(&mut self, left: u64, right: u64)
        ensures
            final(self).center == (clamp_unit(if left <= right {
                left
            } else {
                right
            }) + clamp_unit(if left <= right {
                right
            } else {
                left
            })) / 2,
            final(self).radius == (clamp_unit(if left <= right {
                right
            } else {
                left
            }) - clamp_unit(if left <= right {
                left
            } else {
                right
            })) / 2,
            final(self).translation == old(self).translation,
            final(self).scaling == old(self).scaling,
            final(self).clamped(),
    {
        let lo_raw = if left <= right {
            left
        } else {
            right
        };
        let hi_raw = if left <= right {
            right
        } else {
            left
        };
        let lo = if lo_raw > UNIT {
            UNIT
        } else {
            lo_raw
        };
        let hi = if hi_raw > UNIT {
            UNIT
        } else {
            hi_raw
        };
        self.center = (lo + hi) / 2;
        self.radius = (hi - lo) / 2;
    }

    /// Reset the window to cover the whole domain.
    pub fn reset_zoom(&mut self)
        ensures
            final(self).center == HALF_UNIT,
            final(self).radius == HALF_UNIT,
            final(self).translation == old(self).translation,
            final(self).scaling == old(self).scaling,
            final(self).clamped(),
    {
        self.center = HALF_UNIT;
        self.radius = HALF_UNIT;
    }

    /// Reset the transient pan and zoom to identity, as a completed reload
    /// does.
    pub fn reset_transient(&mut self)
        ensures
            final(self).center == old(self).center,
            final(self).radius == old(self).radius,
            final(self).translation == 0,
            final(self).scaling == FACTOR_ONE,
    {
        self.translation = 0;
        self.scaling = FACTOR_ONE;
    }
}

impl Default for ViewWindow {
    /// The initial view covers the whole domain; the transient scale starts at
    /// zero and first becomes the identity when a reload completes.
    fn default() -> (v: ViewWindow)
        ensures
            v.center == HALF_UNIT,
            v.radius == HALF_UNIT,
            v.translation == 0,
            v.scaling == 0,
            v.clamped(),
    {
        ViewWindow { center: HALF_UNIT, radius: HALF_UNIT, translation: 0, scaling: 0 }
    }
}

/// Clamping the window to the view limits is idempotent: a second application
/// yields the same center and radius as the first.
pub proof fn lemma_enforce_idempotent(v: ViewWindow)
    ensures
        enforce_spec(enforce_spec(v)) == enforce_spec(v),
{
}

/// Clamping always lands the window inside the domain: `0 <= center - radius`,
/// `center + radius <= UNIT`, and `radius <= HALF_UNIT`.
pub proof fn lemma_enforce_bounds(v: ViewWindow)
    ensures
        enforce_spec(v).clamped(),
{
}

/// Zooming by the identity factor leaves the radius unchanged whenever the
/// radius already lies inside the clamp range `[MIN_RADIUS, HALF_UNIT]`.
pub proof fn lemma_zoom_identity(r: u64)
    requires
        MIN_RADIUS <= r <= HALF_UNIT,
    ensures
        zoomed_radius(r, FACTOR_ONE) == r,
{
    assert((r * FACTOR_ONE) / (FACTOR_ONE as int) == r) by (nonlinear_arith);
}

} // verus!
