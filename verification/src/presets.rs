//! Presets: how large a texture of each category may stay.

use vstd::prelude::*;
use crate::text::{chars_of, same_chars};

verus! {

/// The largest side, in pixels, for each category of texture.
#[derive(Debug, Clone, Copy)]
pub struct OptimizationPreset {
    pub name: &'static str,
    pub diffuse_max: u32,
    pub normal_max: u32,
    pub parallax_max: u32,
    pub material_max: u32,
}

/// The largest limit a preset can hold: the largest power of two that a
/// side can be given.
pub const MAX_LIMIT: u32 = 0x8000_0000;

/// The least power of two, from `power` on by doubling, that is no less
/// than `n`.
pub open spec fn power_at_least(n: nat, power: nat) -> nat
    decreases
        (if power < n {
            n - power
        } else {
            0
        }),
{
    if power >= n || power == 0 {
        power
    } else {
        power_at_least(n, power + power)
    }
}

/// The power of two nearest to `n`: the least one that is no less than `n`,
/// or half of it where that is strictly nearer or as near; 1 for 0.
pub open spec fn nearest_power(n: nat) -> nat {
    if n == 0 {
        1
    } else {
        let above = power_at_least(n, 1);
        if above - n < n - above / 2 {
            above
        } else {
            above / 2
        }
    }
}

/// `limit * small / large`, rounded to the nearest whole number, halves
/// upwards.
pub open spec fn scaled(limit: nat, small: nat, large: nat) -> nat {
    (2 * limit * small + large) / (2 * large)
}

/// The limit that a preset sets for a category, if it knows the category.
pub open spec fn limit_for(preset: OptimizationPreset, texture_type: Seq<char>) -> Option<u32> {
    if texture_type == "Diffuse"@ {
        Some(preset.diffuse_max)
    } else if texture_type == "Normal"@ {
        Some(preset.normal_max)
    } else if texture_type == "Parallax"@ {
        Some(preset.parallax_max)
    } else if texture_type == "Specular"@ || texture_type == "Emissive"@ || texture_type
        == "Emissive Mask"@ || texture_type == "Subsurface"@ || texture_type == "Environment"@
        || texture_type == "Multi-layer"@ {
        Some(preset.material_max)
    } else {
        None
    }
}

/// The size a texture is to be brought down to, if any: nothing for an
/// unknown category and for a texture within the limit; else the longer
/// side at the limit and the shorter one scaled with it and set to the
/// nearest power of two.
pub open spec fn target_of(limit: Option<u32>, width: u32, height: u32) -> Option<(u32, u32)> {
    match limit {
        None => None,
        Some(max) => if width <= max && height <= max {
            None
        } else if width > height {
            Some((max, nearest_power(scaled(max as nat, height as nat, width as nat)) as u32))
        } else if height > width {
            Some((nearest_power(scaled(max as nat, width as nat, height as nat)) as u32, max))
        } else {
            Some((max, max))
        },
    }
}

proof fn lemma_power_at_least(n: nat, power: nat)
    requires
        0 < power,
        power <= 2 * n,
        0 < n,
        power / 2 < n,
    ensures
        power_at_least(n, power) >= n,
        power_at_least(n, power) / 2 < n,
        power_at_least(n, power) >= power,
    decreases
        (if power < n {
            n - power
        } else {
            0
        }),
{
    if power < n {
        lemma_power_at_least(n, power + power);
    }
}

proof fn lemma_scaled_bound(limit: nat, small: nat, large: nat)
    requires
        small < large,
    ensures
        scaled(limit, small, large) <= limit,
{
    let num = 2 * limit * small + large;
    let den = 2 * large;
    assert(num < den * (limit + 1)) by (nonlinear_arith)
        requires
            num == 2 * limit * small + large,
            den == 2 * large,
            small < large,
    ;
    assert(num / den <= limit) by (nonlinear_arith)
        requires
            num < den * (limit + 1),
            den > 0,
            num >= 0,
    ;
}

impl OptimizationPreset {
    /// Large textures of a heavy setup, brought down to 2K.
    pub fn hq() -> (r: Self)
        ensures
            r.wf(),
            r.name@ == "High Quality"@,
            r.diffuse_max == 2048 && r.normal_max == 2048,
            r.parallax_max == 1024 && r.material_max == 1024,
    {
        OptimizationPreset {
            name: "High Quality",
            diffuse_max: 2048,
            normal_max: 2048,
            parallax_max: 1024,
            material_max: 1024,
        }
    }

    /// A balance of quality and memory.
    pub fn quality() -> (r: Self)
        ensures
            r.wf(),
            r.name@ == "Quality"@,
            r.diffuse_max == 2048 && r.normal_max == 1024,
            r.parallax_max == 1024 && r.material_max == 1024,
    {
        OptimizationPreset {
            name: "Quality",
            diffuse_max: 2048,
            normal_max: 1024,
            parallax_max: 1024,
            material_max: 1024,
        }
    }

    /// A good place to start.
    pub fn optimum() -> (r: Self)
        ensures
            r.wf(),
            r.name@ == "Optimum"@,
            r.diffuse_max == 2048 && r.normal_max == 1024,
            r.parallax_max == 512 && r.material_max == 512,
    {
        OptimizationPreset {
            name: "Optimum",
            diffuse_max: 2048,
            normal_max: 1024,
            parallax_max: 512,
            material_max: 512,
        }
    }

    /// Low memory use, less detail up close.
    pub fn performance() -> (r: Self)
        ensures
            r.wf(),
            r.name@ == "Performance"@,
            r.diffuse_max == 2048 && r.normal_max == 512,
            r.parallax_max == 512 && r.material_max == 512,
    {
        OptimizationPreset {
            name: "Performance",
            diffuse_max: 2048,
            normal_max: 512,
            parallax_max: 512,
            material_max: 512,
        }
    }

    /// All limits at 512.
    pub fn vanilla() -> (r: Self)
        ensures
            r.wf(),
            r.name@ == "Vanilla"@,
            r.diffuse_max == 512 && r.normal_max == 512,
            r.parallax_max == 512 && r.material_max == 512,
    {
        OptimizationPreset {
            name: "Vanilla",
            diffuse_max: 512,
            normal_max: 512,
            parallax_max: 512,
            material_max: 512,
        }
    }

    /// No limit is beyond [`MAX_LIMIT`].
    pub open spec fn wf(&self) -> bool {
        &&& self.diffuse_max <= MAX_LIMIT
        &&& self.normal_max <= MAX_LIMIT
        &&& self.parallax_max <= MAX_LIMIT
        &&& self.material_max <= MAX_LIMIT
    }

    /// Whether no limit is beyond [`MAX_LIMIT`], so that target sizes can
    /// be computed.
    pub fn within_limits(&self) -> (r: bool)
        ensures
            r == self.wf(),
    {
        self.diffuse_max <= MAX_LIMIT && self.normal_max <= MAX_LIMIT && self.parallax_max
            <= MAX_LIMIT && self.material_max <= MAX_LIMIT
    }

    /// The limit for a category, if the preset knows the category.
    pub fn max_resolution(&self, texture_type: &str) -> (r: Option<u32>)
        ensures
            r == limit_for(*self, texture_type@),
    {
        let t = chars_of(texture_type);
        if same_chars(&t, &chars_of("Diffuse")) {
            Some(self.diffuse_max)
        } else if same_chars(&t, &chars_of("Normal")) {
            Some(self.normal_max)
        } else if same_chars(&t, &chars_of("Parallax")) {
            Some(self.parallax_max)
        } else if same_chars(&t, &chars_of("Specular")) || same_chars(&t, &chars_of("Emissive"))
            || same_chars(&t, &chars_of("Emissive Mask")) || same_chars(
            &t,
            &chars_of("Subsurface"),
        ) || same_chars(&t, &chars_of("Environment")) || same_chars(
            &t,
            &chars_of("Multi-layer"),
        ) {
            Some(self.material_max)
        } else {
            None
        }
    }

    /// The size to bring a texture down to, or nothing where it is to be
    /// left as it is.
    ///
    /// A texture is brought down only where its longer side is beyond the
    /// limit of its category. The longer side then gets the limit, and the
    /// other side keeps the proportion as nearly as a power of two can: the
    /// exact quotient is rounded to a whole number and then to the nearest
    /// power of two.
    pub fn get_target_resolution(&self, texture_type: &str, current_width: u32, current_height: u32)
        -> (r: Option<(u32, u32)>)
        requires
            self.wf(),
        ensures
            r == target_of(limit_for(*self, texture_type@), current_width, current_height),
    {
        let max_res = match self.max_resolution(texture_type) {
            Some(max) => max,
            None => {
                return None;
            },
        };
        if current_width <= max_res && current_height <= max_res {
            return None;
        }
        if current_width > current_height {
            let new_height = Self::scale(max_res, current_height, current_width);
            Some((max_res, Self::round_to_power_of_2(new_height)))
        } else if current_height > current_width {
            let new_width = Self::scale(max_res, current_width, current_height);
            Some((Self::round_to_power_of_2(new_width), max_res))
        } else {
            Some((max_res, max_res))
        }
    }

    /// `limit * small / large`, rounded to the nearest whole number.
    fn scale(limit: u32, small: u32, large: u32) -> (r: u32)
        requires
            small < large,
        ensures
            r == scaled(limit as nat, small as nat, large as nat),
            r <= limit,
    {
        proof {
            lemma_scaled_bound(limit as nat, small as nat, large as nat);
            assert(2 * (limit as nat) * (small as nat) <= 2 * 0xffff_ffff * 0xffff_ffff)
                by (nonlinear_arith)
                requires
                    limit <= 0xffff_ffff,
                    small <= 0xffff_ffff,
            ;
        }
        let numerator: u128 = 2 * (limit as u128) * (small as u128) + (large as u128);
        let denominator: u128 = 2 * (large as u128);
        (numerator / denominator) as u32
    }

    /// The power of two nearest to `n`; the lower one where two are as
    /// near, and 1 for 0.
    pub fn round_to_power_of_2(n: u32) -> (r: u32)
        requires
            n <= MAX_LIMIT,
        ensures
            r == nearest_power(n as nat),
    {
        if n == 0 {
            return 1;
        }
        let mut power: u64 = 1;
        while power < n as u64
            invariant
                0 < n <= MAX_LIMIT,
                0 < power <= 2 * n,
                power / 2 < n,
                power_at_least(n as nat, 1) == power_at_least(n as nat, power as nat),
            decreases 2 * n - power,
        {
            power = power + power;
        }
        proof {
            lemma_power_at_least(n as nat, power as nat);
        }
        if power - (n as u64) < (n as u64) - power / 2 {
            power as u32
        } else {
            (power / 2) as u32
        }
    }
}

} // verus!
