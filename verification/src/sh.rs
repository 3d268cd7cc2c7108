//! Spherical-harmonic degree and coefficient-count arithmetic.
//!
//! Each splat carries, per color channel, one block of spherical-harmonic
//! coefficients. A degree `d` in `0..=4` uses `(d + 1)^2` coefficients per
//! channel, and the pipeline infers the degree back from the block size,
//! rejecting any size that no supported degree produces.

use vstd::prelude::*;

verus! {

/// Coefficients per channel for a spherical-harmonic degree: `(degree + 1)^2`.
pub open spec fn coeff_count(degree: int) -> int {
    (degree + 1) * (degree + 1)
}

/// The coefficient counts that map back to a supported degree (0 through 4).
pub open spec fn valid_coeff_count(c: int) -> bool {
    c == 1 || c == 4 || c == 9 || c == 16 || c == 25
}

/// Degree inferred from a per-channel coefficient count, if any.
pub open spec fn spec_sh_degree(c: int) -> Option<int> {
    if c == 1 {
        Some(0)
    } else if c == 4 {
        Some(1)
    } else if c == 9 {
        Some(2)
    } else if c == 16 {
        Some(3)
    } else if c == 25 {
        Some(4)
    } else {
        None
    }
}

/// Number of spherical-harmonic coefficients per channel for `degree`.
pub fn sh_coeffs_for_degree(degree: u32) -> (r: u32)
    requires
        degree <= 4,
    ensures
        r == coeff_count(degree as int),
{
    proof {
        assert((degree + 1) * (degree + 1) <= 25) by (nonlinear_arith)
            requires
                degree <= 4,
        ;
    }
    (degree + 1) * (degree + 1)
}

/// Degree whose coefficient count is exactly `coeffs_per_channel`.
///
/// Callers must already know the count is one of the supported block sizes;
/// use [`sh_degree_for_coeff_count`] to test an arbitrary count first.
pub fn sh_degree_from_coeffs(coeffs_per_channel: u32) -> (r: u32)
    requires
        valid_coeff_count(coeffs_per_channel as int),
    ensures
        r <= 4,
        coeff_count(r as int) == coeffs_per_channel,
        Some(r as int) == spec_sh_degree(coeffs_per_channel as int),
{
    proof {
        assert(coeff_count(0) == 1);
        assert(coeff_count(1) == 4);
        assert(coeff_count(2) == 9);
        assert(coeff_count(3) == 16);
        assert(coeff_count(4) == 25);
    }
    match coeffs_per_channel {
        1 => 0,
        4 => 1,
        9 => 2,
        16 => 3,
        _ => 4,
    }
}

/// Total inference over arbitrary counts: `Some(degree)` exactly when the
/// count is a supported block size, `None` otherwise.
pub fn sh_degree_for_coeff_count(coeffs_per_channel: u32) -> (r: Option<u32>)
    ensures
        r is Some <==> valid_coeff_count(coeffs_per_channel as int),
        r matches Some(d) ==> Some(d as int) == spec_sh_degree(coeffs_per_channel as int),
{
    match coeffs_per_channel {
        1 => Some(0),
        4 => Some(1),
        9 => Some(2),
        16 => Some(3),
        25 => Some(4),
        _ => None,
    }
}

/// Law: degree inference is a strict inverse of the coefficient-count
/// function on degrees 0 through 4, and every count outside that function's
/// image is rejected.
pub proof fn lemma_sh_degree_coeff_inverse(degree: int, c: int)
    ensures
        0 <= degree <= 4 ==> spec_sh_degree(coeff_count(degree)) == Some(degree),
        spec_sh_degree(c) matches Some(d) ==> 0 <= d <= 4 && coeff_count(d) == c,
        spec_sh_degree(c) is None ==> forall|d: int| 0 <= d <= 4 ==> coeff_count(d) != c,
{
    assert(coeff_count(0) == 1);
    assert(coeff_count(1) == 4);
    assert(coeff_count(2) == 9);
    assert(coeff_count(3) == 16);
    assert(coeff_count(4) == 25);
    if 0 <= degree <= 4 {
        if degree == 0 {
        } else if degree == 1 {
        } else if degree == 2 {
        } else if degree == 3 {
        } else {
            assert(degree == 4);
        }
    }
    if spec_sh_degree(c) is None {
        assert forall|d: int| 0 <= d <= 4 implies coeff_count(d) != c by {
            if d == 0 {
            } else if d == 1 {
            } else if d == 2 {
            } else if d == 3 {
            } else {
                assert(d == 4);
            }
        }
    }
}

} // verus!
