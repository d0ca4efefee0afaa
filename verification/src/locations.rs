//! Uniform binding: the fixed table of well-known uniform handles.
//!
//! The GPU API reports a location per uniform name, with a negative value
//! for a uniform the compiled program does not use.  Binding is best-effort:
//! an absent uniform becomes `None` in the table, and the renderer skips the
//! corresponding write each frame instead of failing.

use vstd::prelude::*;

verus! {

/// The raw per-name answers of the GPU API for one compiled program, in the
/// order resolution, time, delta-time, mouse, camera transform.  A negative
/// value means the program does not use that uniform.
#[derive(Debug, Clone, Copy, PartialEq, Eq, Structural)]
pub struct RawUniformLocations {
    pub resolution: i32,
    pub time: i32,
    pub time_delta: i32,
    pub mouse: i32,
    pub sb_camera_transform: i32,
}

/// The table the renderer consumes: a handle per well-known uniform, or
/// `None` where the program does not use it.
#[derive(Debug, Clone, Copy, PartialEq, Eq)]
pub struct ShaderLocations {
    pub resolution: Option<i32>,
    pub time: Option<i32>,
    pub time_delta: Option<i32>,
    pub mouse: Option<i32>,
    pub sb_camera_transform: Option<i32>,
}

/// A raw answer as a present-or-absent handle.
pub open spec fn sp_loc(v: i32) -> Option<i32> {
    if v < 0 {
        None
    } else {
        Some(v)
    }
}

/// The whole table from the raw answers.
pub open spec fn sp_locations(raw: RawUniformLocations) -> ShaderLocations {
    ShaderLocations {
        resolution: sp_loc(raw.resolution),
        time: sp_loc(raw.time),
        time_delta: sp_loc(raw.time_delta),
        mouse: sp_loc(raw.mouse),
        sb_camera_transform: sp_loc(raw.sb_camera_transform),
    }
}

fn loc_of(v: i32) -> (r: Option<i32>)
    ensures
        r == sp_loc(v),
{
    if v < 0 {
        None
    } else {
        Some(v)
    }
}

/// Builds the uniform table for one compiled program from the raw per-name
/// answers of the GPU API.
pub fn get_uniform_locations(raw: &RawUniformLocations) -> (r: ShaderLocations)
    ensures
        r == sp_locations(*raw),
{
    ShaderLocations {
        resolution: loc_of(raw.resolution),
        time: loc_of(raw.time),
        time_delta: loc_of(raw.time_delta),
        mouse: loc_of(raw.mouse),
        sb_camera_transform: loc_of(raw.sb_camera_transform),
    }
}

/// Uniform absence is non-fatal: a program that uses none of the well-known
/// uniforms still gets a full table, with every slot absent, so every
/// per-frame write is skipped rather than failed.
pub proof fn lemma_uniform_absence(raw: RawUniformLocations)
    requires
        raw.resolution < 0,
        raw.time < 0,
        raw.time_delta < 0,
        raw.mouse < 0,
        raw.sb_camera_transform < 0,
    ensures
        sp_locations(raw) == (ShaderLocations {
            resolution: None,
            time: None,
            time_delta: None,
            mouse: None,
            sb_camera_transform: None,
        }),
{
}

} // verus!
