//! Audio/video metadata a core reports: pixel format, geometry and
//! timing.
//!
//! The aspect ratio and the two timing rates are IEEE-754 values in the
//! plugin ABI; the library stores their raw bit patterns, so that the
//! change-detection rule below compares exactly what the core sent.
//! Geometry is replaced only when the aspect ratio or a base dimension
//! really differs; the maximum dimensions refresh on every push.

use vstd::prelude::*;

use crate::graphic_api::GraphicApi;
use crate::retro_sys::retro_pixel_format;

verus! {

/// Video timing: frames per second and audio sampling rate, both kept
/// as the bit patterns of the 64-bit IEEE-754 values the core reported.
#[derive(Clone, Copy, Debug, PartialEq, Eq, Structural)]
pub struct Timing {
    pub fps_bits: u64,
    pub sample_rate_bits: u64,
}

/// Video geometry; `aspect_ratio_bits` is the bit pattern of the 32-bit
/// IEEE-754 aspect ratio the core reported.
#[derive(Clone, Copy, Debug, PartialEq, Eq, Structural)]
pub struct Geometry {
    pub base_width: u32,
    pub base_height: u32,
    pub max_width: u32,
    pub max_height: u32,
    pub aspect_ratio_bits: u32,
}

/// One geometry push from the core, mirroring the ABI's geometry record.
#[derive(Clone, Copy, Debug, PartialEq, Eq, Structural)]
pub struct GeometryUpdate {
    pub base_width: u32,
    pub base_height: u32,
    pub max_width: u32,
    pub max_height: u32,
    pub aspect_ratio_bits: u32,
}

/// One timing push from the core.
#[derive(Clone, Copy, Debug, PartialEq, Eq, Structural)]
pub struct TimingUpdate {
    pub fps_bits: u64,
    pub sample_rate_bits: u64,
}

/// The full audio/video record the core hands back after a game loads.
#[derive(Clone, Copy, Debug, PartialEq, Eq, Structural)]
pub struct AvInfoReport {
    pub geometry: GeometryUpdate,
    pub timing: TimingUpdate,
}

/// Video state of one core instance.
#[derive(Clone, Debug)]
pub struct Video {
    pub can_dupe: bool,
    pub pixel_format: retro_pixel_format,
    pub geometry: Geometry,
    pub graphic_api: GraphicApi,
}

/// Audio/video state of one core instance.
#[derive(Clone, Debug)]
pub struct AvInfo {
    pub video: Video,
    pub timing: Timing,
}

/// Whether a pushed geometry really differs from the stored one in
/// aspect ratio or base dimensions — the only fields whose change
/// justifies replacing the stored geometry.
pub open spec fn spec_geometry_differs(g: Geometry, u: GeometryUpdate) -> bool {
    u.aspect_ratio_bits != g.aspect_ratio_bits || u.base_height != g.base_height || u.base_width
        != g.base_width
}

/// The stored geometry after one push: base dimensions and aspect ratio
/// are replaced only on a real difference, the maximum dimensions
/// refresh on every push.
pub open spec fn spec_geometry_after(g: Geometry, u: GeometryUpdate) -> Geometry {
    if spec_geometry_differs(g, u) {
        Geometry {
            base_width: u.base_width,
            base_height: u.base_height,
            max_width: u.max_width,
            max_height: u.max_height,
            aspect_ratio_bits: u.aspect_ratio_bits,
        }
    } else {
        Geometry { max_width: u.max_width, max_height: u.max_height, ..g }
    }
}

impl AvInfo {
    /// Fresh audio/video state: unknown pixel format, zeroed geometry
    /// and timing, the given hardware-render configuration.
    pub fn new(graphic_api: GraphicApi) -> (r: AvInfo)
        ensures
            r.video.can_dupe == false,
            r.video.pixel_format == retro_pixel_format::RETRO_PIXEL_FORMAT_UNKNOWN,
            r.video.geometry == (Geometry {
                base_width: 0,
                base_height: 0,
                max_width: 0,
                max_height: 0,
                aspect_ratio_bits: 0,
            }),
            r.video.graphic_api == graphic_api,
            r.timing == (Timing { fps_bits: 0, sample_rate_bits: 0 }),
    {
        AvInfo {
            video: Video {
                can_dupe: false,
                pixel_format: retro_pixel_format::RETRO_PIXEL_FORMAT_UNKNOWN,
                geometry: Geometry {
                    base_width: 0,
                    base_height: 0,
                    max_width: 0,
                    max_height: 0,
                    aspect_ratio_bits: 0,
                },
                graphic_api,
            },
            timing: Timing { fps_bits: 0, sample_rate_bits: 0 },
        }
    }

    /// Applies one geometry push under the change-detection rule; a
    /// missing record (a null pointer at the boundary) changes nothing.
    pub fn try_set_new_geometry(&mut self, raw_geometry: &Option<GeometryUpdate>)
        ensures
            final(self).video.geometry == (match *raw_geometry {
                Some(u) => spec_geometry_after(old(self).video.geometry, u),
                None => old(self).video.geometry,
            }),
            final(self).video.can_dupe == old(self).video.can_dupe,
            final(self).video.pixel_format == old(self).video.pixel_format,
            final(self).video.graphic_api == old(self).video.graphic_api,
            final(self).timing == old(self).timing,
    {
        match raw_geometry {
            None => {},
            Some(u) => {
                let g = &self.video.geometry;
                if u.aspect_ratio_bits != g.aspect_ratio_bits || u.base_height != g.base_height
                    || u.base_width != g.base_width {
                    self.video.geometry.aspect_ratio_bits = u.aspect_ratio_bits;
                    self.video.geometry.base_height = u.base_height;
                    self.video.geometry.base_width = u.base_width;
                }
                self.video.geometry.max_height = u.max_height;
                self.video.geometry.max_width = u.max_width;
            },
        }
    }

    fn set_timing(&mut self, raw_timing: &TimingUpdate)
        ensures
            final(self).timing == (Timing {
                fps_bits: raw_timing.fps_bits,
                sample_rate_bits: raw_timing.sample_rate_bits,
            }),
            final(self).video == old(self).video,
    {
        self.timing.fps_bits = raw_timing.fps_bits;
        self.timing.sample_rate_bits = raw_timing.sample_rate_bits;
    }

    /// Refreshes geometry and timing from the record the core reported
    /// after a game load.
    pub fn update_av_info(&mut self, report: &AvInfoReport)
        ensures
            final(self).video.geometry == spec_geometry_after(
                old(self).video.geometry,
                report.geometry,
            ),
            final(self).timing == (Timing {
                fps_bits: report.timing.fps_bits,
                sample_rate_bits: report.timing.sample_rate_bits,
            }),
            final(self).video.can_dupe == old(self).video.can_dupe,
            final(self).video.pixel_format == old(self).video.pixel_format,
            final(self).video.graphic_api == old(self).video.graphic_api,
    {
        let g = Some(report.geometry);
        self.try_set_new_geometry(&g);
        self.set_timing(&report.timing);
    }
}

/// Pushing the same geometry twice changes nothing after the first
/// application: the second push finds no difference, and the maximum
/// dimensions it refreshes are the values already stored.
pub proof fn lemma_geometry_update_idempotent(g: Geometry, u: GeometryUpdate)
    ensures
        spec_geometry_after(spec_geometry_after(g, u), u) == spec_geometry_after(g, u),
{
}

} // verus!
