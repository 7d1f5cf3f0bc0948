//! Fixed numeric constants and enums of the plugin ABI.
//!
//! The numeric values mirror the published C header of the protocol; the
//! embedding application converts between these plain enums and the raw
//! C representation at the FFI boundary.

use vstd::prelude::*;

verus! {

/// Marks an environment command code as experimental in the C header.
pub const RETRO_ENVIRONMENT_EXPERIMENTAL: u32 = 0x10000;

pub const RETRO_ENVIRONMENT_SET_PERFORMANCE_LEVEL: u32 = 8;
pub const RETRO_ENVIRONMENT_GET_SYSTEM_DIRECTORY: u32 = 9;
pub const RETRO_ENVIRONMENT_SET_PIXEL_FORMAT: u32 = 10;
pub const RETRO_ENVIRONMENT_SET_INPUT_DESCRIPTORS: u32 = 11;
pub const RETRO_ENVIRONMENT_SET_DISK_CONTROL_INTERFACE: u32 = 13;
pub const RETRO_ENVIRONMENT_SET_HW_RENDER: u32 = 14;
pub const RETRO_ENVIRONMENT_GET_VARIABLE: u32 = 15;
pub const RETRO_ENVIRONMENT_SET_VARIABLES: u32 = 16;
pub const RETRO_ENVIRONMENT_GET_VARIABLE_UPDATE: u32 = 17;
pub const RETRO_ENVIRONMENT_SET_SUPPORT_NO_GAME: u32 = 18;
pub const RETRO_ENVIRONMENT_GET_RUMBLE_INTERFACE: u32 = 23;
pub const RETRO_ENVIRONMENT_GET_LOG_INTERFACE: u32 = 27;
pub const RETRO_ENVIRONMENT_GET_PERF_INTERFACE: u32 = 28;
pub const RETRO_ENVIRONMENT_GET_CORE_ASSETS_DIRECTORY: u32 = 30;
pub const RETRO_ENVIRONMENT_GET_SAVE_DIRECTORY: u32 = 31;
pub const RETRO_ENVIRONMENT_SET_SUBSYSTEM_INFO: u32 = 34;
pub const RETRO_ENVIRONMENT_SET_CONTROLLER_INFO: u32 = 35;
pub const RETRO_ENVIRONMENT_SET_GEOMETRY: u32 = 37;
pub const RETRO_ENVIRONMENT_GET_USERNAME: u32 = 38;
pub const RETRO_ENVIRONMENT_GET_LANGUAGE: u32 = 39;
pub const RETRO_ENVIRONMENT_SET_SUPPORT_ACHIEVEMENTS: u32 = 42 | 0x10000;
pub const RETRO_ENVIRONMENT_SET_SERIALIZATION_QUIRKS: u32 = 44;
pub const RETRO_ENVIRONMENT_GET_VFS_INTERFACE: u32 = 45 | 0x10000;
pub const RETRO_ENVIRONMENT_GET_LED_INTERFACE: u32 = 46 | 0x10000;
pub const RETRO_ENVIRONMENT_GET_AUDIO_VIDEO_ENABLE: u32 = 47 | 0x10000;
pub const RETRO_ENVIRONMENT_GET_INPUT_BITMASKS: u32 = 51 | 0x10000;
pub const RETRO_ENVIRONMENT_GET_CORE_OPTIONS_VERSION: u32 = 52;
pub const RETRO_ENVIRONMENT_SET_CORE_OPTIONS_DISPLAY: u32 = 55 | 0x10000;
pub const RETRO_ENVIRONMENT_GET_PREFERRED_HW_RENDER: u32 = 56;
pub const RETRO_ENVIRONMENT_GET_DISK_CONTROL_INTERFACE_VERSION: u32 = 57;
pub const RETRO_ENVIRONMENT_GET_MESSAGE_INTERFACE_VERSION: u32 = 59;
pub const RETRO_ENVIRONMENT_SET_CORE_OPTIONS_V2_INTL: u32 = 68;
pub const RETRO_ENVIRONMENT_SET_CORE_OPTIONS_UPDATE_DISPLAY_CALLBACK: u32 = 69 | 0x10000;
pub const RETRO_ENVIRONMENT_SET_VARIABLE: u32 = 70;

pub const RETRO_SIMD_SSE: u64 = 1;
pub const RETRO_SIMD_SSE2: u64 = 2;
pub const RETRO_SIMD_AVX: u64 = 16;
pub const RETRO_SIMD_SSE3: u64 = 64;
pub const RETRO_SIMD_MMX: u64 = 256;
pub const RETRO_SIMD_SSE4: u64 = 1024;
pub const RETRO_SIMD_SSE42: u64 = 2048;
pub const RETRO_SIMD_AVX2: u64 = 4096;

/// Languages a core may ask the frontend about.
#[allow(non_camel_case_types)]
#[derive(Clone, Copy, Debug, PartialEq, Eq, Structural)]
pub enum retro_language {
    RETRO_LANGUAGE_ENGLISH,
    RETRO_LANGUAGE_JAPANESE,
    RETRO_LANGUAGE_FRENCH,
    RETRO_LANGUAGE_SPANISH,
    RETRO_LANGUAGE_GERMAN,
    RETRO_LANGUAGE_ITALIAN,
    RETRO_LANGUAGE_DUTCH,
    RETRO_LANGUAGE_PORTUGUESE_BRAZIL,
    RETRO_LANGUAGE_PORTUGUESE_PORTUGAL,
    RETRO_LANGUAGE_RUSSIAN,
    RETRO_LANGUAGE_KOREAN,
    RETRO_LANGUAGE_CHINESE_TRADITIONAL,
    RETRO_LANGUAGE_CHINESE_SIMPLIFIED,
}

/// Framebuffer pixel layouts a core can declare.
#[allow(non_camel_case_types)]
#[derive(Clone, Copy, Debug, PartialEq, Eq, Structural)]
pub enum retro_pixel_format {
    RETRO_PIXEL_FORMAT_0RGB1555,
    RETRO_PIXEL_FORMAT_XRGB8888,
    RETRO_PIXEL_FORMAT_RGB565,
    RETRO_PIXEL_FORMAT_UNKNOWN,
}

/// Hardware render context kinds a core can request.
#[allow(non_camel_case_types)]
#[derive(Clone, Copy, Debug, PartialEq, Eq, Structural)]
pub enum retro_hw_context_type {
    RETRO_HW_CONTEXT_NONE,
    RETRO_HW_CONTEXT_OPENGL,
    RETRO_HW_CONTEXT_OPENGLES2,
    RETRO_HW_CONTEXT_OPENGL_CORE,
    RETRO_HW_CONTEXT_OPENGLES3,
    RETRO_HW_CONTEXT_OPENGLES_VERSION,
    RETRO_HW_CONTEXT_VULKAN,
    RETRO_HW_CONTEXT_D3D11,
    RETRO_HW_CONTEXT_D3D10,
    RETRO_HW_CONTEXT_D3D12,
    RETRO_HW_CONTEXT_D3D9,
}

} // verus!
