use retro_ab::av_info::{AvInfo, GeometryUpdate};
use retro_ab::graphic_api::GraphicApi;
use retro_ab::retro_perf::{get_cpu_features, CpuFeatures};
use retro_ab::retro_sys::{
    retro_hw_context_type, RETRO_SIMD_AVX, RETRO_SIMD_MMX, RETRO_SIMD_SSE, RETRO_SIMD_SSE2,
};
use retro_ab::system::{SysInfo, System};
use retro_ab::tools::{contains_str, usize_to_string};

#[test]
fn test_get_sys_info() {
    let sys = System::new(SysInfo {
        library_name: "Snes9x".to_string(),
        library_version: "1.62.3 46f8a6b".to_string(),
        valid_extensions: "smc|sfc|swc|fig|bs|st".to_string(),
        need_full_path: false,
        block_extract: false,
    });

    assert_eq!(sys.info.library_name, "Snes9x".to_owned());

    assert_eq!(sys.info.library_version, "1.62.3 46f8a6b".to_owned());

    assert_eq!(sys.info.valid_extensions, "smc|sfc|swc|fig|bs|st".to_owned());

    assert_eq!(sys.info.block_extract, false);

    assert_eq!(sys.info.need_full_path, false);
}

#[test]
fn geometry_is_idempotent_but_max_refreshes() {
    let mut av = AvInfo::new(GraphicApi::with(
        retro_hw_context_type::RETRO_HW_CONTEXT_NONE,
    ));
    let push = GeometryUpdate {
        base_width: 256,
        base_height: 224,
        max_width: 512,
        max_height: 448,
        aspect_ratio_bits: 0x3FAAAAAB,
    };

    av.try_set_new_geometry(&Some(push));
    let after_first = av.video.geometry;

    av.try_set_new_geometry(&Some(push));
    assert_eq!(av.video.geometry, after_first);

    // Same base and aspect, larger maximum: only the maximum moves.
    let mut wider = push;
    wider.max_width = 1024;
    wider.max_height = 896;
    av.try_set_new_geometry(&Some(wider));
    assert_eq!(av.video.geometry.base_width, 256);
    assert_eq!(av.video.geometry.aspect_ratio_bits, 0x3FAAAAAB);
    assert_eq!(av.video.geometry.max_width, 1024);
    assert_eq!(av.video.geometry.max_height, 896);

    // A changed base dimension replaces the whole record.
    let mut taller = wider;
    taller.base_height = 239;
    av.try_set_new_geometry(&Some(taller));
    assert_eq!(av.video.geometry.base_height, 239);

    av.try_set_new_geometry(&None);
    assert_eq!(av.video.geometry.base_height, 239);
}

#[test]
fn cpu_feature_bitmask_is_exact() {
    let features = CpuFeatures {
        has_avx: true,
        has_avx2: false,
        has_mmx: true,
        has_sse: true,
        has_sse2: true,
        has_sse3: false,
        has_sse41: false,
        has_sse42: false,
    };
    assert_eq!(
        get_cpu_features(&features),
        RETRO_SIMD_AVX | RETRO_SIMD_MMX | RETRO_SIMD_SSE | RETRO_SIMD_SSE2
    );
    assert_eq!(
        get_cpu_features(&CpuFeatures {
            has_avx: false,
            has_avx2: false,
            has_mmx: false,
            has_sse: false,
            has_sse2: false,
            has_sse3: false,
            has_sse41: false,
            has_sse42: false,
        }),
        0
    );
}

#[test]
fn extension_check_is_a_substring_test() {
    assert!(contains_str("smc|sfc|swc", "sfc"));
    assert!(!contains_str("smc|sfc|swc", "zzz"));
    assert!(contains_str("anything", ""));
}

#[test]
fn decimal_rendering_matches_std() {
    for n in [0usize, 1, 9, 10, 42, 100, 65535] {
        assert_eq!(usize_to_string(n), n.to_string());
    }
}

#[test]
fn paths_equality_goes_by_system_and_assets() {
    let a = retro_ab::paths::Paths::new(
        "sys".to_string(),
        "save-a".to_string(),
        "opt-a".to_string(),
        "assets".to_string(),
    )
    .unwrap();
    let b = retro_ab::paths::Paths::new(
        "sys".to_string(),
        "save-b".to_string(),
        "opt-b".to_string(),
        "assets".to_string(),
    )
    .unwrap();
    assert!(a == b);

    let c = retro_ab::paths::Paths::new(
        "other".to_string(),
        "save-a".to_string(),
        "opt-a".to_string(),
        "assets".to_string(),
    )
    .unwrap();
    assert!(a != c);
}

#[test]
fn fixed_test_roots() {
    let paths = retro_ab::test_tools::get_paths().unwrap();
    assert_eq!(paths.system, "retro_out_test/system");
    assert_eq!(paths.save, "retro_out_test/save");
    assert_eq!(paths.opt, "retro_out_test/opt");
    assert_eq!(paths.assets, "retro_out_test/assents");
}
