use retro_ab::av_info::{AvInfoReport, GeometryUpdate, TimingUpdate};
use retro_ab::erro_handle::RetroLogLevel;
use retro_ab::game_tools::RomTools;
use retro_ab::graphic_api::GraphicApi;
use retro_ab::paths::Paths;
use retro_ab::retro_core::{CoreWrapper, LifecycleState};
use retro_ab::retro_sys::retro_hw_context_type;
use retro_ab::system::SysInfo;

fn test_paths() -> Paths {
    Paths::new(
        "out/system".to_string(),
        "out/save".to_string(),
        "out/opt".to_string(),
        "out/assets".to_string(),
    )
    .expect("paths bundle")
}

fn snes_info() -> SysInfo {
    SysInfo {
        library_name: "Snes9x".to_string(),
        library_version: "1.62.3".to_string(),
        valid_extensions: "smc|sfc".to_string(),
        need_full_path: false,
        block_extract: false,
    }
}

fn loaded_core() -> CoreWrapper {
    CoreWrapper::new(
        7,
        snes_info(),
        test_paths(),
        GraphicApi::with(retro_hw_context_type::RETRO_HW_CONTEXT_NONE),
    )
}

fn report() -> AvInfoReport {
    AvInfoReport {
        geometry: GeometryUpdate {
            base_width: 256,
            base_height: 224,
            max_width: 512,
            max_height: 448,
            aspect_ratio_bits: (4.0f32 / 3.0f32).to_bits(),
        },
        timing: TimingUpdate {
            fps_bits: 60.0f64.to_bits(),
            sample_rate_bits: 32040.0f64.to_bits(),
        },
    }
}

#[test]
fn init_succeeds_only_from_loaded() {
    let mut core = loaded_core();
    assert!(core.init().is_ok());
    assert!(core.initialized);

    // A second init is already satisfied: a warning, nothing changes.
    let again = core.init();
    assert_eq!(again.unwrap_err().level, RetroLogLevel::RETRO_LOG_WARN);
    assert!(core.initialized);
}

#[test]
fn run_before_init_is_an_error() {
    let core = loaded_core();
    let e = core.run().unwrap_err();
    assert_eq!(e.level, RetroLogLevel::RETRO_LOG_ERROR);
    assert_eq!(e.message, "the core was not initialized");
}

#[test]
fn run_after_init_without_rom_is_a_warning() {
    let mut core = loaded_core();
    core.init().unwrap();
    let e = core.run().unwrap_err();
    assert_eq!(e.level, RetroLogLevel::RETRO_LOG_WARN);
    assert_eq!(e.message, "no rom is loaded at the moment");
}

#[test]
fn load_game_requires_initialized() {
    let mut core = loaded_core();
    let e = core.load_game("mario.smc").unwrap_err();
    assert_eq!(e.level, RetroLogLevel::RETRO_LOG_ERROR);
}

#[test]
fn load_game_rejects_unknown_extension() {
    let mut core = loaded_core();
    core.init().unwrap();

    let before_geometry = core.av_info.video.geometry;
    let e = core.load_game("rom.zzz").unwrap_err();
    assert_eq!(e.level, RetroLogLevel::RETRO_LOG_ERROR);

    // The state stays Initialized and the audio/video record is untouched.
    assert!(core.initialized);
    assert!(!core.game_loaded);
    assert_eq!(core.av_info.video.geometry, before_geometry);
    assert_eq!(core.av_info.timing.fps_bits, 0);
}

#[test]
fn full_load_and_run_cycle() {
    let mut core = loaded_core();
    core.init().unwrap();

    let plan = core.load_game("roms/mario.smc").expect("a valid smc rom");
    assert_eq!(plan.rom_path, "roms/mario.smc");
    assert!(!plan.need_full_path);

    let loaded = core.finish_load_game("roms/mario.smc", true, &report()).unwrap();
    assert!(loaded);
    assert!(core.game_loaded);
    assert_eq!(core.rom_name, "mario");
    assert_eq!(core.av_info.video.geometry.base_width, 256);
    assert_eq!(core.av_info.timing.fps_bits, 60.0f64.to_bits());

    assert!(core.run().is_ok());
    assert!(core.reset().is_ok());

    assert!(core.unload_game().is_ok());
    assert!(!core.game_loaded);
    let warn = core.unload_game().unwrap_err();
    assert_eq!(warn.level, RetroLogLevel::RETRO_LOG_WARN);
}

#[test]
fn connect_controller_needs_initialization() {
    let mut core = loaded_core();
    let e = core.connect_controller(0, 1).unwrap_err();
    assert_eq!(e.level, RetroLogLevel::RETRO_LOG_WARN);
    core.init().unwrap();
    assert!(core.connect_controller(0, 1).is_ok());
}

#[test]
fn save_state_plans_the_slot_file() {
    let mut core = loaded_core();
    core.init().unwrap();
    core.finish_load_game("roms/mario.smc", true, &report()).unwrap();

    let plan = core.save_state(1).expect("game is loaded");
    assert_eq!(plan.path, "out/save/mario/1.save");

    let plan = core.load_state(1).expect("game is loaded");
    assert_eq!(plan.path, "out/save/mario/1.save");
}

#[test]
fn save_state_needs_a_loaded_game() {
    let mut core = loaded_core();
    let e = core.save_state(1).unwrap_err();
    assert_eq!(e.level, RetroLogLevel::RETRO_LOG_WARN);
    core.init().unwrap();
    let e = core.load_state(1).unwrap_err();
    assert_eq!(e.level, RetroLogLevel::RETRO_LOG_WARN);
}

#[test]
fn state_buffer_must_match_reported_size() {
    assert!(RomTools::check_state_buffer(1024, 1024).is_ok());
    let e = RomTools::check_state_buffer(1023, 1024).unwrap_err();
    assert_eq!(e.level, RetroLogLevel::RETRO_LOG_ERROR);
}

#[test]
fn de_init_unloads_and_leaves_initialized() {
    let mut core = loaded_core();
    core.init().unwrap();
    core.finish_load_game("roms/mario.smc", true, &report()).unwrap();

    assert!(core.de_init().is_ok());
    assert!(!core.initialized);
    assert!(!core.game_loaded);

    // Without a loaded game the unload step warns; the warning is swallowed.
    let mut idle = loaded_core();
    idle.init().unwrap();
    assert!(idle.de_init().is_ok());
    assert!(!idle.initialized);
}

#[test]
fn lifecycle_state_names_the_stations() {
    let mut core = loaded_core();
    assert!(!core.initialized && !core.game_loaded);
    core.init().unwrap();
    core.finish_load_game("roms/mario.smc", true, &report()).unwrap();
    assert!(core.game_loaded);
    let _ = LifecycleState::Unloaded;
}

#[test]
fn rom_name_is_the_file_stem() {
    assert_eq!(RomTools::get_rom_name("dir/mario.smc").unwrap(), "mario");
    // Only the last dot cuts: earlier dots belong to the stem.
    assert_eq!(RomTools::get_rom_name("smc.smc").unwrap(), "smc");
    assert_eq!(RomTools::get_rom_name("a.b.c").unwrap(), "a.b");
    assert!(RomTools::get_rom_name("noextension").is_err());
}

#[test]
fn save_path_renders_the_slot_number() {
    assert_eq!(
        RomTools::get_save_path("root", "game", 10),
        "root/game/10.save"
    );
    assert_eq!(RomTools::get_save_path("r", "g", 0), "r/g/0.save");
}
