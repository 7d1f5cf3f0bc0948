use retro_ab::av_info::GeometryUpdate;
use retro_ab::controller_info::{RawControllerDescription, RawControllerInfo};
use retro_ab::environment::{core_environment, EnvCommand, EnvOutcome, EnvReply};
use retro_ab::graphic_api::GraphicApi;
use retro_ab::option_manager::{RawOptionDef, RawOptionsV2, RawOptionsV2Intl, RawValue};
use retro_ab::paths::Paths;
use retro_ab::retro_core::CoreWrapper;
use retro_ab::retro_sys::{
    retro_hw_context_type, retro_language, retro_pixel_format, RETRO_ENVIRONMENT_GET_LANGUAGE,
    RETRO_ENVIRONMENT_SET_PIXEL_FORMAT,
};
use retro_ab::system::{RawMemoryInfo, RawSubsystemInfo, RawSubsystemRomInfo};

fn test_core() -> CoreWrapper {
    CoreWrapper::new(
        0,
        retro_ab::system::SysInfo {
            library_name: "Snes9x".to_string(),
            library_version: "1.62.3".to_string(),
            valid_extensions: "smc|sfc".to_string(),
            need_full_path: false,
            block_extract: false,
        },
        Paths::new(
            "out/system".to_string(),
            "out/save".to_string(),
            "out/opt".to_string(),
            "out/assets".to_string(),
        )
        .unwrap(),
        GraphicApi::with(retro_hw_context_type::RETRO_HW_CONTEXT_NONE),
    )
}

fn outcome(core: &mut CoreWrapper, cmd: EnvCommand) -> EnvOutcome {
    core_environment(core, cmd).expect("the command carries a readable payload")
}

#[test]
fn unknown_command_is_unhandled_and_changes_nothing() {
    let mut core = test_core();
    let before_lang = core.language;
    let before_format = core.av_info.video.pixel_format;

    let out = outcome(&mut core, EnvCommand::Unknown(9999));

    assert!(!out.handled);
    assert_eq!(core.language, before_lang);
    assert_eq!(core.av_info.video.pixel_format, before_format);
    assert!(!core.support_no_game);
    assert!(core.system.subsystem.is_empty());
}

#[test]
fn input_bitmasks() {
    let mut core = test_core();
    let result = outcome(&mut core, EnvCommand::GetInputBitmasks);

    assert_eq!(result.handled, true);
}

#[test]
fn pixel_format() {
    let mut core = test_core();
    let pixel = retro_pixel_format::RETRO_PIXEL_FORMAT_RGB565;

    let result = outcome(&mut core, EnvCommand::SetPixelFormat(pixel));

    assert_eq!(
        result.handled, true,
        "returno inesperado: valor desejado -> true; valor recebido -> {:?}",
        result.handled,
    );
    assert_eq!(core.av_info.video.pixel_format, pixel);
}

#[test]
fn language_query_stores_english() {
    let mut core = test_core();
    assert_eq!(
        core.language,
        retro_language::RETRO_LANGUAGE_PORTUGUESE_BRAZIL
    );

    let out = outcome(&mut core, EnvCommand::GetLanguage);
    assert!(out.handled);
    assert!(matches!(
        out.reply,
        EnvReply::Language(retro_language::RETRO_LANGUAGE_ENGLISH)
    ));
    assert_eq!(core.language, retro_language::RETRO_LANGUAGE_ENGLISH);
}

#[test]
fn options_version_is_always_two() {
    let mut core = test_core();
    let out = outcome(&mut core, EnvCommand::GetCoreOptionsVersion);
    assert!(out.handled);
    assert!(matches!(out.reply, EnvReply::Number(2)));
}

#[test]
fn directories_are_answered_from_the_roots() {
    let mut core = test_core();
    let out = outcome(&mut core, EnvCommand::GetSystemDirectory);
    assert!(matches!(out.reply, EnvReply::Directory(d) if d == "out/system"));
    let out = outcome(&mut core, EnvCommand::GetSaveDirectory);
    assert!(matches!(out.reply, EnvReply::Directory(d) if d == "out/save"));
    let out = outcome(&mut core, EnvCommand::GetCoreAssetsDirectory);
    assert!(matches!(out.reply, EnvReply::Directory(d) if d == "out/assets"));
}

#[test]
fn geometry_push_updates_only_on_real_change() {
    let mut core = test_core();
    let update = GeometryUpdate {
        base_width: 320,
        base_height: 240,
        max_width: 640,
        max_height: 480,
        aspect_ratio_bits: (4.0f32 / 3.0f32).to_bits(),
    };

    let out = outcome(&mut core, EnvCommand::SetGeometry(Some(update)));
    assert!(out.handled);
    assert_eq!(core.av_info.video.geometry.base_width, 320);
    assert_eq!(core.av_info.video.geometry.max_width, 640);

    // The same geometry again leaves everything as it is.
    let before = core.av_info.video.geometry;
    let out = outcome(&mut core, EnvCommand::SetGeometry(Some(update)));
    assert!(out.handled);
    assert_eq!(core.av_info.video.geometry, before);

    // Only the maximum dimensions refresh when base and aspect stand.
    let mut grown = update;
    grown.max_width = 1280;
    let _ = outcome(&mut core, EnvCommand::SetGeometry(Some(grown)));
    assert_eq!(core.av_info.video.geometry.base_width, 320);
    assert_eq!(core.av_info.video.geometry.max_width, 1280);

    // A null payload is refused.
    let out = outcome(&mut core, EnvCommand::SetGeometry(None));
    assert!(!out.handled);
}

#[test]
fn support_no_game_flag_is_stored() {
    let mut core = test_core();
    let out = outcome(&mut core, EnvCommand::SetSupportNoGame(true));
    assert!(out.handled);
    assert!(core.support_no_game);
}

fn options_push() -> RawOptionsV2Intl {
    RawOptionsV2Intl {
        us: Some(RawOptionsV2 {
            definitions: vec![
                RawOptionDef {
                    key: Some("snes9x_region".to_string()),
                    default_value: "auto".to_string(),
                    info: "".to_string(),
                    desc: "Console region".to_string(),
                    desc_categorized: "".to_string(),
                    category_key: "".to_string(),
                    info_categorized: "".to_string(),
                    values: vec![
                        RawValue {
                            value: "auto".to_string(),
                            label: Some("Auto".to_string()),
                        },
                        RawValue {
                            value: "pal".to_string(),
                            label: Some("PAL".to_string()),
                        },
                        RawValue {
                            value: "ntsc".to_string(),
                            label: None,
                        },
                    ],
                },
                RawOptionDef {
                    key: None,
                    default_value: "".to_string(),
                    info: "".to_string(),
                    desc: "ignored past the sentinel".to_string(),
                    desc_categorized: "".to_string(),
                    category_key: "".to_string(),
                    info_categorized: "".to_string(),
                    values: vec![],
                },
            ],
            categories: vec![],
        }),
        local: None,
    }
}

#[test]
fn options_push_converts_and_seeds_the_file() {
    let mut core = test_core();
    let out = outcome(
        &mut core,
        EnvCommand::SetCoreOptionsV2Intl {
            options: options_push(),
            pref_file: None,
        },
    );
    assert!(out.handled);

    // The sentinel stops the scan; the unlabelled value entry is skipped.
    assert_eq!(core.options.opts.len(), 1);
    assert_eq!(core.options.opts[0].key, "snes9x_region");
    assert_eq!(core.options.opts[0].selected, "auto");
    assert_eq!(core.options.opts[0].values.len(), 2);

    // No file existed: the default selections come back to be written.
    match out.reply {
        EnvReply::OptionsFile(Some(content)) => {
            assert_eq!(content, "snes9x_region=auto\n");
        }
        other => panic!("expected the file content, got {:?}", other),
    }
}

#[test]
fn options_push_applies_a_persisted_file() {
    let mut core = test_core();
    let out = outcome(
        &mut core,
        EnvCommand::SetCoreOptionsV2Intl {
            options: options_push(),
            pref_file: Some("snes9x_region=pal\n".to_string()),
        },
    );
    assert!(out.handled);
    assert!(matches!(out.reply, EnvReply::OptionsFile(None)));
    assert_eq!(core.options.opts[0].selected, "pal");
}

#[test]
fn variable_fetch_resolves_and_clears_the_flag() {
    let mut core = test_core();
    let _ = outcome(
        &mut core,
        EnvCommand::SetCoreOptionsV2Intl {
            options: options_push(),
            pref_file: None,
        },
    );

    assert!(core.options.updated);
    let out = outcome(&mut core, EnvCommand::GetVariableUpdate);
    assert!(matches!(out.reply, EnvReply::Flag(true)));

    let out = outcome(
        &mut core,
        EnvCommand::GetVariable(Some("snes9x_region".to_string())),
    );
    assert!(out.handled);
    assert!(matches!(out.reply, EnvReply::VariableValue(Some(v)) if v == "auto"));
    assert!(!core.options.updated);

    let out = outcome(&mut core, EnvCommand::GetVariable(Some("missing".to_string())));
    assert!(!out.handled);
    assert!(matches!(out.reply, EnvReply::VariableValue(None)));

    let out = outcome(&mut core, EnvCommand::GetVariable(None));
    assert!(out.handled);
}

#[test]
fn visibility_toggle_reaches_the_right_option() {
    let mut core = test_core();
    let _ = outcome(
        &mut core,
        EnvCommand::SetCoreOptionsV2Intl {
            options: options_push(),
            pref_file: None,
        },
    );
    assert!(core.options.opts[0].visibility);

    let out = outcome(
        &mut core,
        EnvCommand::SetCoreOptionsDisplay {
            key: "snes9x_region".to_string(),
            visible: false,
        },
    );
    assert!(out.handled);
    assert!(!core.options.opts[0].visibility);
}

#[test]
fn subsystem_push_stops_at_the_sentinel() {
    let mut core = test_core();
    let raw = vec![
        RawSubsystemInfo {
            id: 1,
            desc: "Super Game Boy".to_string(),
            ident: Some("sgb".to_string()),
            roms: vec![RawSubsystemRomInfo {
                desc: "GameBoy ROM".to_string(),
                valid_extensions: "gb|gbc".to_string(),
                need_full_path: false,
                block_extract: false,
                required: true,
                memory: Some(RawMemoryInfo {
                    extension: "srm".to_string(),
                    type_: 0x10,
                }),
                num_memory: 1,
            }],
            num_roms: 1,
        },
        RawSubsystemInfo {
            id: 9,
            desc: "past the sentinel".to_string(),
            ident: None,
            roms: vec![],
            num_roms: 0,
        },
    ];

    let out = outcome(&mut core, EnvCommand::SetSubsystemInfo(raw));
    assert!(out.handled);
    assert_eq!(core.system.subsystem.len(), 1);
    assert_eq!(core.system.subsystem[0].ident, "sgb");
    assert_eq!(core.system.subsystem[0].roms.len(), 1);
    assert_eq!(core.system.subsystem[0].roms[0].memory.extension, "srm");
}

#[test]
fn unreadable_subsystem_shape_is_fatal_and_changes_nothing() {
    let mut core = test_core();
    let raw = vec![RawSubsystemInfo {
        id: 1,
        desc: "bad".to_string(),
        ident: Some("bad".to_string()),
        roms: vec![],
        num_roms: 3,
    }];

    let r = core_environment(&mut core, EnvCommand::SetSubsystemInfo(raw));
    assert!(r.is_err());
    assert!(core.system.subsystem.is_empty());
}

#[test]
fn controller_info_replaces_the_port_list() {
    let mut core = test_core();
    let raw = vec![
        RawControllerInfo {
            types: vec![
                RawControllerDescription {
                    desc: Some("Gamepad".to_string()),
                    id: 1,
                },
                RawControllerDescription {
                    desc: None,
                    id: 2,
                },
                RawControllerDescription {
                    desc: Some("Mouse".to_string()),
                    id: 3,
                },
            ],
            num_types: 2,
        },
        RawControllerInfo {
            types: vec![],
            num_types: 0,
        },
    ];

    let out = outcome(&mut core, EnvCommand::SetControllerInfo(raw));
    assert!(out.handled);
    assert_eq!(core.system.ports.len(), 1);
    // Of the two declared entries only the described one is kept; the
    // third entry stands past the declared count.
    assert_eq!(core.system.ports[0].types.len(), 1);
    assert_eq!(core.system.ports[0].types[0].desc, "Gamepad");
    assert_eq!(core.system.ports[0].num_types, 2);
}

#[test]
fn hw_render_request_is_recorded_but_not_claimed() {
    let mut core = test_core();
    let out = outcome(
        &mut core,
        EnvCommand::SetHwRender(retro_ab::environment::HwRenderRequest {
            depth: true,
            stencil: false,
            bottom_left_origin: true,
            version_major: 3,
            version_minor: 3,
            cache_context: true,
            debug_context: false,
        }),
    );
    assert!(!out.handled);
    assert!(core.av_info.video.graphic_api.depth);
    assert_eq!(core.av_info.video.graphic_api.major, 3);

    let out = outcome(&mut core, EnvCommand::GetPreferredHwRender);
    assert!(!out.handled);
    assert!(matches!(
        out.reply,
        EnvReply::HwContextType(retro_hw_context_type::RETRO_HW_CONTEXT_NONE)
    ));
}

#[test]
fn audio_video_enable_reports_both_streams() {
    let mut core = test_core();
    let out = outcome(&mut core, EnvCommand::GetAudioVideoEnable);
    assert!(out.handled);
    assert!(matches!(out.reply, EnvReply::Number(3)));
}

#[test]
fn command_codes_match_the_published_header() {
    assert_eq!(RETRO_ENVIRONMENT_SET_PIXEL_FORMAT, 10);
    assert_eq!(RETRO_ENVIRONMENT_GET_LANGUAGE, 39);
    assert_eq!(retro_ab::retro_sys::RETRO_ENVIRONMENT_GET_CORE_OPTIONS_VERSION, 52);
    assert_eq!(
        retro_ab::retro_sys::RETRO_ENVIRONMENT_GET_INPUT_BITMASKS,
        51 | 0x10000
    );
}
