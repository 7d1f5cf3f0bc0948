use retro_ab::option_manager::{
    OptionManager, OptionVersion, RawOptionDef, RawOptionsV2, RawOptionsV2Intl, RawValue,
    RawCategory,
};

fn def(key: &str, default: &str, values: &[&str]) -> RawOptionDef {
    RawOptionDef {
        key: Some(key.to_string()),
        default_value: default.to_string(),
        info: "".to_string(),
        desc: key.to_string(),
        desc_categorized: "".to_string(),
        category_key: "".to_string(),
        info_categorized: "".to_string(),
        values: values
            .iter()
            .map(|v| RawValue {
                value: v.to_string(),
                label: Some(v.to_string()),
            })
            .collect(),
    }
}

fn manager_with(defs: Vec<RawOptionDef>) -> OptionManager {
    let mut manager = OptionManager::new("opt", "Snes9x".to_string());
    manager
        .convert_option_v2_intl(&RawOptionsV2Intl {
            us: Some(RawOptionsV2 {
                definitions: defs,
                categories: vec![],
            }),
            local: None,
        })
        .expect("a definition set is present");
    manager
}

#[test]
fn file_path_is_derived_from_the_library_name() {
    let manager = OptionManager::new("opt", "Snes9x".to_string());
    assert_eq!(manager.file_path, "opt/Snes9x.opt");
    assert_eq!(manager.version, OptionVersion::V2);
    assert!(manager.updated);
}

#[test]
fn option_round_trip_reproduces_selections() {
    let mut manager = manager_with(vec![
        def("region", "auto", &["auto", "pal", "ntsc"]),
        def("filter", "off", &["off", "on"]),
    ]);
    manager.update_opt("region", "pal");
    manager.update_opt("filter", "on");

    let written = manager.render_options_file();
    assert_eq!(written, "region=pal\nfilter=on\n");

    // A fresh manager with the same declarations reloads the file and
    // lands on identical selections.
    let mut reloaded = manager_with(vec![
        def("region", "auto", &["auto", "pal", "ntsc"]),
        def("filter", "off", &["off", "on"]),
    ]);
    reloaded.apply_options_file(&written);
    assert_eq!(reloaded.opts[0].selected, "pal");
    assert_eq!(reloaded.opts[1].selected, "on");
}

#[test]
fn unknown_keys_and_foreign_values_are_ignored() {
    let mut manager = manager_with(vec![def("region", "auto", &["auto", "pal"])]);

    manager.apply_options_file("nobody=home\nregion=ntsc\nmalformed line\nregion=pal\n");

    // The unknown key and the value outside the enumerated set leave
    // the default standing; the one legal line applies.
    assert_eq!(manager.opts[0].selected, "pal");
}

#[test]
fn empty_line_stops_the_reader() {
    let mut manager = manager_with(vec![
        def("region", "auto", &["auto", "pal"]),
        def("filter", "off", &["off", "on"]),
    ]);

    manager.apply_options_file("region=pal\n\nfilter=on\n");

    assert_eq!(manager.opts[0].selected, "pal");
    // The blank line ends the read: the filter line is never seen.
    assert_eq!(manager.opts[1].selected, "off");
}

#[test]
fn update_validates_against_the_enumerated_values() {
    let mut manager = manager_with(vec![def("region", "auto", &["auto", "pal"])]);

    let content = manager.update_opt("region", "zzz");
    assert_eq!(manager.opts[0].selected, "auto");
    assert_eq!(content, "region=auto\n");

    let content = manager.update_opt("region", "pal");
    assert_eq!(manager.opts[0].selected, "pal");
    assert_eq!(content, "region=pal\n");
    assert!(manager.updated);
}

#[test]
fn localized_definitions_are_preferred() {
    let mut manager = OptionManager::new("opt", "Core".to_string());
    manager
        .convert_option_v2_intl(&RawOptionsV2Intl {
            us: Some(RawOptionsV2 {
                definitions: vec![def("speed", "fast", &["fast", "slow"])],
                categories: vec![],
            }),
            local: Some(RawOptionsV2 {
                definitions: vec![def("vitesse", "vite", &["vite", "lente"])],
                categories: vec![RawCategory {
                    key: Some("general".to_string()),
                    info: "".to_string(),
                    desc: "Général".to_string(),
                }],
            }),
        })
        .unwrap();

    assert_eq!(manager.opts.len(), 1);
    assert_eq!(manager.opts[0].key, "vitesse");
    assert_eq!(manager.categories.len(), 1);
    assert_eq!(manager.version, OptionVersion::V2Intl);
}

#[test]
fn a_push_without_any_set_is_refused() {
    let mut manager = OptionManager::new("opt", "Core".to_string());
    let r = manager.convert_option_v2_intl(&RawOptionsV2Intl {
        us: None,
        local: None,
    });
    assert!(r.is_err());
    assert!(manager.opts.is_empty());
}

#[test]
fn change_visibility_touches_every_match_and_nothing_else() {
    let mut manager = manager_with(vec![
        def("region", "auto", &["auto"]),
        def("filter", "off", &["off"]),
    ]);
    manager.change_visibility("filter", false);
    assert!(manager.opts[0].visibility);
    assert!(!manager.opts[1].visibility);
    assert_eq!(manager.opts[1].selected, "off");
}

#[test]
fn empty_selection_survives_the_round_trip() {
    let mut manager = manager_with(vec![def("label", "", &["", "full"])]);
    assert_eq!(manager.opts[0].selected, "");

    let written = manager.render_options_file();
    assert_eq!(written, "label=\n");

    // The empty value yields no token; the line is ignored and the
    // empty selection stands — the round trip still reproduces it.
    let mut reloaded = manager_with(vec![def("label", "", &["", "full"])]);
    reloaded.apply_options_file(&written);
    assert_eq!(reloaded.opts[0].selected, "");
}

#[test]
fn find_selected_resolves_only_known_keys() {
    let manager = manager_with(vec![def("region", "auto", &["auto", "pal"])]);
    assert_eq!(manager.find_selected("region").unwrap(), "auto");
    assert!(manager.find_selected("nothing").is_none());
}
