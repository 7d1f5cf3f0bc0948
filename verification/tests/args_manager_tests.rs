use retro_ab::args_manager::{get_key_and_value, get_value, get_values, RetroArgs};

#[test]
fn test_get_key_and_value() {
    let command = "--core=teste.d";

    assert_eq!(
        get_key_and_value(command),
        ("core".to_string(), "teste.d".to_string())
    );
}

#[test]
fn args_manager_test_get_key_and_value() {
    let command = "--core=teste.d";

    assert_eq!(
        get_key_and_value(command),
        ("core".to_string(), "teste.d".to_string())
    );
}

#[test]
fn teste_get_values() {
    let mut args: Vec<String> = Vec::new();

    args.push("--core=test.c".to_string());
    args.push("--rom=test.r".to_string());

    let values = get_values(args);

    match values.get_key_value("rom") {
        Some((key, value)) => {
            assert_eq!(key, "rom");
            assert_eq!(value, "test.r");
        }
        None => panic!("o parâmetro 'rom' nao foi encontrado"),
    }

    match values.get_key_value("core") {
        Some((key, value)) => {
            assert_eq!(
                key, "core",
                "valor esperado para 'key' == 'core', valor encontrado -> {:?}",
                key
            );
            assert_eq!(
                value, "test.c",
                "valor esperado para 'value' == 'test.c', valor encontrado -> {:?}",
                value
            );
        }
        None => panic!("o parâmetro 'core' nao foi encontrado"),
    }
}

#[test]
fn args_manager_teste_get_values() {
    let mut args: Vec<String> = Vec::new();

    args.push("--core=test.c".to_string());
    args.push("--rom=test.r".to_string());

    let core = get_value(&args, "--core=").expect("core argument expected");

    assert_eq!(
        core, "test.c",
        "valor esperado para 'value' == 'test.c', valor encontrado -> {:?}",
        core
    );

    let rom = get_value(&args, "--rom=").expect("rom argument expected");

    assert_eq!(
        rom, "test.r",
        "valor esperado para 'value' == 'test.r', valor encontrado -> {:?}",
        rom
    );
}

#[test]
fn missing_argument_is_an_error() {
    let args: Vec<String> = vec!["--core=test.c".to_string()];

    let rom = get_value(&args, "--rom=");
    assert!(rom.is_err());
    assert_eq!(
        rom.unwrap_err().level,
        retro_ab::erro_handle::RetroLogLevel::RETRO_LOG_ERROR
    );
}

#[test]
fn retro_args_reads_both_paths() {
    let args: Vec<String> = vec!["--core=snes.so".to_string(), "--rom=mario.smc".to_string()];

    let parsed = RetroArgs::new(&args).expect("both arguments are present");
    assert_eq!(parsed.core, "snes.so");
    assert_eq!(parsed.rom, "mario.smc");

    let missing = RetroArgs::new(&vec!["--core=snes.so".to_string()]);
    assert!(missing.is_err());
}

#[test]
fn dashed_argument_without_separator_reads_empty() {
    assert_eq!(
        get_key_and_value("--core"),
        ("".to_string(), "".to_string())
    );
    assert_eq!(get_key_and_value("core=x"), ("".to_string(), "".to_string()));
}
