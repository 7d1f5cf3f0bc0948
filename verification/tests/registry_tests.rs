use retro_ab::graphic_api::GraphicApi;
use retro_ab::paths::Paths;
use retro_ab::retro_context::{ContextRegistry, RetroContext};
use retro_ab::retro_core::CoreWrapper;
use retro_ab::retro_sys::retro_hw_context_type;
use retro_ab::system::SysInfo;

fn test_core() -> CoreWrapper {
    CoreWrapper::new(
        0,
        SysInfo {
            library_name: "Snes9x".to_string(),
            library_version: "1.62.3".to_string(),
            valid_extensions: "smc|sfc".to_string(),
            need_full_path: false,
            block_extract: false,
        },
        Paths::new(
            "out/system".to_string(),
            "out/save".to_string(),
            "out/opt".to_string(),
            "out/assets".to_string(),
        )
        .unwrap(),
        GraphicApi::with(retro_hw_context_type::RETRO_HW_CONTEXT_NONE),
    )
}

#[test]
fn test_create_and_delete() {
    let mut registry = ContextRegistry::new();
    let ctx = RetroContext::new(test_core());
    let id = ctx.id;

    registry.register(ctx).expect("fresh id registers");

    assert_eq!(
        registry.is_valid(id),
        true,
        "O contexto id -> {:?} nao foi inicializado!",
        id
    );

    let current_id = id;

    registry.delete(id).expect("delete never fails");

    assert_eq!(
        registry.is_valid(id),
        false,
        "O contexto id -> {:?} nao foi removido!",
        current_id
    );
}

#[test]
fn get_from_id() {
    let mut registry = ContextRegistry::new();
    let ctx = RetroContext::new(test_core());
    let id = ctx.id;
    registry.register(ctx).unwrap();

    let same_ctx = registry.get_from_id(id).expect("the context is registered");

    assert_eq!(same_ctx.id, id);
}

#[test]
fn two_contexts_keep_distinct_ids() {
    let mut registry = ContextRegistry::new();
    let a = RetroContext::new(test_core());
    let b = RetroContext::new(test_core());
    let (id_a, id_b) = (a.id, b.id);

    assert_ne!(id_a, id_b, "two freshly drawn context ids must differ");

    registry.register(a).unwrap();
    registry.register(b).unwrap();
    assert_eq!(registry.get_num_contexts(), 2);

    registry.delete(id_a).unwrap();
    assert!(!registry.is_valid(id_a));
    assert!(registry.is_valid(id_b));
    assert_eq!(registry.get_num_contexts(), 1);
}

#[test]
fn deleting_an_absent_id_is_a_no_op() {
    let mut registry = ContextRegistry::new();
    assert_eq!(registry.get_num_contexts(), 0);

    // A construction that fails never reaches the registry: the count
    // is whatever it was, and deleting the never-registered id changes
    // nothing.
    registry.delete(12345).expect("idempotent delete");
    assert_eq!(registry.get_num_contexts(), 0);

    let ctx = RetroContext::new(test_core());
    let id = ctx.id;
    registry.register(ctx).unwrap();
    registry.delete(98765 ^ id).unwrap();
    assert_eq!(registry.get_num_contexts(), 1);
}

#[test]
fn context_ids_carry_the_random_version_bits() {
    let ctx = RetroContext::new(test_core());
    assert_eq!((ctx.id >> 76) & 0xf, 4, "a drawn id carries the v4 version nibble");
    assert_eq!(ctx.core.retro_ctx_associated, ctx.id);
}

#[test]
fn lookup_of_a_missing_context_is_an_error() {
    let registry = ContextRegistry::new();
    let missing = registry.get_from_id(42);
    assert!(missing.is_err());
}
