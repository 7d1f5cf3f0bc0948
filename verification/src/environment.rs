//! The environment dispatcher: the single entry point the core calls —
//! reentrantly, at arbitrary points during init, load and run — with a
//! numeric command code and an untyped payload.
//!
//! The embedding application decodes the code against the
//! `RETRO_ENVIRONMENT_*` constants, reads the payload into the matching
//! [`EnvCommand`] record, and answers the core from the
//! [`EnvOutcome`] this dispatcher returns.  An unrecognized command is
//! answered "unhandled" and changes nothing — expected, not an error.

use vstd::prelude::*;

use crate::av_info::{spec_geometry_after, AvInfo, GeometryUpdate, Video};
use crate::controller_info::{
    spec_ctr_prefix, spec_is_converted_port, RawControllerInfo, convert_ports,
};
use crate::erro_handle::ErroHandle;
use crate::graphic_api::GraphicApi;
use crate::option_manager::{
    spec_apply_lines, spec_cat_prefix, spec_def_prefix, spec_first_key_index,
    spec_is_converted_cat, spec_is_converted_def, spec_render, OptionManager, OptionVersion,
    RawOptionsV2Intl,
};
use crate::retro_core::CoreWrapper;
use crate::retro_sys::{retro_hw_context_type, retro_language, retro_pixel_format};
use crate::system::{spec_ident_prefix, spec_is_converted_sub, spec_sub_ok, RawSubsystemInfo};
use crate::tools::spec_split;

verus! {

/// The hardware-render attributes a core pushes when it requests a
/// hardware context.
#[derive(Clone, Copy, Debug, PartialEq, Eq, Structural)]
pub struct HwRenderRequest {
    pub depth: bool,
    pub stencil: bool,
    pub bottom_left_origin: bool,
    pub version_major: u32,
    pub version_minor: u32,
    pub cache_context: bool,
    pub debug_context: bool,
}

/// One decoded environment call: the command code plus its payload,
/// read from the raw pointer by the embedding application.
#[derive(Clone, Debug)]
pub enum EnvCommand {
    SetSupportNoGame(bool),
    GetSystemDirectory,
    GetSaveDirectory,
    GetCoreAssetsDirectory,
    SetSupportAchievements,
    SetPerformanceLevel,
    GetCoreOptionsVersion,
    /// The definitions push, together with the persisted option file's
    /// content if one exists — the embedder reads the file at the path
    /// the option manager derived.
    SetCoreOptionsV2Intl { options: RawOptionsV2Intl, pref_file: Option<String> },
    SetCoreOptionsDisplay { key: String, visible: bool },
    SetCoreOptionsUpdateDisplayCallback,
    GetLanguage,
    /// A null geometry payload is `None`.
    SetGeometry(Option<GeometryUpdate>),
    SetPixelFormat(retro_pixel_format),
    GetVariableUpdate,
    SetVariables,
    /// A null variable payload is `None`.
    GetVariable(Option<String>),
    SetInputDescriptors,
    GetLogInterface,
    SetSubsystemInfo(Vec<RawSubsystemInfo>),
    GetInputBitmasks,
    SetControllerInfo(Vec<RawControllerInfo>),
    GetAudioVideoEnable,
    GetVfsInterface,
    GetLedInterface,
    GetMessageInterfaceVersion,
    GetDiskControlInterfaceVersion,
    SetDiskControlInterface,
    GetPerfInterface,
    SetSerializationQuirks,
    GetPreferredHwRender,
    SetHwRender(HwRenderRequest),
    SetVariable,
    GetUsername,
    GetRumbleInterface,
    Unknown(u32),
}

/// What the dispatcher hands back for the embedder to write through
/// the payload pointer.
#[derive(Clone, Debug)]
pub enum EnvReply {
    NoData,
    Flag(bool),
    Number(u32),
    Language(retro_language),
    HwContextType(retro_hw_context_type),
    Directory(String),
    /// The resolved selection for a variable fetch, or nothing.
    VariableValue(Option<String>),
    /// Option-file content the embedder must persist, or nothing.
    OptionsFile(Option<String>),
}

/// The dispatcher's answer: whether the command was handled, and what
/// to write back.
#[derive(Clone, Debug)]
pub struct EnvOutcome {
    pub handled: bool,
    pub reply: EnvReply,
}

/// Whether `mid` is `before` with one international v2 definition push
/// recorded: the chosen set's definitions and categories appended and
/// the negotiated shape remembered.
pub open spec fn spec_options_push(
    before: OptionManager,
    mid: OptionManager,
    push: RawOptionsV2Intl,
) -> bool {
    let chosen = if push.local is Some {
        push.local->Some_0
    } else {
        push.us->Some_0
    };
    &&& mid.version == OptionVersion::V2Intl
    &&& mid.file_path == before.file_path
    &&& mid.updated == before.updated
    &&& mid.opts@.len() == before.opts@.len() + spec_def_prefix(chosen.definitions@).len()
    &&& (forall|j: int|
        0 <= j < before.opts@.len() ==> #[trigger] mid.opts@[j] == before.opts@[j])
    &&& (forall|j: int|
        0 <= j < spec_def_prefix(chosen.definitions@).len() ==> spec_is_converted_def(
            #[trigger] mid.opts@[before.opts@.len() + j],
            spec_def_prefix(chosen.definitions@)[j],
        ))
    &&& mid.categories@.len() == before.categories@.len() + spec_cat_prefix(
        chosen.categories@,
    ).len()
    &&& (forall|j: int|
        0 <= j < before.categories@.len() ==> #[trigger] mid.categories@[j]
            == before.categories@[j])
    &&& (forall|j: int|
        0 <= j < spec_cat_prefix(chosen.categories@).len() ==> spec_is_converted_cat(
            #[trigger] mid.categories@[before.categories@.len() + j],
            spec_cat_prefix(chosen.categories@)[j],
        ))
}

/// Whether `after` is `before` with one visibility toggle applied to
/// every option keyed `key`.
pub open spec fn spec_visibility_applied(
    before: OptionManager,
    after: OptionManager,
    key: Seq<char>,
    visible: bool,
) -> bool {
    &&& after.version == before.version
    &&& after.file_path == before.file_path
    &&& after.categories == before.categories
    &&& after.updated == before.updated
    &&& after.opts@.len() == before.opts@.len()
    &&& (forall|j: int|
        0 <= j < before.opts@.len() ==> #[trigger] after.opts_view()[j] == (
        if before.opts_view()[j].key == key {
            crate::option_manager::OptView { visibility: visible, ..before.opts_view()[j] }
        } else {
            before.opts_view()[j]
        }))
}

/// Whether `a` and `b` agree on everything but the option state.
pub open spec fn spec_eq_except_options(a: CoreWrapper, b: CoreWrapper) -> bool {
    &&& a.retro_ctx_associated == b.retro_ctx_associated
    &&& a.rom_name == b.rom_name
    &&& a.initialized == b.initialized
    &&& a.game_loaded == b.game_loaded
    &&& a.support_no_game == b.support_no_game
    &&& a.language == b.language
    &&& a.av_info == b.av_info
    &&& a.system == b.system
    &&& a.paths == b.paths
}


/// The subsystem-push arm's contract.
pub open spec fn spec_post_subsystem(
    before: CoreWrapper,
    after: CoreWrapper,
    raw: Vec<RawSubsystemInfo>,
    r: Result<EnvOutcome, ErroHandle>,
) -> bool {
    &&& (r is Ok <==> (forall|j: int|
        0 <= j < spec_ident_prefix(raw@).len() ==> spec_sub_ok(
            #[trigger] spec_ident_prefix(raw@)[j],
        )))
    &&& (r is Err ==> after == before)
    &&& (r matches Ok(out) ==> out.handled && out.reply is NoData
        && after.system.subsystem@.len() == before.system.subsystem@.len()
        + spec_ident_prefix(raw@).len() && (forall|j: int|
        0 <= j < before.system.subsystem@.len() ==> #[trigger] after.system.subsystem@[j]
            == before.system.subsystem@[j]) && (forall|j: int|
        0 <= j < spec_ident_prefix(raw@).len() ==> spec_is_converted_sub(
            #[trigger] after.system.subsystem@[before.system.subsystem@.len() + j],
            spec_ident_prefix(raw@)[j],
        )) && after.system.info == before.system.info && after.system.ports
        == before.system.ports && spec_eq_except_system(after, before))
}

/// The controller-info arm's contract.
pub open spec fn spec_post_controller(
    before: CoreWrapper,
    after: CoreWrapper,
    raw: Vec<RawControllerInfo>,
    r: Result<EnvOutcome, ErroHandle>,
) -> bool {
    &&& (r is Ok <==> (forall|j: int|
        0 <= j < spec_ctr_prefix(raw@).len() ==> (#[trigger] spec_ctr_prefix(raw@)[
            j
        ]).num_types <= spec_ctr_prefix(raw@)[j].types@.len()))
    &&& (r is Err ==> after == before)
    &&& (r matches Ok(out) ==> out.handled && out.reply is NoData && after.system.ports@.len()
        == spec_ctr_prefix(raw@).len() && (forall|j: int|
        0 <= j < spec_ctr_prefix(raw@).len() ==> spec_is_converted_port(
            #[trigger] after.system.ports@[j],
            spec_ctr_prefix(raw@)[j],
        )) && after.system.info == before.system.info && after.system.subsystem
        == before.system.subsystem && spec_eq_except_system(after, before))
}

/// The options-push arm's contract.
pub open spec fn spec_post_options_push(
    before: CoreWrapper,
    after: CoreWrapper,
    push: RawOptionsV2Intl,
    pref_file: Option<String>,
    r: Result<EnvOutcome, ErroHandle>,
) -> bool {
    &&& (r is Ok <==> (push.local is Some || push.us is Some))
    &&& (r is Err ==> after == before)
    &&& (r matches Ok(out) ==> out.handled && spec_eq_except_options(after, before) && (
    exists|mid: OptionManager|
        {
            &&& #[trigger] spec_options_push(before.options, mid, push)
            &&& match pref_file {
                None => (out.reply matches EnvReply::OptionsFile(Some(content)) && content@
                    == spec_render(mid.opts_view())) && after.options == mid,
                Some(file) => out.reply == EnvReply::OptionsFile(None) && (
                after.options.opts_view(),
                after.options.updated,
                ) == spec_apply_lines(
                    mid.opts_view(),
                    mid.updated,
                    spec_split(file@, '\n'),
                ) && after.options.version == mid.version && after.options.file_path
                    == mid.file_path && after.options.categories == mid.categories,
            }
        }))
}

/// The variable-fetch arm's contract.
pub open spec fn spec_post_get_variable(
    before: CoreWrapper,
    after: CoreWrapper,
    key: Option<String>,
    r: Result<EnvOutcome, ErroHandle>,
) -> bool {
    match key {
        None => r matches Ok(out) && out.handled && out.reply == EnvReply::VariableValue(None)
            && after == before,
        Some(k) => r matches Ok(out) && ({
            let i = spec_first_key_index(before.options.opts_view(), k@);
            if before.options.opts@.len() == 0 {
                out.handled && out.reply == EnvReply::VariableValue(None) && after == before
            } else if i >= 0 {
                out.handled && (out.reply matches EnvReply::VariableValue(Some(v)) && v@
                    == before.options.opts_view()[i].selected) && after == (CoreWrapper {
                    options: OptionManager { updated: false, ..before.options },
                    ..before
                })
            } else {
                !out.handled && out.reply == EnvReply::VariableValue(None) && after == before
            }
        }),
    }
}

/// What each environment command does: how the answer relates the
/// wrapper after the call (`after`) to the wrapper before it
/// (`before`), command by command.
pub open spec fn spec_env_post(
    before: CoreWrapper,
    after: CoreWrapper,
    cmd: EnvCommand,
    r: Result<EnvOutcome, ErroHandle>,
) -> bool {
    match cmd {
        // An unrecognized code is unhandled and changes nothing.
        EnvCommand::Unknown(_) => r matches Ok(out) && !out.handled && out.reply is NoData
            && after == before,
        // Commands the frontend takes note of but does not answer.
        EnvCommand::SetSupportAchievements => r matches Ok(out) && !out.handled && out.reply
            is NoData && after == before,
        EnvCommand::SetPerformanceLevel => r matches Ok(out) && !out.handled && out.reply
            is NoData && after == before,
        EnvCommand::SetCoreOptionsUpdateDisplayCallback => r matches Ok(out) && !out.handled
            && out.reply is NoData && after == before,
        EnvCommand::SetVariables => r matches Ok(out) && !out.handled && out.reply is NoData
            && after == before,
        EnvCommand::SetInputDescriptors => r matches Ok(out) && !out.handled && out.reply
            is NoData && after == before,
        EnvCommand::GetVfsInterface => r matches Ok(out) && !out.handled && out.reply is NoData
            && after == before,
        EnvCommand::GetLedInterface => r matches Ok(out) && !out.handled && out.reply is NoData
            && after == before,
        EnvCommand::GetMessageInterfaceVersion => r matches Ok(out) && !out.handled && out.reply
            is NoData && after == before,
        EnvCommand::GetDiskControlInterfaceVersion => r matches Ok(out) && !out.handled
            && out.reply is NoData && after == before,
        EnvCommand::SetDiskControlInterface => r matches Ok(out) && !out.handled && out.reply
            is NoData && after == before,
        EnvCommand::SetSerializationQuirks => r matches Ok(out) && !out.handled && out.reply
            is NoData && after == before,
        EnvCommand::SetVariable => r matches Ok(out) && !out.handled && out.reply is NoData
            && after == before,
        EnvCommand::GetUsername => r matches Ok(out) && !out.handled && out.reply is NoData
            && after == before,
        // Interfaces the embedder installs; handled, nothing stored.
        EnvCommand::GetLogInterface => r matches Ok(out) && out.handled && out.reply is NoData
            && after == before,
        EnvCommand::GetPerfInterface => r matches Ok(out) && out.handled && out.reply is NoData
            && after == before,
        EnvCommand::GetRumbleInterface => r matches Ok(out) && out.handled && out.reply is NoData
            && after == before,
        EnvCommand::GetInputBitmasks => r matches Ok(out) && out.handled && out.reply is NoData
            && after == before,
        EnvCommand::SetSupportNoGame(v) => r matches Ok(out) && out.handled && out.reply
            is NoData && after == (CoreWrapper { support_no_game: v, ..before }),
        EnvCommand::GetSystemDirectory => r matches Ok(out) && out.handled && (out.reply
            matches EnvReply::Directory(d) && d@ == before.paths.system@) && after == before,
        EnvCommand::GetSaveDirectory => r matches Ok(out) && out.handled && (out.reply
            matches EnvReply::Directory(d) && d@ == before.paths.save@) && after == before,
        EnvCommand::GetCoreAssetsDirectory => r matches Ok(out) && out.handled && (out.reply
            matches EnvReply::Directory(d) && d@ == before.paths.assets@) && after == before,
        // The frontend always speaks the newest option protocol.
        EnvCommand::GetCoreOptionsVersion => r matches Ok(out) && out.handled && out.reply
            == EnvReply::Number(2) && after == before,
        EnvCommand::GetLanguage => r matches Ok(out) && out.handled && out.reply
            == EnvReply::Language(retro_language::RETRO_LANGUAGE_ENGLISH) && after == (
        CoreWrapper { language: retro_language::RETRO_LANGUAGE_ENGLISH, ..before }),
        EnvCommand::GetAudioVideoEnable => r matches Ok(out) && out.handled && out.reply
            == EnvReply::Number(3) && after == before,
        EnvCommand::SetPixelFormat(pf) => r matches Ok(out) && out.handled && out.reply is NoData
            && after == (CoreWrapper {
            av_info: AvInfo {
                video: Video { pixel_format: pf, ..before.av_info.video },
                ..before.av_info
            },
            ..before
        }),
        EnvCommand::SetGeometry(raw_geometry) => match raw_geometry {
            None => r matches Ok(out) && !out.handled && out.reply is NoData && after == before,
            Some(u) => r matches Ok(out) && out.handled && out.reply is NoData && after == (
            CoreWrapper {
                av_info: AvInfo {
                    video: Video {
                        geometry: spec_geometry_after(before.av_info.video.geometry, u),
                        ..before.av_info.video
                    },
                    ..before.av_info
                },
                ..before
            }),
        },
        EnvCommand::GetVariableUpdate => r matches Ok(out) && out.handled && out.reply
            == EnvReply::Flag(before.options.opts@.len() > 0 && before.options.updated) && after
            == before,
        EnvCommand::GetVariable(key) => spec_post_get_variable(before, after, key, r),
        EnvCommand::SetCoreOptionsDisplay { key, visible } => r matches Ok(out) && out.handled
            && out.reply is NoData && spec_eq_except_options(after, before)
            && spec_visibility_applied(before.options, after.options, key@, visible),
        EnvCommand::SetCoreOptionsV2Intl { options: push, pref_file } => spec_post_options_push(
            before,
            after,
            push,
            pref_file,
            r,
        ),
        EnvCommand::SetSubsystemInfo(raw) => spec_post_subsystem(before, after, raw, r),
        EnvCommand::SetControllerInfo(raw) => spec_post_controller(before, after, raw, r),
        EnvCommand::GetPreferredHwRender => r matches Ok(out) && !out.handled && out.reply
            == EnvReply::HwContextType(before.av_info.video.graphic_api.context_type) && after
            == before,
        EnvCommand::SetHwRender(req) => r matches Ok(out) && !out.handled && out.reply is NoData
            && after == (CoreWrapper {
            av_info: AvInfo {
                video: Video {
                    graphic_api: GraphicApi {
                        context_type: before.av_info.video.graphic_api.context_type,
                        fbo: before.av_info.video.graphic_api.fbo,
                        depth: req.depth,
                        stencil: req.stencil,
                        bottom_left_origin: req.bottom_left_origin,
                        major: req.version_major,
                        minor: req.version_minor,
                        cache_context: req.cache_context,
                        debug_context: req.debug_context,
                    },
                    ..before.av_info.video
                },
                ..before.av_info
            },
            ..before
        }),
    }
}

/// Answers one environment call from the core, reading and mutating
/// the targeted wrapper exactly as the command asks.  The returned
/// error marks an unreadable raw shape — a scan the dispatcher must
/// not walk past — and leaves the wrapper untouched.
pub fn core_environment(core: &mut CoreWrapper, cmd: EnvCommand) -> (r: Result<
    EnvOutcome,
    ErroHandle,
>)
    ensures
        spec_env_post(*old(core), *final(core), cmd, r),
{
    match cmd {
        EnvCommand::SetSupportNoGame(v) => {
            core.support_no_game = v;
            Ok(EnvOutcome { handled: true, reply: EnvReply::NoData })
        },
        EnvCommand::GetSystemDirectory => {
            let d = core.paths.system.clone();
            Ok(EnvOutcome { handled: true, reply: EnvReply::Directory(d) })
        },
        EnvCommand::GetSaveDirectory => {
            let d = core.paths.save.clone();
            Ok(EnvOutcome { handled: true, reply: EnvReply::Directory(d) })
        },
        EnvCommand::GetCoreAssetsDirectory => {
            let d = core.paths.assets.clone();
            Ok(EnvOutcome { handled: true, reply: EnvReply::Directory(d) })
        },
        EnvCommand::GetCoreOptionsVersion => {
            Ok(EnvOutcome { handled: true, reply: EnvReply::Number(2) })
        },
        EnvCommand::SetCoreOptionsV2Intl { options: push, pref_file } => env_options_push(
            core,
            push,
            pref_file,
        ),
        EnvCommand::SetCoreOptionsDisplay { key, visible } => {
            core.options.change_visibility(key.as_str(), visible);
            Ok(EnvOutcome { handled: true, reply: EnvReply::NoData })
        },
        EnvCommand::GetLanguage => {
            core.language = retro_language::RETRO_LANGUAGE_ENGLISH;
            Ok(
                EnvOutcome {
                    handled: true,
                    reply: EnvReply::Language(retro_language::RETRO_LANGUAGE_ENGLISH),
                },
            )
        },
        EnvCommand::SetGeometry(raw_geometry) => env_set_geometry(core, raw_geometry),
        EnvCommand::SetPixelFormat(pf) => {
            core.av_info.video.pixel_format = pf;
            Ok(EnvOutcome { handled: true, reply: EnvReply::NoData })
        },
        EnvCommand::GetVariableUpdate => {
            let flag = if core.options.opts.len() > 0 {
                core.options.updated
            } else {
                false
            };
            Ok(EnvOutcome { handled: true, reply: EnvReply::Flag(flag) })
        },
        EnvCommand::GetVariable(key) => env_get_variable(core, key),
        EnvCommand::GetLogInterface => {
            Ok(EnvOutcome { handled: true, reply: EnvReply::NoData })
        },
        EnvCommand::SetSubsystemInfo(raw) => env_set_subsystem(core, raw),
        EnvCommand::GetInputBitmasks => {
            Ok(EnvOutcome { handled: true, reply: EnvReply::NoData })
        },
        EnvCommand::SetControllerInfo(raw) => env_set_controller_info(core, raw),
        EnvCommand::GetAudioVideoEnable => {
            Ok(EnvOutcome { handled: true, reply: EnvReply::Number(3) })
        },
        EnvCommand::GetPerfInterface => {
            Ok(EnvOutcome { handled: true, reply: EnvReply::NoData })
        },
        EnvCommand::GetPreferredHwRender => {
            let t = core.av_info.video.graphic_api.context_type;
            Ok(EnvOutcome { handled: false, reply: EnvReply::HwContextType(t) })
        },
        EnvCommand::SetHwRender(req) => env_set_hw_render(core, req),
        EnvCommand::GetRumbleInterface => {
            Ok(EnvOutcome { handled: true, reply: EnvReply::NoData })
        },
        EnvCommand::SetSupportAchievements
        | EnvCommand::SetPerformanceLevel
        | EnvCommand::SetCoreOptionsUpdateDisplayCallback
        | EnvCommand::SetVariables
        | EnvCommand::SetInputDescriptors
        | EnvCommand::GetVfsInterface
        | EnvCommand::GetLedInterface
        | EnvCommand::GetMessageInterfaceVersion
        | EnvCommand::GetDiskControlInterfaceVersion
        | EnvCommand::SetDiskControlInterface
        | EnvCommand::SetSerializationQuirks
        | EnvCommand::SetVariable
        | EnvCommand::GetUsername => Ok(EnvOutcome { handled: false, reply: EnvReply::NoData }),
        EnvCommand::Unknown(_code) => Ok(
            EnvOutcome { handled: false, reply: EnvReply::NoData },
        ),
    }
}

/// The options-push arm: records the definitions and reloads or seeds
/// the persisted selections.
fn env_options_push(
    core: &mut CoreWrapper,
    push: RawOptionsV2Intl,
    pref_file: Option<String>,
) -> (r: Result<EnvOutcome, ErroHandle>)
    ensures
        spec_post_options_push(*old(core), *final(core), push, pref_file, r),
{
    core.options.convert_option_v2_intl(&push)?;
    let ghost mid = core.options;
    let to_write = match pref_file {
        None => core.options.try_reload_pref_option(None),
        Some(file) => core.options.try_reload_pref_option(Some(file.as_str())),
    };
    proof {
        assert(spec_options_push(old(core).options, mid, push));
    }
    Ok(EnvOutcome { handled: true, reply: EnvReply::OptionsFile(to_write) })
}

/// The geometry-push arm: a null record is refused, a real one goes
/// through the change-detection rule.
fn env_set_geometry(core: &mut CoreWrapper, raw_geometry: Option<GeometryUpdate>) -> (r: Result<
    EnvOutcome,
    ErroHandle,
>)
    ensures
        spec_env_post(*old(core), *final(core), EnvCommand::SetGeometry(raw_geometry), r),
{
    match raw_geometry {
        None => Ok(EnvOutcome { handled: false, reply: EnvReply::NoData }),
        Some(u) => {
            let boxed = Some(u);
            core.av_info.try_set_new_geometry(&boxed);
            Ok(EnvOutcome { handled: true, reply: EnvReply::NoData })
        },
    }
}

/// The variable-fetch arm: resolves the requested key against the
/// stored selection and clears the updated flag on a hit.
fn env_get_variable(core: &mut CoreWrapper, key: Option<String>) -> (r: Result<
    EnvOutcome,
    ErroHandle,
>)
    ensures
        spec_post_get_variable(*old(core), *final(core), key, r),
{
    match key {
        None => Ok(EnvOutcome { handled: true, reply: EnvReply::VariableValue(None) }),
        Some(k) => {
            if core.options.opts.len() == 0 {
                return Ok(EnvOutcome { handled: true, reply: EnvReply::VariableValue(None) });
            }
            let found = core.options.find_selected(k.as_str());
            match found {
                Some(v) => {
                    core.options.updated = false;
                    Ok(EnvOutcome { handled: true, reply: EnvReply::VariableValue(Some(v)) })
                },
                None => Ok(EnvOutcome { handled: false, reply: EnvReply::VariableValue(None) }),
            }
        },
    }
}

/// The subsystem-push arm.
#[verifier::spinoff_prover]
#[verifier::rlimit(60)]
fn env_set_subsystem(core: &mut CoreWrapper, raw: Vec<RawSubsystemInfo>) -> (r: Result<
    EnvOutcome,
    ErroHandle,
>)
    ensures
        spec_post_subsystem(*old(core), *final(core), raw, r),
{
    let scanned = core.system.get_subsystem(&raw);
    match scanned {
        Ok(_done) => Ok(EnvOutcome { handled: true, reply: EnvReply::NoData }),
        Err(e) => Err(e),
    }
}

/// The controller-info arm: the declared ports replace the stored list.
#[verifier::spinoff_prover]
#[verifier::rlimit(60)]
fn env_set_controller_info(core: &mut CoreWrapper, raw: Vec<RawControllerInfo>) -> (r: Result<
    EnvOutcome,
    ErroHandle,
>)
    ensures
        spec_post_controller(*old(core), *final(core), raw, r),
{
    let converted = convert_ports(&raw);
    match converted {
        Ok(ports) => {
            core.system.ports = ports;
            Ok(EnvOutcome { handled: true, reply: EnvReply::NoData })
        },
        Err(e) => Err(e),
    }
}

/// The hardware-render arm: the requested GL attributes are stored.
fn env_set_hw_render(core: &mut CoreWrapper, req: HwRenderRequest) -> (r: Result<
    EnvOutcome,
    ErroHandle,
>)
    ensures
        spec_env_post(*old(core), *final(core), EnvCommand::SetHwRender(req), r),
{
    core.av_info.video.graphic_api.depth = req.depth;
    core.av_info.video.graphic_api.stencil = req.stencil;
    core.av_info.video.graphic_api.bottom_left_origin = req.bottom_left_origin;
    core.av_info.video.graphic_api.minor = req.version_minor;
    core.av_info.video.graphic_api.major = req.version_major;
    core.av_info.video.graphic_api.cache_context = req.cache_context;
    core.av_info.video.graphic_api.debug_context = req.debug_context;
    Ok(EnvOutcome { handled: false, reply: EnvReply::NoData })
}

/// Whether `a` and `b` agree on everything but the system record.
pub open spec fn spec_eq_except_system(a: CoreWrapper, b: CoreWrapper) -> bool {
    &&& a.retro_ctx_associated == b.retro_ctx_associated
    &&& a.rom_name == b.rom_name
    &&& a.initialized == b.initialized
    &&& a.game_loaded == b.game_loaded
    &&& a.support_no_game == b.support_no_game
    &&& a.language == b.language
    &&& a.av_info == b.av_info
    &&& a.options == b.options
    &&& a.paths == b.paths
}

} // verus!
