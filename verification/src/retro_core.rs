//! The lifecycle controller of one loaded core.
//!
//! A core moves through Loaded → Initialized → GameLoaded and back;
//! every transition is legal from exactly one state, and an illegal
//! request comes back as a `Warn` (already satisfied, nothing to undo)
//! or an `Error` (precondition violated) without touching the state.
//!
//! The controller decides; the embedding application obeys: it calls
//! the core's entry point exactly when the matching method returns
//! `Ok`, and it reports the core's answers back through the
//! `finish_*` methods and the environment dispatcher.

use vstd::prelude::*;

use crate::av_info::{AvInfo, AvInfoReport};
use crate::erro_handle::{ErroHandle, RetroLogLevel};
use crate::game_tools::{spec_rom_extension, RomTools};
use crate::graphic_api::GraphicApi;
use crate::option_manager::OptionManager;
use crate::paths::Paths;
use crate::retro_sys::retro_language;
use crate::system::{SysInfo, System};
use crate::tools::{spec_contains, spec_decimal, contains_str};

verus! {

/// The four lifecycle stations of a core.  `Unloaded` describes a core
/// whose context has been deinitialized and removed from the registry;
/// a live wrapper is always in one of the other three.
#[derive(Clone, Copy, Debug, PartialEq, Eq, Structural)]
pub enum LifecycleState {
    Unloaded,
    Loaded,
    Initialized,
    GameLoaded,
}

/// What the embedder must do to finish loading a game: pass the ROM —
/// by path alone, or with its full content read into memory — to the
/// core's load entry.
#[derive(Clone, Debug)]
pub struct GameLoadPlan {
    pub rom_path: String,
    /// When set, the core wants the path only and the file must not be
    /// read by the frontend.
    pub need_full_path: bool,
}

/// Where a save state must be written to or read from.
#[derive(Clone, Debug)]
pub struct SaveStatePlan {
    pub path: String,
}

/// State of one loaded core: its lifecycle position plus everything
/// the core has declared or negotiated so far.
#[derive(Clone, Debug)]
pub struct CoreWrapper {
    /// Id of the context this wrapper is registered under.
    pub retro_ctx_associated: u128,
    pub rom_name: String,
    pub initialized: bool,
    pub game_loaded: bool,
    pub support_no_game: bool,
    pub language: retro_language,
    pub av_info: AvInfo,
    pub system: System,
    pub paths: Paths,
    pub options: OptionManager,
}

impl CoreWrapper {
    /// The lifecycle station this wrapper stands at.
    pub open spec fn lifecycle_state(&self) -> LifecycleState {
        if self.game_loaded {
            LifecycleState::GameLoaded
        } else if self.initialized {
            LifecycleState::Initialized
        } else {
            LifecycleState::Loaded
        }
    }

    /// A game is only ever loaded on an initialized core.
    pub open spec fn wf(&self) -> bool {
        self.game_loaded ==> self.initialized
    }

    /// A freshly loaded core: state `Loaded`, no game, the identity
    /// record the core reported, and an option file path derived from
    /// the option root and the library name.
    pub fn new(
        retro_ctx_associated: u128,
        info: SysInfo,
        paths: Paths,
        graphic_api: GraphicApi,
    ) -> (r: CoreWrapper)
        ensures
            r.lifecycle_state() == LifecycleState::Loaded,
            r.wf(),
            r.retro_ctx_associated == retro_ctx_associated,
            r.rom_name@ == Seq::<char>::empty(),
            r.initialized == false,
            r.game_loaded == false,
            r.support_no_game == false,
            r.language == retro_language::RETRO_LANGUAGE_PORTUGUESE_BRAZIL,
            r.system.info == info,
            r.system.ports@ == Seq::<crate::controller_info::ControllerInfo>::empty(),
            r.system.subsystem@ == Seq::<crate::system::SubSystemInfo>::empty(),
            r.paths == paths,
            r.options.file_path@ == paths.opt@ + "/"@ + info.library_name@ + ".opt"@,
            r.options.opts@ == Seq::<crate::option_manager::Options>::empty(),
            r.options.updated == true,
            r.av_info.video.graphic_api == graphic_api,
            r.av_info.video.pixel_format
                == crate::retro_sys::retro_pixel_format::RETRO_PIXEL_FORMAT_UNKNOWN,
    {
        let options = OptionManager::new(paths.opt.as_str(), info.library_name.clone());
        let system = System::new(info);
        CoreWrapper {
            retro_ctx_associated,
            rom_name: String::new(),
            initialized: false,
            game_loaded: false,
            support_no_game: false,
            language: retro_language::RETRO_LANGUAGE_PORTUGUESE_BRAZIL,
            av_info: AvInfo::new(graphic_api),
            system,
            paths,
            options,
        }
    }

    /// Initialization is legal exactly from `Loaded`.  On `Ok` the
    /// embedder must call the core's init entry.
    pub fn init(&mut self) -> (r: Result<(), ErroHandle>)
        ensures
            old(self).wf() ==> final(self).wf(),
            r is Ok <==> old(self).lifecycle_state() == LifecycleState::Loaded,
            r is Ok ==> *final(self) == (CoreWrapper { initialized: true, ..*old(self) }),
            r is Err ==> *final(self) == *old(self),
            r matches Err(e) ==> e.level == RetroLogLevel::RETRO_LOG_WARN,
    {
        if self.game_loaded || self.initialized {
            return Err(
                ErroHandle::warn(
                    "unload the current core before initializing a new one".to_owned(),
                ),
            );
        }
        self.initialized = true;
        Ok(())
    }

    /// Loading a game is legal exactly from `Initialized`, and only
    /// for a ROM whose extension text occurs in the core's declared
    /// `valid_extensions`.  Nothing changes here: on `Ok` the embedder
    /// follows the plan — reading the file unless `need_full_path` —
    /// hands the ROM to the core's load entry, and reports back
    /// through [`CoreWrapper::finish_load_game`].
    pub fn load_game(&mut self, path: &str) -> (r: Result<GameLoadPlan, ErroHandle>)
        ensures
            *final(self) == *old(self),
            r is Ok <==> {
                &&& old(self).lifecycle_state() == LifecycleState::Initialized
                &&& spec_rom_extension(path@) is Some
                &&& spec_contains(
                    old(self).system.info.valid_extensions@,
                    spec_rom_extension(path@)->Some_0,
                )
            },
            r matches Ok(plan) ==> plan.rom_path@ == path@ && plan.need_full_path == old(
                self,
            ).system.info.need_full_path,
            r matches Err(e) ==> e.level == (if old(self).game_loaded {
                RetroLogLevel::RETRO_LOG_WARN
            } else {
                RetroLogLevel::RETRO_LOG_ERROR
            }),
    {
        if self.game_loaded {
            return Err(ErroHandle::warn("a rom is already loaded".to_owned()));
        }
        if !self.initialized {
            return Err(
                ErroHandle::error("the core must be initialized before loading a rom".to_owned()),
            );
        }
        let ext = crate::game_tools::rom_extension(path);
        match ext {
            None => Err(ErroHandle::error("the rom path carries no extension".to_owned())),
            Some(ext) => {
                let accepted = contains_str(self.system.info.valid_extensions.as_str(), ext.as_str());
                if !accepted {
                    return Err(ErroHandle::error("invalid rom extension".to_owned()));
                }
                Ok(
                    GameLoadPlan {
                        rom_path: path.to_owned(),
                        need_full_path: self.system.info.need_full_path,
                    },
                )
            },
        }
    }

    /// Records the core's answer to a game load: the guard conditions
    /// of [`CoreWrapper::load_game`] are checked again, the ROM name is
    /// derived from the path, and the audio/video record the core now
    /// reports replaces the stored one.
    pub fn finish_load_game(&mut self, path: &str, loaded: bool, av: &AvInfoReport) -> (r: Result<
        bool,
        ErroHandle,
    >)
        ensures
            r is Ok <==> {
                &&& old(self).lifecycle_state() == LifecycleState::Initialized
                &&& spec_rom_extension(path@) is Some
            },
            r matches Ok(b) ==> {
                &&& b == loaded
                &&& final(self).game_loaded == loaded
                &&& final(self).initialized == old(self).initialized
                &&& final(self).rom_name@ == crate::game_tools::spec_rom_stem(path@)
                &&& final(self).av_info.video.geometry == crate::av_info::spec_geometry_after(
                    old(self).av_info.video.geometry,
                    av.geometry,
                )
                &&& final(self).av_info.timing == (crate::av_info::Timing {
                    fps_bits: av.timing.fps_bits,
                    sample_rate_bits: av.timing.sample_rate_bits,
                })
                &&& final(self).av_info.video.pixel_format == old(self).av_info.video.pixel_format
                &&& final(self).av_info.video.graphic_api == old(self).av_info.video.graphic_api
                &&& final(self).support_no_game == old(self).support_no_game
                &&& final(self).language == old(self).language
                &&& final(self).system == old(self).system
                &&& final(self).paths == old(self).paths
                &&& final(self).options == old(self).options
                &&& final(self).retro_ctx_associated == old(self).retro_ctx_associated
            },
            r is Err ==> *final(self) == *old(self),
            r matches Err(e) ==> e.level == (if old(self).game_loaded {
                RetroLogLevel::RETRO_LOG_WARN
            } else {
                RetroLogLevel::RETRO_LOG_ERROR
            }),
            old(self).wf() ==> final(self).wf(),
    {
        if self.game_loaded {
            return Err(ErroHandle::warn("a rom is already loaded".to_owned()));
        }
        if !self.initialized {
            return Err(
                ErroHandle::error("the core must be initialized before loading a rom".to_owned()),
            );
        }
        let name = RomTools::get_rom_name(path)?;
        self.game_loaded = loaded;
        self.rom_name = name;
        self.av_info.update_av_info(av);
        Ok(loaded)
    }

    /// Running one synchronous unit of work is legal exactly from
    /// `GameLoaded`.  On `Ok` the embedder calls the core's run entry.
    pub fn run(&self) -> (r: Result<(), ErroHandle>)
        requires
            self.wf(),
        ensures
            r is Ok <==> self.lifecycle_state() == LifecycleState::GameLoaded,
            r matches Err(e) ==> e.level == (if !self.initialized {
                RetroLogLevel::RETRO_LOG_ERROR
            } else {
                RetroLogLevel::RETRO_LOG_WARN
            }) && e.message@ == (if !self.initialized {
                "the core was not initialized"@
            } else {
                "no rom is loaded at the moment"@
            }),
    {
        if !self.initialized {
            return Err(ErroHandle::error("the core was not initialized".to_owned()));
        }
        if !self.game_loaded {
            return Err(ErroHandle::warn("no rom is loaded at the moment".to_owned()));
        }
        Ok(())
    }

    /// Resetting is legal exactly from `GameLoaded`.  On `Ok` the
    /// embedder calls the core's reset entry.
    pub fn reset(&self) -> (r: Result<(), ErroHandle>)
        requires
            self.wf(),
        ensures
            r is Ok <==> self.lifecycle_state() == LifecycleState::GameLoaded,
            r matches Err(e) ==> e.level == (if !self.initialized {
                RetroLogLevel::RETRO_LOG_ERROR
            } else {
                RetroLogLevel::RETRO_LOG_WARN
            }) && e.message@ == (if !self.initialized {
                "the core was not initialized"@
            } else {
                "no rom is loaded at the moment"@
            }),
    {
        if !self.initialized {
            return Err(ErroHandle::error("the core was not initialized".to_owned()));
        }
        if !self.game_loaded {
            return Err(ErroHandle::warn("no rom is loaded at the moment".to_owned()));
        }
        Ok(())
    }

    /// Unloading is legal exactly from `GameLoaded`.  On `Ok` the
    /// embedder calls the core's unload entry.
    pub fn unload_game(&mut self) -> (r: Result<(), ErroHandle>)
        requires
            old(self).wf(),
        ensures
            final(self).wf(),
            r is Ok <==> old(self).lifecycle_state() == LifecycleState::GameLoaded,
            r is Ok ==> *final(self) == (CoreWrapper { game_loaded: false, ..*old(self) }),
            r is Err ==> *final(self) == *old(self),
            r matches Err(e) ==> e.level == (if !old(self).game_loaded {
                RetroLogLevel::RETRO_LOG_WARN
            } else {
                RetroLogLevel::RETRO_LOG_ERROR
            }),
    {
        if !self.game_loaded {
            return Err(ErroHandle::warn("the rom was already unloaded".to_owned()));
        }
        if !self.initialized {
            return Err(
                ErroHandle::error(
                    "the core must be initialized before unloading a rom".to_owned(),
                ),
            );
        }
        self.game_loaded = false;
        Ok(())
    }

    /// Connecting a controller is legal once the core is initialized.
    /// On `Ok` the embedder forwards the selection to the core.
    pub fn connect_controller(&self, _port: u32, _controller: u32) -> (r: Result<(), ErroHandle>)
        ensures
            r is Ok <==> self.initialized,
            r matches Err(e) ==> e.level == RetroLogLevel::RETRO_LOG_WARN,
    {
        if !self.initialized {
            return Err(
                ErroHandle::warn(
                    "no controller can be connected: no core was initialized".to_owned(),
                ),
            );
        }
        Ok(())
    }

    /// Saving a state is legal exactly from `GameLoaded`.  On `Ok` the
    /// embedder queries the core's serialization size, serializes, and
    /// writes the buffer to the planned path.
    pub fn save_state(&self, slot: usize) -> (r: Result<SaveStatePlan, ErroHandle>)
        requires
            self.wf(),
        ensures
            r is Ok <==> self.lifecycle_state() == LifecycleState::GameLoaded,
            r matches Ok(plan) ==> plan.path@ == self.paths.save@ + "/"@ + self.rom_name@ + "/"@
                + spec_decimal(slot as nat) + ".save"@,
            r matches Err(e) ==> e.level == (if !self.game_loaded {
                RetroLogLevel::RETRO_LOG_WARN
            } else {
                RetroLogLevel::RETRO_LOG_ERROR
            }),
    {
        if !self.game_loaded {
            return Err(ErroHandle::warn("a rom must be loaded first".to_owned()));
        }
        if !self.initialized {
            return Err(
                ErroHandle::error("the core must be initialized before saving a state".to_owned()),
            );
        }
        let path = RomTools::get_save_path(
            self.paths.save.as_str(),
            self.rom_name.as_str(),
            slot,
        );
        Ok(SaveStatePlan { path })
    }

    /// Restoring a state is legal exactly from `GameLoaded`.  On `Ok`
    /// the embedder reads the planned file and holds its length
    /// against the core's reported size with
    /// [`RomTools::check_state_buffer`] before any byte reaches the
    /// core's deserialize entry.
    pub fn load_state(&self, slot: usize) -> (r: Result<SaveStatePlan, ErroHandle>)
        requires
            self.wf(),
        ensures
            r is Ok <==> self.lifecycle_state() == LifecycleState::GameLoaded,
            r matches Ok(plan) ==> plan.path@ == self.paths.save@ + "/"@ + self.rom_name@ + "/"@
                + spec_decimal(slot as nat) + ".save"@,
            r matches Err(e) ==> e.level == (if !self.game_loaded {
                RetroLogLevel::RETRO_LOG_WARN
            } else {
                RetroLogLevel::RETRO_LOG_ERROR
            }),
    {
        if !self.game_loaded {
            return Err(ErroHandle::warn("a rom must be loaded first".to_owned()));
        }
        if !self.initialized {
            return Err(
                ErroHandle::error(
                    "the core must be initialized before loading a state".to_owned(),
                ),
            );
        }
        let path = RomTools::get_save_path(
            self.paths.save.as_str(),
            self.rom_name.as_str(),
            slot,
        );
        Ok(SaveStatePlan { path })
    }

    /// Tears the core down: a loaded game is unloaded first (a `Warn`
    /// from that step is swallowed, any other severity is forwarded),
    /// and the core leaves `Initialized` either way.  On return the
    /// embedder calls the core's deinit entry, clears the current
    /// context routing and removes the context from the registry.
    pub fn de_init(&mut self) -> (r: Result<(), ErroHandle>)
        requires
            old(self).wf(),
        ensures
            final(self).wf(),
            final(self).initialized == false,
            r is Ok <==> !(old(self).game_loaded && !old(self).initialized),
            r is Ok ==> *final(self) == (CoreWrapper {
                initialized: false,
                game_loaded: false,
                ..*old(self)
            }),
            r is Err ==> *final(self) == (CoreWrapper { initialized: false, ..*old(self) }),
            old(self).wf() ==> r is Ok,
    {
        let unloaded = self.unload_game();
        match unloaded {
            Ok(_done) => {},
            Err(e) => {
                match e.level {
                    RetroLogLevel::RETRO_LOG_WARN => {},
                    _ => {
                        self.initialized = false;
                        return Err(e);
                    },
                }
            },
        }
        self.initialized = false;
        Ok(())
    }
}

} // verus!
