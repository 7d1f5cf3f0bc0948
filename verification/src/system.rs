//! Identity and topology a core declares: library name and version,
//! accepted ROM extensions, controller ports and subsystems.
//!
//! Subsystems arrive as a sentinel-terminated C array; the embedding
//! application reads at most the documented maximum of entries into
//! [`RawSubsystemInfo`] records (a null identifier pointer becomes
//! `None`, the sentinel), and the verified scan below stops at the
//! first sentinel and converts what stands before it.

use vstd::prelude::*;

use crate::controller_info::ControllerInfo;
use crate::erro_handle::ErroHandle;

verus! {

/// Identity of a loaded core, read once right after the library loads.
#[derive(Clone, Debug)]
pub struct SysInfo {
    pub library_name: String,
    pub library_version: String,
    /// Pipe-delimited list of ROM extensions the core accepts.
    pub valid_extensions: String,
    pub need_full_path: bool,
    pub block_extract: bool,
}

/// Memory layout of one subsystem ROM role.
#[derive(Clone, Debug)]
pub struct MemoryInfo {
    pub extension: String,
    pub type_: u32,
}

/// One ROM role of a subsystem.
#[derive(Clone, Debug)]
pub struct SubSystemRomInfo {
    pub desc: String,
    pub valid_extensions: String,
    pub need_full_path: bool,
    pub block_extract: bool,
    pub required: bool,
    pub memory: MemoryInfo,
    pub num_memory: u32,
}

/// One alternate loading mode the core declares.
#[derive(Clone, Debug)]
pub struct SubSystemInfo {
    pub id: u32,
    pub desc: String,
    pub ident: String,
    pub roms: Vec<SubSystemRomInfo>,
}

/// Raw mirror of the ABI's per-ROM memory record; `None` stands for a
/// null memory pointer.
#[derive(Clone, Debug)]
pub struct RawMemoryInfo {
    pub extension: String,
    pub type_: u32,
}

/// Raw mirror of one subsystem ROM entry.
#[derive(Clone, Debug)]
pub struct RawSubsystemRomInfo {
    pub desc: String,
    pub valid_extensions: String,
    pub need_full_path: bool,
    pub block_extract: bool,
    pub required: bool,
    pub memory: Option<RawMemoryInfo>,
    pub num_memory: u32,
}

/// Raw mirror of one subsystem entry; a null identifier pointer — the
/// array's sentinel — becomes `None`.
#[derive(Clone, Debug)]
pub struct RawSubsystemInfo {
    pub id: u32,
    pub desc: String,
    pub ident: Option<String>,
    pub roms: Vec<RawSubsystemRomInfo>,
    pub num_roms: u32,
}

/// System-level state of one core instance.
#[derive(Clone, Debug)]
pub struct System {
    pub ports: Vec<ControllerInfo>,
    pub info: SysInfo,
    pub subsystem: Vec<SubSystemInfo>,
}

/// The entries before the first sentinel (or all of them, when no
/// sentinel occurs within the documented maximum).
pub open spec fn spec_ident_prefix(s: Seq<RawSubsystemInfo>) -> Seq<RawSubsystemInfo>
    decreases s.len(),
{
    if s.len() == 0 || s[0].ident is None {
        Seq::empty()
    } else {
        seq![s[0]] + spec_ident_prefix(s.drop_first())
    }
}

/// Whether one raw subsystem entry has a readable shape: the declared
/// ROM count fits the array and every declared ROM carries its memory
/// record.
pub open spec fn spec_sub_ok(s: RawSubsystemInfo) -> bool {
    &&& s.num_roms <= s.roms@.len()
    &&& forall|k: int| 0 <= k < s.num_roms ==> (#[trigger] s.roms@[k]).memory is Some
}

/// The converted ROM roles of one readable raw subsystem entry: its
/// first `num_roms` entries, each with its memory record unwrapped.
pub open spec fn spec_convert_roms(s: RawSubsystemInfo) -> Seq<SubSystemRomInfo> {
    Seq::new(
        s.num_roms as nat,
        |k: int|
            SubSystemRomInfo {
                desc: s.roms@[k].desc,
                valid_extensions: s.roms@[k].valid_extensions,
                need_full_path: s.roms@[k].need_full_path,
                block_extract: s.roms@[k].block_extract,
                required: s.roms@[k].required,
                memory: MemoryInfo {
                    extension: s.roms@[k].memory->Some_0.extension,
                    type_: s.roms@[k].memory->Some_0.type_,
                },
                num_memory: s.roms@[k].num_memory,
            },
    )
}

/// Whether `sub` is the converted form of the readable raw entry `s`.
pub open spec fn spec_is_converted_sub(sub: SubSystemInfo, s: RawSubsystemInfo) -> bool {
    &&& sub.id == s.id
    &&& sub.desc == s.desc
    &&& sub.ident == s.ident->Some_0
    &&& sub.roms@ == spec_convert_roms(s)
}

proof fn lemma_ident_prefix_step(s: Seq<RawSubsystemInfo>, i: int)
    requires
        0 <= i < s.len(),
    ensures
        s[i].ident is Some ==> spec_ident_prefix(s.skip(i)) == seq![s[i]] + spec_ident_prefix(
            s.skip(i + 1),
        ),
        s[i].ident is None ==> spec_ident_prefix(s.skip(i)) == Seq::<RawSubsystemInfo>::empty(),
{
    assert(s.skip(i).drop_first() =~= s.skip(i + 1));
}

impl System {
    /// Fresh system state around the identity record the core reported.
    pub fn new(info: SysInfo) -> (r: System)
        ensures
            r.info == info,
            r.ports@ == Seq::<ControllerInfo>::empty(),
            r.subsystem@ == Seq::<SubSystemInfo>::empty(),
    {
        System { ports: Vec::new(), subsystem: Vec::new(), info }
    }

    /// Converts one readable raw subsystem entry.
    fn convert_sub(raw_sys: &RawSubsystemInfo) -> (r: Result<SubSystemInfo, ErroHandle>)
        requires
            raw_sys.ident is Some,
        ensures
            r is Ok <==> spec_sub_ok(*raw_sys),
            r matches Ok(sub) ==> spec_is_converted_sub(sub, *raw_sys),
    {
        let count = raw_sys.num_roms as usize;
        if count > raw_sys.roms.len() {
            return Err(
                ErroHandle::error(
                    "subsystem declares more roms than the array holds".to_owned(),
                ),
            );
        }
        let ghost target = spec_convert_roms(*raw_sys);
        let mut roms: Vec<SubSystemRomInfo> = Vec::new();
        let mut k: usize = 0;
        while k < count
            invariant
                0 <= k <= count,
                count == raw_sys.num_roms,
                count <= raw_sys.roms@.len(),
                target == spec_convert_roms(*raw_sys),
                target.len() == count,
                forall|t: int| 0 <= t < k ==> (#[trigger] raw_sys.roms@[t]).memory is Some,
                roms@ == target.subrange(0, k as int),
            decreases count - k,
        {
            let rom = &raw_sys.roms[k];
            match &rom.memory {
                None => {
                    return Err(
                        ErroHandle::error(
                            "subsystem rom carries no memory record".to_owned(),
                        ),
                    );
                },
                Some(memory) => {
                    let ghost old_roms = roms@;
                    roms.push(
                        SubSystemRomInfo {
                            desc: rom.desc.clone(),
                            valid_extensions: rom.valid_extensions.clone(),
                            need_full_path: rom.need_full_path,
                            block_extract: rom.block_extract,
                            required: rom.required,
                            memory: MemoryInfo {
                                extension: memory.extension.clone(),
                                type_: memory.type_,
                            },
                            num_memory: rom.num_memory,
                        },
                    );
                    proof {
                        assert(roms@ =~= old_roms.push(target[k as int]));
                        assert(roms@ =~= target.subrange(0, k + 1));
                    }
                },
            }
            k += 1;
        }
        proof {
            assert(roms@ =~= target);
        }
        Ok(
            SubSystemInfo {
                id: raw_sys.id,
                desc: raw_sys.desc.clone(),
                ident: raw_sys.ident.as_ref().unwrap().clone(),
                roms,
            },
        )
    }

    /// The number of entries before the first sentinel.
    fn prefix_end(raw_subsystem: &Vec<RawSubsystemInfo>) -> (end: usize)
        ensures
            end <= raw_subsystem@.len(),
            spec_ident_prefix(raw_subsystem@) == raw_subsystem@.subrange(0, end as int),
            forall|j: int| 0 <= j < end ==> (#[trigger] raw_subsystem@[j]).ident is Some,
    {
        let n = raw_subsystem.len();
        let mut i: usize = 0;
        assert(raw_subsystem@.skip(0) =~= raw_subsystem@);
        while i < n
            invariant
                0 <= i <= n,
                n == raw_subsystem@.len(),
                forall|j: int| 0 <= j < i ==> (#[trigger] raw_subsystem@[j]).ident is Some,
                spec_ident_prefix(raw_subsystem@) =~= raw_subsystem@.subrange(0, i as int)
                    + spec_ident_prefix(raw_subsystem@.skip(i as int)),
            decreases n - i,
        {
            proof {
                lemma_ident_prefix_step(raw_subsystem@, i as int);
            }
            match &raw_subsystem[i].ident {
                None => {
                    proof {
                        assert(raw_subsystem@.subrange(0, i as int) + Seq::<
                            RawSubsystemInfo,
                        >::empty() =~= raw_subsystem@.subrange(0, i as int));
                    }
                    return i;
                },
                Some(_ident) => {
                    proof {
                        assert(raw_subsystem@.subrange(0, i as int) + (seq![
                            raw_subsystem@[i as int],
                        ] + spec_ident_prefix(raw_subsystem@.skip(i + 1))) =~= raw_subsystem@
                            .subrange(0, i + 1) + spec_ident_prefix(raw_subsystem@.skip(i + 1)));
                    }
                },
            }
            i += 1;
        }
        proof {
            assert(raw_subsystem@.skip(n as int) =~= Seq::<RawSubsystemInfo>::empty());
            assert(raw_subsystem@.subrange(0, n as int) + Seq::<RawSubsystemInfo>::empty()
                =~= raw_subsystem@.subrange(0, n as int));
        }
        n
    }

    /// Scans the raw subsystem array up to the first sentinel and
    /// appends the converted entries.  On an unreadable entry nothing
    /// is appended and the shape error is returned.
    pub fn get_subsystem(&mut self, raw_subsystem: &Vec<RawSubsystemInfo>) -> (r: Result<
        (),
        ErroHandle,
    >)
        ensures
            r is Ok <==> (forall|j: int|
                0 <= j < spec_ident_prefix(raw_subsystem@).len() ==> spec_sub_ok(
                    #[trigger] spec_ident_prefix(raw_subsystem@)[j],
                )),
            r is Ok ==> final(self).subsystem@.len() == old(self).subsystem@.len()
                + spec_ident_prefix(raw_subsystem@).len() && (forall|j: int|
                0 <= j < old(self).subsystem@.len() ==> final(self).subsystem@[j] == old(
                    self,
                ).subsystem@[j]) && (forall|j: int|
                0 <= j < spec_ident_prefix(raw_subsystem@).len() ==> spec_is_converted_sub(
                    #[trigger] final(self).subsystem@[old(self).subsystem@.len() + j],
                    spec_ident_prefix(raw_subsystem@)[j],
                )),
            r is Err ==> *final(self) == *old(self),
            final(self).info == old(self).info,
            final(self).ports == old(self).ports,
    {
        let ghost prefix = spec_ident_prefix(raw_subsystem@);
        let end = Self::prefix_end(raw_subsystem);
        let mut fresh: Vec<SubSystemInfo> = Vec::new();
        let mut i: usize = 0;
        while i < end
            invariant
                0 <= i <= end,
                end <= raw_subsystem@.len(),
                prefix == spec_ident_prefix(raw_subsystem@),
                prefix == raw_subsystem@.subrange(0, end as int),
                forall|j: int| 0 <= j < end ==> (#[trigger] raw_subsystem@[j]).ident is Some,
                forall|j: int| 0 <= j < i ==> spec_sub_ok(#[trigger] raw_subsystem@[j]),
                fresh@.len() == i,
                forall|j: int|
                    0 <= j < i ==> spec_is_converted_sub(#[trigger] fresh@[j], raw_subsystem@[j]),
            decreases end - i,
        {
            proof {
                assert(prefix[i as int] == raw_subsystem@[i as int]);
            }
            let sub = Self::convert_sub(&raw_subsystem[i]);
            match sub {
                Ok(sub) => {
                    fresh.push(sub);
                },
                Err(e) => {
                    proof {
                        assert(!spec_sub_ok(prefix[i as int]));
                    }
                    return Err(e);
                },
            }
            i += 1;
        }
        proof {
            assert(forall|j: int| 0 <= j < prefix.len() ==> prefix[j] == raw_subsystem@[j]);
        }
        self.subsystem.append(&mut fresh);
        Ok(())
    }
}

} // verus!
