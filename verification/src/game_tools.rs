//! ROM path handling and save-state bookkeeping: the ROM's display
//! name, the slot file a state is saved under, and the exact-length
//! rule a state buffer must meet before it may reach the core.

use vstd::prelude::*;

use crate::erro_handle::ErroHandle;
use crate::tools::{spec_decimal, rfind_char, usize_to_string};

verus! {

/// The position of the last occurrence of `c` in `s`, or -1.
pub open spec fn spec_rfind(s: Seq<char>, c: char) -> int
    decreases s.len(),
{
    if s.len() == 0 {
        -1
    } else if s[s.len() - 1] == c {
        s.len() - 1
    } else {
        spec_rfind(s.drop_last(), c)
    }
}

proof fn lemma_rfind_at(s: Seq<char>, c: char, i: int)
    requires
        0 <= i < s.len(),
        s[i] == c,
        forall|j: int| i < j < s.len() ==> s[j] != c,
    ensures
        spec_rfind(s, c) == i,
    decreases s.len(),
{
    if i < s.len() - 1 {
        lemma_rfind_at(s.drop_last(), c, i);
    }
}

proof fn lemma_rfind_none(s: Seq<char>, c: char)
    requires
        forall|j: int| 0 <= j < s.len() ==> s[j] != c,
    ensures
        spec_rfind(s, c) == -1,
    decreases s.len(),
{
    if s.len() > 0 {
        lemma_rfind_none(s.drop_last(), c);
    }
}

/// The file-name portion of a path: everything after the last `/`.
pub open spec fn spec_file_name(path: Seq<char>) -> Seq<char> {
    path.subrange(spec_rfind(path, '/') + 1, path.len() as int)
}

/// The extension of a path's file name: what stands after the last
/// dot, provided that dot is neither absent nor the leading character
/// (a leading dot marks a hidden file, not an extension).
pub open spec fn spec_rom_extension(path: Seq<char>) -> Option<Seq<char>> {
    let name = spec_file_name(path);
    let d = spec_rfind(name, '.');
    if d <= 0 {
        None
    } else {
        Some(name.subrange(d + 1, name.len() as int))
    }
}

/// The file-name portion of `path`.
fn file_name_of(path: &str) -> (r: String)
    ensures
        r@ == spec_file_name(path@),
{
    let n = path.unicode_len();
    let slash = rfind_char(path, '/');
    match slash {
        Some(i) => {
            proof {
                lemma_rfind_at(path@, '/', i as int);
            }
            let name = path.substring_char(i + 1, n);
            name.to_owned()
        },
        None => {
            proof {
                lemma_rfind_none(path@, '/');
                assert(path@.subrange(0, n as int) =~= path@);
            }
            path.to_owned()
        },
    }
}

/// The extension of `path`, as [`spec_rom_extension`] defines it.
pub fn rom_extension(path: &str) -> (r: Option<String>)
    ensures
        match r {
            Some(e) => spec_rom_extension(path@) == Some(e@),
            None => spec_rom_extension(path@) is None,
        },
{
    let name = file_name_of(path);
    let m = name.as_str().unicode_len();
    let dot = rfind_char(name.as_str(), '.');
    match dot {
        Some(d) => {
            proof {
                lemma_rfind_at(name@, '.', d as int);
            }
            if d == 0 {
                None
            } else {
                let ext = name.as_str().substring_char(d + 1, m);
                Some(ext.to_owned())
            }
        },
        None => {
            proof {
                lemma_rfind_none(name@, '.');
            }
            None
        },
    }
}

/// The stem of a path's file name: everything before the last dot.
/// Meaningful only where [`spec_rom_extension`] finds an extension.
pub open spec fn spec_rom_stem(path: Seq<char>) -> Seq<char> {
    let name = spec_file_name(path);
    name.subrange(0, spec_rfind(name, '.'))
}

/// ROM helpers shared by the lifecycle controller and the embedder.
pub struct RomTools;

impl RomTools {
    /// The ROM's display name: the stem of its file name — what
    /// stands before the last dot.  A path without an extension is
    /// rejected.
    pub fn get_rom_name(path: &str) -> (r: Result<String, ErroHandle>)
        ensures
            r is Ok <==> spec_rom_extension(path@) is Some,
            r matches Ok(name) ==> name@ == spec_rom_stem(path@),
            r matches Err(e) ==> e.level == crate::erro_handle::RetroLogLevel::RETRO_LOG_ERROR,
    {
        let name = file_name_of(path);
        let dot = rfind_char(name.as_str(), '.');
        match dot {
            Some(d) => {
                proof {
                    lemma_rfind_at(name@, '.', d as int);
                }
                if d == 0 {
                    Err(ErroHandle::error("the rom path carries no extension".to_owned()))
                } else {
                    let stem = name.as_str().substring_char(0, d);
                    Ok(stem.to_owned())
                }
            },
            None => {
                proof {
                    lemma_rfind_none(name@, '.');
                }
                Err(ErroHandle::error("the rom path carries no extension".to_owned()))
            },
        }
    }

    /// The file a save state for `slot` lives in:
    /// `<save_root>/<rom_name>/<slot>.save`.
    pub fn get_save_path(save_root: &str, rom_name: &str, slot: usize) -> (r: String)
        ensures
            r@ == save_root@ + "/"@ + rom_name@ + "/"@ + spec_decimal(slot as nat) + ".save"@,
    {
        let mut path = save_root.to_owned();
        path.append("/");
        path.append(rom_name);
        path.append("/");
        let slot_text = usize_to_string(slot);
        path.append(slot_text.as_str());
        path.append(".save");
        path
    }

    /// The exact-length rule for restoring a state: the file's bytes
    /// must match the core's currently reported serialization size, or
    /// the buffer never reaches the core's deserialize entry.
    pub fn check_state_buffer(buffer_size: usize, core_expect_size: usize) -> (r: Result<
        (),
        ErroHandle,
    >)
        ensures
            r is Ok <==> buffer_size == core_expect_size,
            r matches Err(e) ==> e.level == crate::erro_handle::RetroLogLevel::RETRO_LOG_ERROR,
    {
        if buffer_size != core_expect_size {
            return Err(ErroHandle::error("the chosen state does not match the core".to_owned()));
        }
        Ok(())
    }
}

} // verus!
