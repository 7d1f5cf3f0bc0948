//! Command-line argument handling: `--key=value` pairs naming the core
//! library and the ROM to load.  The embedding application collects the
//! raw argument strings; everything here works on plain values.

use vstd::prelude::*;

use crate::erro_handle::ErroHandle;
use crate::tools::{
    spec_contains, spec_remove_all, spec_split, spec_starts_with, contains_str, remove_all,
    split_str, starts_with_str,
};

verus! {

/// The pieces of an argument after the leading-dash removal, split on
/// `=`: `--core=x` yields `["core", "x"]`.
pub open spec fn spec_arg_pieces(arg: Seq<char>) -> Seq<Seq<char>> {
    spec_split(spec_remove_all(arg, seq!['-', '-']), '=')
}

/// The `(key, value)` reading of one argument: for a `--`-prefixed
/// argument, the piece before the last `=` and the piece after it;
/// anything else — including a dashed argument without `=` — reads as
/// two empty strings.
pub open spec fn spec_key_value(arg: Seq<char>) -> (Seq<char>, Seq<char>) {
    if spec_starts_with(arg, seq!['-', '-']) {
        let p = spec_arg_pieces(arg);
        if p.len() >= 2 {
            (p[p.len() - 2], p[p.len() - 1])
        } else {
            (Seq::empty(), Seq::empty())
        }
    } else {
        (Seq::empty(), Seq::empty())
    }
}

/// The position of the first argument containing `key`, or -1.
pub open spec fn spec_first_match_index(args: Seq<Seq<char>>, key: Seq<char>) -> int
    decreases args.len(),
{
    if args.len() == 0 {
        -1
    } else if spec_contains(args[0], key) {
        0
    } else {
        let r = spec_first_match_index(args.drop_first(), key);
        if r == -1 {
            -1
        } else {
            r + 1
        }
    }
}

proof fn lemma_first_match_found(args: Seq<Seq<char>>, key: Seq<char>, i: int)
    requires
        0 <= i < args.len(),
        spec_contains(args[i], key),
        forall|j: int| 0 <= j < i ==> !spec_contains(#[trigger] args[j], key),
    ensures
        spec_first_match_index(args, key) == i,
    decreases i,
{
    if i > 0 {
        lemma_first_match_found(args.drop_first(), key, i - 1);
    }
}

proof fn lemma_first_match_none(args: Seq<Seq<char>>, key: Seq<char>)
    requires
        forall|j: int| 0 <= j < args.len() ==> !spec_contains(#[trigger] args[j], key),
    ensures
        spec_first_match_index(args, key) == -1,
    decreases args.len(),
{
    if args.len() > 0 {
        lemma_first_match_none(args.drop_first(), key);
    }
}

/// Reads one `--key=value` argument, as [`spec_key_value`] defines it.
pub fn get_key_and_value(arg: &str) -> (r: (String, String))
    ensures
        r.0@ == spec_key_value(arg@).0,
        r.1@ == spec_key_value(arg@).1,
{
    proof {
        reveal_strlit("--");
        assert("--"@ =~= seq!['-', '-']);
    }
    if starts_with_str(arg, "--") {
        let stripped = remove_all(arg, "--");
        let pieces = split_str(stripped.as_str(), '=');
        let n = pieces.len();
        proof {
            assert(pieces.deep_view().len() == n);
        }
        if n >= 2 {
            proof {
                assert(pieces.deep_view()[n - 2] == pieces@[n - 2]@);
                assert(pieces.deep_view()[n - 1] == pieces@[n - 1]@);
            }
            let key = pieces[n - 2].clone();
            let value = pieces[n - 1].clone();
            (key, value)
        } else {
            (String::new(), String::new())
        }
    } else {
        (String::new(), String::new())
    }
}

/// Looks `key` up among the arguments: the first argument containing
/// the key text decides, and succeeds only when it reads as a
/// non-empty-keyed `--key=value` pair.
pub fn get_value(args: &Vec<String>, key: &str) -> (r: Result<String, ErroHandle>)
    ensures
        ({
            let i = spec_first_match_index(args.deep_view(), key@);
            &&& (r is Ok <==> (i >= 0 && spec_key_value(args.deep_view()[i]).0.len() > 0))
            &&& (r matches Ok(v) ==> v@ == spec_key_value(args.deep_view()[i]).1)
            &&& (r matches Err(e) ==> e.level
                == crate::erro_handle::RetroLogLevel::RETRO_LOG_ERROR)
        }),
{
    let ghost dv = args.deep_view();
    let n = args.len();
    let mut i: usize = 0;
    proof {
        assert(dv.len() == n);
    }
    while i < n
        invariant
            0 <= i <= n,
            n == args@.len(),
            dv == args.deep_view(),
            dv.len() == n,
            forall|j: int| 0 <= j < i ==> !spec_contains(#[trigger] dv[j], key@),
        decreases n - i,
    {
        proof {
            assert(dv[i as int] == args@[i as int]@);
        }
        if contains_str(args[i].as_str(), key) {
            proof {
                lemma_first_match_found(dv, key@, i as int);
            }
            let kv = get_key_and_value(args[i].as_str());
            if kv.0.as_str().unicode_len() > 0 {
                return Ok(kv.1);
            } else {
                return Err(ErroHandle::error("value not found among the arguments".to_owned()));
            }
        }
        i += 1;
    }
    proof {
        lemma_first_match_none(dv, key@);
    }
    Err(ErroHandle::error("value not found among the arguments".to_owned()))
}

/// The core and ROM paths the embedder was started with.
pub struct RetroArgs {
    pub core: String,
    pub rom: String,
}

impl RetroArgs {
    /// Reads `--core=` and `--rom=` from the collected arguments.
    pub fn new(args: &Vec<String>) -> (r: Result<RetroArgs, ErroHandle>)
        ensures
            ({
                let dv = args.deep_view();
                let ci = spec_first_match_index(dv, "--core="@);
                let ri = spec_first_match_index(dv, "--rom="@);
                let core_ok = ci >= 0 && spec_key_value(dv[ci]).0.len() > 0;
                let rom_ok = ri >= 0 && spec_key_value(dv[ri]).0.len() > 0;
                &&& (r is Ok <==> (core_ok && rom_ok))
                &&& (r matches Ok(a) ==> a.core@ == spec_key_value(dv[ci]).1 && a.rom@
                    == spec_key_value(dv[ri]).1)
            }),
    {
        let core_value = get_value(args, "--core=");
        let core = match core_value {
            Ok(v) => v,
            Err(e) => {
                return Err(e);
            },
        };
        let rom_value = get_value(args, "--rom=");
        let rom = match rom_value {
            Ok(v) => v,
            Err(e) => {
                return Err(e);
            },
        };
        Ok(RetroArgs { core, rom })
    }
}

/// The `(key, value)` pairs the collector recognizes, in encounter
/// order: for each argument, one pair per marker text (`--core=`, then
/// `--rom=`) it contains, provided the argument reads with a non-empty
/// key.
pub open spec fn spec_cli_pairs(args: Seq<Seq<char>>) -> Seq<(Seq<char>, Seq<char>)>
    decreases args.len(),
{
    if args.len() == 0 {
        Seq::empty()
    } else {
        let head = args[0];
        let kv = spec_key_value(head);
        let core_part: Seq<(Seq<char>, Seq<char>)> = if spec_contains(head, "--core="@)
            && kv.0.len() > 0 {
            seq![kv]
        } else {
            Seq::empty()
        };
        let rom_part: Seq<(Seq<char>, Seq<char>)> = if spec_contains(head, "--rom="@)
            && kv.0.len() > 0 {
            seq![kv]
        } else {
            Seq::empty()
        };
        core_part + rom_part + spec_cli_pairs(args.drop_first())
    }
}

proof fn lemma_cli_pairs_step(args: Seq<Seq<char>>, i: int)
    requires
        0 <= i < args.len(),
    ensures
        ({
            let head = args[i];
            let kv = spec_key_value(head);
            let core_part: Seq<(Seq<char>, Seq<char>)> = if spec_contains(head, "--core="@)
                && kv.0.len() > 0 {
                seq![kv]
            } else {
                Seq::empty()
            };
            let rom_part: Seq<(Seq<char>, Seq<char>)> = if spec_contains(head, "--rom="@)
                && kv.0.len() > 0 {
                seq![kv]
            } else {
                Seq::empty()
            };
            spec_cli_pairs(args.skip(i)) == core_part + rom_part + spec_cli_pairs(args.skip(i + 1))
        }),
{
    assert(args.skip(i).drop_first() =~= args.skip(i + 1));
    assert(args.skip(i)[0] == args[i]);
}

/// Collects the recognized `(key, value)` pairs in encounter order.
pub fn get_value_pairs(args: &Vec<String>) -> (r: Vec<(String, String)>)
    ensures
        r@.len() == spec_cli_pairs(args.deep_view()).len(),
        forall|j: int|
            0 <= j < r@.len() ==> (#[trigger] r@[j]).0@ == spec_cli_pairs(args.deep_view())[j].0
                && r@[j].1@ == spec_cli_pairs(args.deep_view())[j].1,
{
    let ghost dv = args.deep_view();
    let ghost target = spec_cli_pairs(dv);
    let mut pairs: Vec<(String, String)> = Vec::new();
    let n = args.len();
    let mut i: usize = 0;
    proof {
        assert(dv.skip(0) =~= dv);
        assert(dv.len() == n);
    }
    while i < n
        invariant
            0 <= i <= n,
            n == args@.len(),
            dv == args.deep_view(),
            dv.len() == n,
            target == spec_cli_pairs(dv),
            target =~= spec_pairs_prefix(pairs@) + spec_cli_pairs(dv.skip(i as int)),
        decreases n - i,
    {
        proof {
            lemma_cli_pairs_step(dv, i as int);
            assert(dv[i as int] == args@[i as int]@);
        }
        let arg = &args[i];
        if contains_str(arg.as_str(), "--core=") {
            let kv = get_key_and_value(arg.as_str());
            if kv.0.as_str().unicode_len() > 0 {
                let ghost before = pairs@;
                pairs.push(kv);
                proof {
                    assert(spec_pairs_prefix(pairs@) =~= spec_pairs_prefix(before).push(
                        (pairs@[pairs@.len() - 1].0@, pairs@[pairs@.len() - 1].1@),
                    ));
                }
            }
        }
        if contains_str(arg.as_str(), "--rom=") {
            let kv = get_key_and_value(arg.as_str());
            if kv.0.as_str().unicode_len() > 0 {
                let ghost before = pairs@;
                pairs.push(kv);
                proof {
                    assert(spec_pairs_prefix(pairs@) =~= spec_pairs_prefix(before).push(
                        (pairs@[pairs@.len() - 1].0@, pairs@[pairs@.len() - 1].1@),
                    ));
                }
            }
        }
        proof {
            assert(spec_pairs_prefix(pairs@) + spec_cli_pairs(dv.skip(i + 1)) =~= target);
        }
        i += 1;
    }
    proof {
        assert(dv.skip(n as int) =~= Seq::<Seq<char>>::empty());
        assert(spec_pairs_prefix(pairs@) =~= target);
    }
    pairs
}

/// The ghost image of an accumulated pair list.
pub open spec fn spec_pairs_prefix(pairs: Seq<(String, String)>) -> Seq<(Seq<char>, Seq<char>)> {
    Seq::new(pairs.len(), |j: int| (pairs[j].0@, pairs[j].1@))
}

/// Collects the recognized pairs into a key-to-value table, later
/// pairs for the same key overwriting earlier ones.  The pair list
/// itself — with its exact contract — comes from
/// [`get_value_pairs`]; this wrapper only changes the container.
pub fn get_values(args: Vec<String>) -> (r: std::collections::HashMap<String, String>)
    ensures
        vstd::std_specs::hash::obeys_key_model::<String>()
            && vstd::std_specs::hash::builds_valid_hashers::<
            std::collections::hash_map::RandomState,
        >() ==> r@.len() <= spec_cli_pairs(args.deep_view()).len(),
{
    let pairs = get_value_pairs(&args);
    let mut values: std::collections::HashMap<String, String> =
        std::collections::HashMap::new();
    let n = pairs.len();
    let mut i: usize = 0;
    proof {
        broadcast use vstd::set::group_set_axioms;

        assert(values@.dom() =~= Set::<String>::empty());
    }
    while i < n
        invariant
            0 <= i <= n,
            n == pairs@.len(),
            n == spec_cli_pairs(args.deep_view()).len(),
            vstd::std_specs::hash::obeys_key_model::<String>()
                && vstd::std_specs::hash::builds_valid_hashers::<
                std::collections::hash_map::RandomState,
            >() ==> values@.dom().finite() && values@.len() <= i,
        decreases n - i,
    {
        let pair_key = pairs[i].0.clone();
        let pair_value = pairs[i].1.clone();
        let ghost prev_map = values@;
        let ghost inserted_key = pair_key;
        values.insert(pair_key, pair_value);
        proof {
            if vstd::std_specs::hash::obeys_key_model::<String>()
                && vstd::std_specs::hash::builds_valid_hashers::<
                std::collections::hash_map::RandomState,
            >() {
                assert(values@.dom() =~= prev_map.dom().insert(inserted_key));
                vstd::set::axiom_set_insert_len(prev_map.dom(), inserted_key);
            }
        }
        i += 1;
    }
    values
}

} // verus!
