//! Controller port metadata a core declares: for each port, the
//! selectable controller types.
//!
//! The core hands the frontend a fixed-size C array per port; the
//! embedding application converts it into a [`RawControllerInfo`]
//! (a null description becomes `None`), and the verified conversion
//! below keeps the first `num_types` entries that carry a description.

use vstd::prelude::*;

use crate::erro_handle::ErroHandle;

verus! {

/// One selectable controller type, as read from the raw C array; a
/// null description pointer is `None`.
#[derive(Clone, Debug)]
pub struct RawControllerDescription {
    pub desc: Option<String>,
    pub id: u32,
}

/// One port's raw controller declaration: the declared count and the
/// C array's entries, at most the documented maximum of them.
#[derive(Clone, Debug)]
pub struct RawControllerInfo {
    pub types: Vec<RawControllerDescription>,
    pub num_types: u32,
}

/// One selectable controller type of a port.
#[derive(Clone, Debug)]
pub struct ControllerDescription {
    pub desc: String,
    pub id: u32,
}

/// The selectable controller types of one port.
#[derive(Clone, Debug)]
pub struct ControllerInfo {
    pub types: Vec<ControllerDescription>,
    pub num_types: u32,
}

/// The entries of `s` that carry a description, converted in order.
pub open spec fn spec_described_types(s: Seq<RawControllerDescription>) -> Seq<
    ControllerDescription,
>
    decreases s.len(),
{
    if s.len() == 0 {
        Seq::empty()
    } else if s[0].desc is Some {
        seq![
            ControllerDescription { desc: s[0].desc->Some_0, id: s[0].id },
        ] + spec_described_types(s.drop_first())
    } else {
        spec_described_types(s.drop_first())
    }
}

proof fn lemma_described_types_step(s: Seq<RawControllerDescription>, i: int)
    requires
        0 <= i < s.len(),
    ensures
        s[i].desc is Some ==> spec_described_types(s.skip(i)) == seq![
            ControllerDescription { desc: s[i].desc->Some_0, id: s[i].id },
        ] + spec_described_types(s.skip(i + 1)),
        s[i].desc is None ==> spec_described_types(s.skip(i)) == spec_described_types(
            s.skip(i + 1),
        ),
{
    assert(s.skip(i).drop_first() =~= s.skip(i + 1));
}

/// The port entries before the first sentinel (an entry declaring zero
/// types).
pub open spec fn spec_ctr_prefix(s: Seq<RawControllerInfo>) -> Seq<RawControllerInfo>
    decreases s.len(),
{
    if s.len() == 0 || s[0].num_types == 0 {
        Seq::empty()
    } else {
        seq![s[0]] + spec_ctr_prefix(s.drop_first())
    }
}

/// Whether `info` is the converted form of the raw port entry `raw`.
pub open spec fn spec_is_converted_port(info: ControllerInfo, raw: RawControllerInfo) -> bool {
    &&& info.num_types == raw.num_types
    &&& info.types@ == spec_described_types(raw.types@.subrange(0, raw.num_types as int))
}

proof fn lemma_ctr_prefix_step(s: Seq<RawControllerInfo>, i: int)
    requires
        0 <= i < s.len(),
    ensures
        s[i].num_types != 0 ==> spec_ctr_prefix(s.skip(i)) == seq![s[i]] + spec_ctr_prefix(
            s.skip(i + 1),
        ),
        s[i].num_types == 0 ==> spec_ctr_prefix(s.skip(i)) == Seq::<RawControllerInfo>::empty(),
{
    assert(s.skip(i).drop_first() =~= s.skip(i + 1));
}

/// The number of port entries before the first sentinel.
fn ctr_prefix_end(raw_infos: &Vec<RawControllerInfo>) -> (end: usize)
    ensures
        end <= raw_infos@.len(),
        spec_ctr_prefix(raw_infos@) == raw_infos@.subrange(0, end as int),
        forall|j: int| 0 <= j < end ==> (#[trigger] raw_infos@[j]).num_types != 0,
{
    let n = raw_infos.len();
    let mut i: usize = 0;
    assert(raw_infos@.skip(0) =~= raw_infos@);
    while i < n
        invariant
            0 <= i <= n,
            n == raw_infos@.len(),
            forall|j: int| 0 <= j < i ==> (#[trigger] raw_infos@[j]).num_types != 0,
            spec_ctr_prefix(raw_infos@) =~= raw_infos@.subrange(0, i as int) + spec_ctr_prefix(
                raw_infos@.skip(i as int),
            ),
        decreases n - i,
    {
        proof {
            lemma_ctr_prefix_step(raw_infos@, i as int);
        }
        if raw_infos[i].num_types == 0 {
            proof {
                assert(raw_infos@.subrange(0, i as int) + Seq::<RawControllerInfo>::empty()
                    =~= raw_infos@.subrange(0, i as int));
            }
            return i;
        }
        proof {
            assert(raw_infos@.subrange(0, i as int) + (seq![raw_infos@[i as int]]
                + spec_ctr_prefix(raw_infos@.skip(i + 1))) =~= raw_infos@.subrange(0, i + 1)
                + spec_ctr_prefix(raw_infos@.skip(i + 1)));
        }
        i += 1;
    }
    proof {
        assert(raw_infos@.skip(n as int) =~= Seq::<RawControllerInfo>::empty());
        assert(raw_infos@.subrange(0, n as int) + Seq::<RawControllerInfo>::empty() =~= raw_infos@
            .subrange(0, n as int));
    }
    n
}

/// Converts a sentinel-terminated port array into the declared port
/// list.  Fails — converting nothing — when any entry before the
/// sentinel declares more types than its array holds.
pub fn convert_ports(raw_infos: &Vec<RawControllerInfo>) -> (r: Result<
    Vec<ControllerInfo>,
    ErroHandle,
>)
    ensures
        r is Ok <==> (forall|j: int|
            0 <= j < spec_ctr_prefix(raw_infos@).len() ==> (#[trigger] spec_ctr_prefix(
                raw_infos@,
            )[j]).num_types <= spec_ctr_prefix(raw_infos@)[j].types@.len()),
        r matches Ok(ports) ==> ports@.len() == spec_ctr_prefix(raw_infos@).len() && (forall|
            j: int,
        |
            0 <= j < spec_ctr_prefix(raw_infos@).len() ==> spec_is_converted_port(
                #[trigger] ports@[j],
                spec_ctr_prefix(raw_infos@)[j],
            )),
        r matches Err(e) ==> e.level == crate::erro_handle::RetroLogLevel::RETRO_LOG_ERROR,
{
    let ghost prefix = spec_ctr_prefix(raw_infos@);
    let end = ctr_prefix_end(raw_infos);
    let mut ports: Vec<ControllerInfo> = Vec::new();
    let mut i: usize = 0;
    while i < end
        invariant
            0 <= i <= end,
            end <= raw_infos@.len(),
            prefix == spec_ctr_prefix(raw_infos@),
            prefix == raw_infos@.subrange(0, end as int),
            forall|j: int| 0 <= j < i ==> (#[trigger] raw_infos@[j]).num_types <= raw_infos@[j].types@.len(),
            ports@.len() == i,
            forall|j: int|
                0 <= j < i ==> spec_is_converted_port(#[trigger] ports@[j], raw_infos@[j]),
        decreases end - i,
    {
        proof {
            assert(prefix[i as int] == raw_infos@[i as int]);
        }
        let converted = get_controller_info(&raw_infos[i]);
        match converted {
            Ok(info) => {
                ports.push(info);
            },
            Err(e) => {
                proof {
                    assert(prefix[i as int].num_types > prefix[i as int].types@.len());
                }
                return Err(e);
            },
        }
        i += 1;
    }
    proof {
        assert(forall|j: int| 0 <= j < prefix.len() ==> prefix[j] == raw_infos@[j]);
    }
    Ok(ports)
}

/// Converts one port's raw declaration.  Fails when the declared count
/// exceeds what the array can hold — an unexpected shape the scan must
/// not walk past.
pub fn get_controller_info(raw_ctr_info: &RawControllerInfo) -> (r: Result<
    ControllerInfo,
    ErroHandle,
>)
    ensures
        r is Ok <==> raw_ctr_info.num_types <= raw_ctr_info.types@.len(),
        r matches Err(e) ==> e.level == crate::erro_handle::RetroLogLevel::RETRO_LOG_ERROR,
        r matches Ok(info) ==> {
            &&& info.num_types == raw_ctr_info.num_types
            &&& info.types@ == spec_described_types(
                raw_ctr_info.types@.subrange(0, raw_ctr_info.num_types as int),
            )
        },
{
    let count = raw_ctr_info.num_types as usize;
    if count > raw_ctr_info.types.len() {
        return Err(
            ErroHandle::error(
                "controller info declares more types than the array holds".to_owned(),
            ),
        );
    }
    let ghost declared = raw_ctr_info.types@.subrange(0, raw_ctr_info.num_types as int);
    let mut types: Vec<ControllerDescription> = Vec::new();
    let mut i: usize = 0;
    assert(declared.skip(0) =~= declared);
    while i < count
        invariant
            0 <= i <= count,
            count == raw_ctr_info.num_types,
            count <= raw_ctr_info.types@.len(),
            declared == raw_ctr_info.types@.subrange(0, count as int),
            spec_described_types(declared) == types@ + spec_described_types(
                declared.skip(i as int),
            ),
        decreases count - i,
    {
        let raw_type = &raw_ctr_info.types[i];
        proof {
            lemma_described_types_step(declared, i as int);
            assert(declared[i as int] == raw_ctr_info.types@[i as int]);
        }
        match &raw_type.desc {
            Some(desc) => {
                let ghost old_types = types@;
                let converted = ControllerDescription { desc: desc.clone(), id: raw_type.id };
                types.push(converted);
                proof {
                    let head = ControllerDescription {
                        desc: declared[i as int].desc->Some_0,
                        id: declared[i as int].id,
                    };
                    assert(types@ =~= old_types + seq![head]);
                    assert(old_types + (seq![head] + spec_described_types(declared.skip(i + 1)))
                        =~= (old_types + seq![head]) + spec_described_types(declared.skip(i + 1)));
                }
            },
            None => {},
        }
        i += 1;
    }
    proof {
        assert(declared.skip(count as int) =~= Seq::<RawControllerDescription>::empty());
        assert(spec_described_types(declared) =~= types@);
    }
    Ok(ControllerInfo { types, num_types: raw_ctr_info.num_types })
}

} // verus!
