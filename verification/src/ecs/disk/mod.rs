//! Disks of the per-instance ECS collector: which disk id each instance's devices carry.
use vstd::prelude::*;

use crate::json::{elements, elements_of, get, json_of, member, opt_text, parse_json, text, text_of, Json};
use crate::strmap::StrMap;
use crate::sv::aliyun::Timeline;

use super::Ecs;

pub mod rd_tps;

verus! {

/// One disk of a `DescribeDisks` answer: its `InstanceId`, `DiskId` and `Device`, each
/// `None` where the answer holds no string.
pub struct DiskRecord {
    pub instance_id: Option<String>,
    pub disk_id: Option<String>,
    pub device: Option<String>,
}

/// The disks of instance `k` after reading record `r`: a record of `k` with a disk id and
/// a device sets that device's disk id.
pub open spec fn disk_step(acc: Map<Seq<char>, String>, k: Seq<char>, r: DiskRecord) -> Map<
    Seq<char>,
    String,
> {
    match (r.instance_id, r.disk_id, r.device) {
        (Some(i), Some(d), Some(dev)) => if i@ == k {
            acc.insert(dev@, d)
        } else {
            acc
        },
        _ => acc,
    }
}

/// The disks of instance `k` after reading `records`, in order.
pub open spec fn disks_after(
    acc: Map<Seq<char>, String>,
    k: Seq<char>,
    records: Seq<DiskRecord>,
) -> Map<Seq<char>, String> {
    records.fold_left(acc, |a: Map<Seq<char>, String>, r: DiskRecord| disk_step(a, k, r))
}

/// Whether `r` is the record that entry `e` of a `DescribeDisks` answer gives: its
/// `InstanceId`, `DiskId` and `Device` strings, `None` where one is missing or no string.
pub open spec fn record_from(r: DiskRecord, e: Json) -> bool {
    &&& opt_text(r.instance_id) == text_of(member(e, "InstanceId"@))
    &&& opt_text(r.disk_id) == text_of(member(e, "DiskId"@))
    &&& opt_text(r.device) == text_of(member(e, "Device"@))
}

/// The entries of `Disks.Disk` up to the first null, of an answer `v`.
pub open spec fn disk_entries(v: Json) -> Seq<Json> {
    elements(member(member(v, "Disks"@), "Disk"@))
}

/// The disk records of a `DescribeDisks` answer of bytes `b`, one per entry of
/// `Disks.Disk` up to the first null; `None` when the bytes are not JSON or are null.
pub fn disks_of(b: &[u8]) -> (r: Option<Vec<DiskRecord>>)
    ensures
        match json_of(b@) {
            Some(v) => if v is Null {
                r is None
            } else {
                r matches Some(recs) && recs@.len() == disk_entries(v).len() && forall|i: int|
                    0 <= i < recs@.len() ==> record_from(
                        #[trigger] recs@[i],
                        disk_entries(v)[i],
                    )
            },
            None => r is None,
        },
{
    let v = match parse_json(b) {
        Some(v) => v,
        None => {
            return None;
        },
    };
    if let Json::Null = v {
        return None;
    }
    let list: Option<&Json> = match get(&v, "Disks") {
        Some(x) => get(x, "Disk"),
        None => None,
    };
    let items: Vec<&Json> = match list {
        Some(x) => elements_of(x),
        None => Vec::new(),
    };
    let ghost e = disk_entries(v);
    assert(member(Json::Null, "Disk"@) == Json::Null);
    assert(items@.len() == e.len());
    let mut out: Vec<DiskRecord> = Vec::new();
    let mut i: usize = 0;
    while i < items.len()
        invariant
            e == disk_entries(v),
            i <= items@.len(),
            items@.len() == e.len(),
            forall|k: int| 0 <= k < items@.len() ==> *(#[trigger] items@[k]) == e[k],
            out@.len() == i,
            forall|k: int| 0 <= k < i ==> record_from(#[trigger] out@[k], e[k]),
        decreases items@.len() - i,
    {
        let p = items[i];
        let r = DiskRecord {
            instance_id: text(get(p, "InstanceId")),
            disk_id: text(get(p, "DiskId")),
            device: text(get(p, "Device")),
        };
        assert(record_from(r, e[i as int]));
        out.push(r);
        i = i + 1;
    }
    Some(out)
}

/// The disk list query (`DescribeDisks`, 100 per page) of `region`, as the
/// command-line arguments of the Aliyun command-line client.
pub struct Meta;

impl Meta {
    pub fn argv_new(&self, region: String) -> (argv: Vec<String>)
        ensures
            argv@.map_values(|s: String| s@) == seq![
                "-region"@,
                region@,
                "-domain"@,
                "ecs.aliyuncs.com"@,
                "-apiName"@,
                "DescribeDisks"@,
                "-apiVersion"@,
                "2014-05-26"@,
                "Action"@,
                "DescribeDisks"@,
                "PageSize"@,
                "100"@,
            ],
    {
        let ghost r = region@;
        let mut argv: Vec<String> = Vec::new();
        argv.push("-region".to_owned());
        argv.push(region);
        argv.push("-domain".to_owned());
        argv.push("ecs.aliyuncs.com".to_owned());
        argv.push("-apiName".to_owned());
        argv.push("DescribeDisks".to_owned());
        argv.push("-apiVersion".to_owned());
        argv.push("2014-05-26".to_owned());
        argv.push("Action".to_owned());
        argv.push("DescribeDisks".to_owned());
        argv.push("PageSize".to_owned());
        argv.push("100".to_owned());
        assert(argv@.map_values(|s: String| s@) =~= seq![
            "-region"@,
            r,
            "-domain"@,
            "ecs.aliyuncs.com"@,
            "-apiName"@,
            "DescribeDisks"@,
            "-apiVersion"@,
            "2014-05-26"@,
            "Action"@,
            "DescribeDisks"@,
            "PageSize"@,
            "100"@,
        ]);
        argv
    }

    /// Records the disk ids of the listed disks of known instances, in order; disks of
    /// unknown instances, and records without a disk id or a device, are passed over.
    pub fn insert(&self, holder: &mut StrMap<Ecs>, records: &Vec<DiskRecord>)
        ensures
            forall|k: Seq<char>| #[trigger] final(holder)@.contains_key(k) == old(holder)@.contains_key(k),
            forall|k: Seq<char>|
                #[trigger] old(holder)@.contains_key(k) ==> final(holder)@[k].data == old(holder)@[k].data
                    && final(holder)@[k].disk@ == disks_after(old(holder)@[k].disk@, k, records@),
    {
        let mut i: usize = 0;
        while i < records.len()
            invariant
                i <= records@.len(),
                forall|k: Seq<char>| #[trigger] holder@.contains_key(k) == old(holder)@.contains_key(k),
                forall|k: Seq<char>|
                    #[trigger] old(holder)@.contains_key(k) ==> holder@[k].data == old(holder)@[k].data
                        && holder@[k].disk@ == disks_after(
                        old(holder)@[k].disk@,
                        k,
                        records@.take(i as int),
                    ),
            decreases records@.len() - i,
        {
            let r = &records[i];
            let ghost before = holder@;
            proof {
                assert forall|k: Seq<char>| #[trigger] old(holder)@.contains_key(k) implies disks_after(
                    old(holder)@[k].disk@,
                    k,
                    records@.take(i + 1),
                ) == disk_step(
                    disks_after(old(holder)@[k].disk@, k, records@.take(i as int)),
                    k,
                    records@[i as int],
                ) by {
                    assert(records@.take(i + 1).drop_last() =~= records@.take(i as int));
                    assert(records@.take(i + 1).last() == records@[i as int]);
                }
            }
            if let (Some(id), Some(d), Some(dev)) = (&r.instance_id, &r.disk_id, &r.device) {
                let blank = Ecs { data: Timeline::from_slots(0, 1, Vec::new()), disk: StrMap::new() };
                if let Some(mut e) = holder.swap_value(id.as_str(), blank) {
                    let ghost old_disk = e.disk@;
                    e.disk.insert(dev.clone(), d.clone());
                    let _ = holder.swap_value(id.as_str(), e);
                    proof {
                        assert forall|k: Seq<char>| #[trigger] old(holder)@.contains_key(k) implies holder@[k].data
                            == old(holder)@[k].data && holder@[k].disk@ == disk_step(
                            before[k].disk@,
                            k,
                            records@[i as int],
                        ) by {
                            if k == id@ {
                                assert(holder@[k].disk@ =~= old_disk.insert(dev@, *d));
                            } else {
                                assert(holder@[k] == before[k]);
                            }
                        }
                    }
                } else {
                    proof {
                        assert forall|k: Seq<char>| #[trigger] old(holder)@.contains_key(k) implies holder@[k].disk@
                            == disk_step(before[k].disk@, k, records@[i as int]) by {
                            assert(k != id@);
                        }
                    }
                }
            }
            i = i + 1;
        }
        assert(records@.take(records@.len() as int) =~= records@);
    }
}

} // verus!
