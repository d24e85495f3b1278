//! EC2 instances and their attached volumes.

use vstd::prelude::*;
use super::{
    copy_option, first_keys, keys_distinct, name_from_tags, name_tag_value, or_empty, or_text,
    present, present_strings, string_or, tag_keys, tag_map, tags_from_raw, tags_view, views, RawTag,
};

verus! {

/// An EC2 instance as the generators see it. `tags` holds each tag key once,
/// in no particular order.
#[derive(Debug, Clone)]
pub struct Ec2Instance {
    pub id: String,
    pub name: String,
    pub instance_type: String,
    pub ami: String,
    pub subnet_id: String,
    pub private_ip: String,
    pub security_groups: Vec<String>,
    pub key_name: Option<String>,
    pub volumes: Vec<AttachedVolume>,
    pub tags: Vec<(String, String)>,
}

impl Ec2Instance {
    /// The invariant of an instance: no tag key occurs twice, as in the tag map
    /// that it stands for. Every constructor of the scanner establishes it.
    pub open spec fn well_formed(&self) -> bool {
        keys_distinct(self.tags@)
    }
}

/// A block device attached to an instance.
#[derive(Debug, Clone)]
pub struct AttachedVolume {
    pub id: String,
    pub device_name: String,
    pub size_gb: i32,
    pub volume_type: String,
    pub encrypted: bool,
    pub delete_on_termination: bool,
}

/// A block device mapping as an AWS response carries it. `volume_id` and
/// `delete_on_termination` are those of its EBS volume (absent without one).
pub struct RawBlockDevice {
    pub device_name: Option<String>,
    pub volume_id: Option<String>,
    pub delete_on_termination: Option<bool>,
}

/// An instance as an AWS response carries it.
pub struct RawInstance {
    pub instance_id: Option<String>,
    pub instance_type: Option<String>,
    pub image_id: Option<String>,
    pub subnet_id: Option<String>,
    pub private_ip_address: Option<String>,
    pub key_name: Option<String>,
    pub security_group_ids: Vec<Option<String>>,
    pub block_devices: Vec<RawBlockDevice>,
    pub tags: Vec<RawTag>,
}

/// The volume made of a block device mapping: its ids, a size of 0 (the
/// mapping does not carry it), type `gp2`, not encrypted, deleted on
/// termination unless the mapping says otherwise.
pub open spec fn volume_matches(vol: AttachedVolume, raw: RawBlockDevice) -> bool {
    &&& vol.id@ == or_empty(raw.volume_id)
    &&& vol.device_name@ == or_empty(raw.device_name)
    &&& vol.size_gb == 0
    &&& vol.volume_type@ == "gp2"@
    &&& !vol.encrypted
    &&& vol.delete_on_termination == match raw.delete_on_termination {
        Some(b) => b,
        None => true,
    }
}

/// The name of an instance: its `Name` tag, else its id, else `unknown`.
pub open spec fn instance_name(raw: RawInstance) -> Seq<char> {
    match name_tag_value(raw.tags@) {
        Some(n) => n,
        None => or_text(raw.instance_id, "unknown"@),
    }
}

/// How an instance is read from its raw description.
pub open spec fn instance_matches(inst: Ec2Instance, raw: RawInstance) -> bool {
    &&& inst.id@ == or_empty(raw.instance_id)
    &&& inst.name@ == instance_name(raw)
    &&& inst.instance_type@ == or_text(raw.instance_type, "t3.micro"@)
    &&& inst.ami@ == or_empty(raw.image_id)
    &&& inst.subnet_id@ == or_empty(raw.subnet_id)
    &&& inst.private_ip@ == or_empty(raw.private_ip_address)
    &&& views(inst.security_groups@) == present(raw.security_group_ids@)
    &&& (match inst.key_name {
        Some(k) => raw.key_name is Some && k@ == raw.key_name->0@,
        None => raw.key_name is None,
    })
    &&& inst.volumes@.len() == raw.block_devices@.len()
    &&& forall|i: int|
        0 <= i < inst.volumes@.len() ==> volume_matches(
            #[trigger] inst.volumes@[i],
            raw.block_devices@[i],
        )
    &&& inst.well_formed()
    &&& tags_view(inst.tags@) == tag_map(raw.tags@)
    &&& tag_keys(inst.tags@) == first_keys(raw.tags@)
}

fn volume_from_raw(raw: &RawBlockDevice) -> (v: AttachedVolume)
    ensures
        volume_matches(v, *raw),
{
    proof {
        reveal_strlit("");
    }
    let id = string_or(&raw.volume_id, "");
    let device_name = string_or(&raw.device_name, "");
    assert(id@ =~= or_empty(raw.volume_id));
    assert(device_name@ =~= or_empty(raw.device_name));
    AttachedVolume {
        id,
        device_name,
        size_gb: 0,
        volume_type: String::from_str("gp2"),
        encrypted: false,
        delete_on_termination: match raw.delete_on_termination {
            Some(b) => b,
            None => true,
        },
    }
}

/// Read an instance from its raw description (see `instance_matches`).
pub fn instance_from_raw(raw: &RawInstance) -> (inst: Ec2Instance)
    ensures
        instance_matches(inst, *raw),
{
    proof {
        reveal_strlit("");
    }
    let name = match name_from_tags(&raw.tags) {
        Some(n) => n,
        None => string_or(&raw.instance_id, "unknown"),
    };
    let mut volumes: Vec<AttachedVolume> = Vec::new();
    let mut i: usize = 0;
    while i < raw.block_devices.len()
        invariant
            i <= raw.block_devices.len(),
            volumes@.len() == i,
            forall|j: int| 0 <= j < i ==> volume_matches(#[trigger] volumes@[j], raw.block_devices@[j]),
        decreases raw.block_devices.len() - i,
    {
        volumes.push(volume_from_raw(&raw.block_devices[i]));
        i = i + 1;
    }
    let id = string_or(&raw.instance_id, "");
    let ami = string_or(&raw.image_id, "");
    let subnet_id = string_or(&raw.subnet_id, "");
    let private_ip = string_or(&raw.private_ip_address, "");
    assert(id@ =~= or_empty(raw.instance_id));
    assert(ami@ =~= or_empty(raw.image_id));
    assert(subnet_id@ =~= or_empty(raw.subnet_id));
    assert(private_ip@ =~= or_empty(raw.private_ip_address));
    Ec2Instance {
        id,
        name,
        instance_type: string_or(&raw.instance_type, "t3.micro"),
        ami,
        subnet_id,
        private_ip,
        security_groups: present_strings(&raw.security_group_ids),
        key_name: copy_option(&raw.key_name),
        volumes,
        tags: tags_from_raw(&raw.tags),
    }
}

/// Read the instances of every reservation of a `DescribeInstances` answer,
/// reservation by reservation, in order.
pub fn instances_from_raw(reservations: &Vec<Vec<RawInstance>>) -> (r: Vec<Ec2Instance>)
    ensures
        r@.len() == reservations@.map_values(|v: Vec<RawInstance>| v@).flatten().len(),
        forall|k: int|
            0 <= k < r@.len() ==> instance_matches(
                #[trigger] r@[k],
                reservations@.map_values(|v: Vec<RawInstance>| v@).flatten()[k],
            ),
{
    let ghost all = reservations@.map_values(|v: Vec<RawInstance>| v@);
    let mut r: Vec<Ec2Instance> = Vec::new();
    let mut i: usize = 0;
    while i < reservations.len()
        invariant
            i <= reservations.len(),
            all == reservations@.map_values(|v: Vec<RawInstance>| v@),
            r@.len() == all.take(i as int).flatten().len(),
            forall|k: int|
                0 <= k < r@.len() ==> instance_matches(#[trigger] r@[k], all.take(i as int).flatten()[k]),
        decreases reservations.len() - i,
    {
        let group = &reservations[i];
        let ghost before = r@.len();
        proof {
            assert(all.take(i + 1) =~= all.take(i as int).push(group@));
            all.take(i as int).lemma_flatten_push(group@);
        }
        let mut j: usize = 0;
        while j < group.len()
            invariant
                j <= group.len(),
                i < reservations.len(),
                group@ == all[i as int],
                all == reservations@.map_values(|v: Vec<RawInstance>| v@),
                before == all.take(i as int).flatten().len(),
                all.take(i + 1).flatten() == all.take(i as int).flatten() + group@,
                r@.len() == before + j,
                forall|k: int|
                    0 <= k < r@.len() ==> instance_matches(
                        #[trigger] r@[k],
                        all.take(i + 1).flatten()[k],
                    ),
            decreases group.len() - j,
        {
            r.push(instance_from_raw(&group[j]));
            j = j + 1;
        }
        i = i + 1;
    }
    assert(all.take(reservations.len() as int) =~= all);
    r
}


/// An instance read from its raw description carries the raw id, AMI,
/// subnet id and private IP (empty where absent), its type (`t3.micro` where
/// absent), its key pair, the present security group ids, one volume per
/// block device, and its tags as their map; its name is its `Name` tag's
/// value, else its id, else `unknown`.
pub proof fn lemma_instance_from_raw_fields(inst: Ec2Instance, raw: RawInstance)
    requires
        instance_matches(inst, raw),
    ensures
        raw.instance_id matches Some(x) ==> inst.id@ == x@,
        raw.instance_id is None ==> inst.id@.len() == 0,
        raw.instance_type matches Some(x) ==> inst.instance_type@ == x@,
        raw.instance_type is None ==> inst.instance_type@ == "t3.micro"@,
        raw.image_id matches Some(x) ==> inst.ami@ == x@,
        raw.image_id is None ==> inst.ami@.len() == 0,
        raw.subnet_id matches Some(x) ==> inst.subnet_id@ == x@,
        raw.subnet_id is None ==> inst.subnet_id@.len() == 0,
        raw.private_ip_address matches Some(x) ==> inst.private_ip@ == x@,
        raw.private_ip_address is None ==> inst.private_ip@.len() == 0,
        raw.key_name is Some ==> inst.key_name is Some && inst.key_name->0@ == raw.key_name->0@,
        raw.key_name is None ==> inst.key_name is None,
        name_tag_value(raw.tags@) matches Some(n) ==> inst.name@ == n,
        name_tag_value(raw.tags@) is None && raw.instance_id is Some ==> inst.name@
            == raw.instance_id->0@,
        name_tag_value(raw.tags@) is None && raw.instance_id is None ==> inst.name@ == "unknown"@,
        views(inst.security_groups@) == present(raw.security_group_ids@),
        inst.volumes@.len() == raw.block_devices@.len(),
        forall|i: int|
            0 <= i < inst.volumes@.len() ==> {
                &&& (#[trigger] inst.volumes@[i]).id@ == or_empty(raw.block_devices@[i].volume_id)
                &&& inst.volumes@[i].device_name@ == or_empty(raw.block_devices@[i].device_name)
                &&& inst.volumes@[i].size_gb == 0
                &&& inst.volumes@[i].volume_type@ == "gp2"@
                &&& !inst.volumes@[i].encrypted
                &&& (raw.block_devices@[i].delete_on_termination matches Some(b)
                    ==> inst.volumes@[i].delete_on_termination == b)
                &&& (raw.block_devices@[i].delete_on_termination is None
                    ==> inst.volumes@[i].delete_on_termination)
            },
        tags_view(inst.tags@) == tag_map(raw.tags@),
        keys_distinct(inst.tags@),
{
    assert forall|i: int| 0 <= i < inst.volumes@.len() implies volume_matches(
        #[trigger] inst.volumes@[i],
        raw.block_devices@[i],
    ) by {}
}

} // verus!
