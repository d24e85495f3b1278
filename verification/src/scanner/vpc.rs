//! VPCs and their subnets.

use vstd::prelude::*;
use crate::text::str_eq;
use super::{
    first_keys, keys_distinct, name_from_tags, name_tag_value, or_empty, string_or, tag_keys,
    tag_map, tags_from_raw, tags_view, RawTag,
};

verus! {

/// A VPC with the subnets that belong to it. `tags` holds each tag key once,
/// in no particular order.
#[derive(Debug, Clone)]
pub struct VpcInfo {
    pub id: String,
    pub name: String,
    pub cidr: String,
    pub subnets: Vec<Subnet>,
    pub tags: Vec<(String, String)>,
}

impl VpcInfo {
    /// The invariant of a VPC: no tag key occurs twice, as in the tag map
    /// that it stands for. Every constructor of the scanner establishes it.
    pub open spec fn well_formed(&self) -> bool {
        keys_distinct(self.tags@)
    }
}

/// A subnet of a VPC.
#[derive(Debug, Clone)]
pub struct Subnet {
    pub id: String,
    pub name: String,
    pub cidr: String,
    pub availability_zone: String,
    pub map_public_ip: bool,
}

/// A VPC as an AWS response carries it.
pub struct RawVpc {
    pub vpc_id: Option<String>,
    pub cidr_block: Option<String>,
    pub tags: Vec<RawTag>,
}

/// A subnet as an AWS response carries it.
pub struct RawSubnet {
    pub subnet_id: Option<String>,
    pub vpc_id: Option<String>,
    pub cidr_block: Option<String>,
    pub availability_zone: Option<String>,
    pub map_public_ip_on_launch: Option<bool>,
    pub tags: Vec<RawTag>,
}

/// Whether a raw subnet names the VPC with the id `vpc_id`.
pub open spec fn belongs_to(sub: RawSubnet, vpc_id: Seq<char>) -> bool {
    sub.vpc_id is Some && sub.vpc_id->0@ == vpc_id
}

/// The raw subnets that name the VPC with the id `vpc_id`, in order.
pub open spec fn subnets_of(raws: Seq<RawSubnet>, vpc_id: Seq<char>) -> Seq<RawSubnet>
    decreases raws.len(),
{
    if raws.len() == 0 {
        Seq::empty()
    } else if belongs_to(raws.last(), vpc_id) {
        subnets_of(raws.drop_last(), vpc_id).push(raws.last())
    } else {
        subnets_of(raws.drop_last(), vpc_id)
    }
}

/// How a subnet is read from its raw description: its name is its `Name`
/// tag, else its id; it maps no public IP unless it says so.
pub open spec fn subnet_matches(sub: Subnet, raw: RawSubnet) -> bool {
    &&& sub.id@ == or_empty(raw.subnet_id)
    &&& sub.name@ == match name_tag_value(raw.tags@) {
        Some(n) => n,
        None => or_empty(raw.subnet_id),
    }
    &&& sub.cidr@ == or_empty(raw.cidr_block)
    &&& sub.availability_zone@ == or_empty(raw.availability_zone)
    &&& sub.map_public_ip == match raw.map_public_ip_on_launch {
        Some(b) => b,
        None => false,
    }
}

/// How a VPC is read from its raw description and the raw subnets of the
/// region: its name is its `Name` tag, else its id; its subnets are those
/// that name its id, in order.
pub open spec fn vpc_matches(vpc: VpcInfo, raw: RawVpc, subnets: Seq<RawSubnet>) -> bool {
    let mine = subnets_of(subnets, or_empty(raw.vpc_id));
    &&& vpc.id@ == or_empty(raw.vpc_id)
    &&& vpc.name@ == match name_tag_value(raw.tags@) {
        Some(n) => n,
        None => or_empty(raw.vpc_id),
    }
    &&& vpc.cidr@ == or_empty(raw.cidr_block)
    &&& vpc.subnets@.len() == mine.len()
    &&& forall|i: int| 0 <= i < mine.len() ==> subnet_matches(#[trigger] vpc.subnets@[i], mine[i])
    &&& vpc.well_formed()
    &&& tags_view(vpc.tags@) == tag_map(raw.tags@)
    &&& tag_keys(vpc.tags@) == first_keys(raw.tags@)
}

fn subnet_from_raw(raw: &RawSubnet) -> (sub: Subnet)
    ensures
        subnet_matches(sub, *raw),
{
    proof {
        reveal_strlit("");
    }
    let id = string_or(&raw.subnet_id, "");
    assert(id@ =~= or_empty(raw.subnet_id));
    let name = match name_from_tags(&raw.tags) {
        Some(n) => n,
        None => String::from_str(id.as_str()),
    };
    let cidr = string_or(&raw.cidr_block, "");
    let availability_zone = string_or(&raw.availability_zone, "");
    assert(cidr@ =~= or_empty(raw.cidr_block));
    assert(availability_zone@ =~= or_empty(raw.availability_zone));
    Subnet {
        id,
        name,
        cidr,
        availability_zone,
        map_public_ip: match raw.map_public_ip_on_launch {
            Some(b) => b,
            None => false,
        },
    }
}

fn belongs(sub: &RawSubnet, vpc_id: &str) -> (b: bool)
    ensures
        b == belongs_to(*sub, vpc_id@),
{
    match &sub.vpc_id {
        Some(v) => str_eq(v.as_str(), vpc_id),
        None => false,
    }
}

/// Read a VPC with its subnets (see `vpc_matches`).
pub fn vpc_from_raw(raw: &RawVpc, subnets: &Vec<RawSubnet>) -> (vpc: VpcInfo)
    ensures
        vpc_matches(vpc, *raw, subnets@),
{
    proof {
        reveal_strlit("");
    }
    let id = string_or(&raw.vpc_id, "");
    assert(id@ =~= or_empty(raw.vpc_id));
    let name = match name_from_tags(&raw.tags) {
        Some(n) => n,
        None => String::from_str(id.as_str()),
    };
    let cidr = string_or(&raw.cidr_block, "");
    assert(cidr@ =~= or_empty(raw.cidr_block));
    let mut mine: Vec<Subnet> = Vec::new();
    let mut i: usize = 0;
    while i < subnets.len()
        invariant
            i <= subnets.len(),
            mine@.len() == subnets_of(subnets@.take(i as int), id@).len(),
            forall|k: int|
                0 <= k < mine@.len() ==> subnet_matches(
                    #[trigger] mine@[k],
                    subnets_of(subnets@.take(i as int), id@)[k],
                ),
        decreases subnets.len() - i,
    {
        assert(subnets@.take(i + 1).drop_last() =~= subnets@.take(i as int));
        assert(subnets@.take(i + 1).last() == subnets@[i as int]);
        if belongs(&subnets[i], id.as_str()) {
            mine.push(subnet_from_raw(&subnets[i]));
        }
        i = i + 1;
    }
    assert(subnets@.take(subnets.len() as int) =~= subnets@);
    VpcInfo { id, name, cidr, subnets: mine, tags: tags_from_raw(&raw.tags) }
}

/// Read every VPC of a region with its subnets, in order.
pub fn vpcs_from_raw(vpcs: &Vec<RawVpc>, subnets: &Vec<RawSubnet>) -> (r: Vec<VpcInfo>)
    ensures
        r@.len() == vpcs@.len(),
        forall|i: int| 0 <= i < r@.len() ==> vpc_matches(#[trigger] r@[i], vpcs@[i], subnets@),
{
    let mut r: Vec<VpcInfo> = Vec::new();
    let mut i: usize = 0;
    while i < vpcs.len()
        invariant
            i <= vpcs.len(),
            r@.len() == i,
            forall|j: int| 0 <= j < i ==> vpc_matches(#[trigger] r@[j], vpcs@[j], subnets@),
        decreases vpcs.len() - i,
    {
        r.push(vpc_from_raw(&vpcs[i], subnets));
        i = i + 1;
    }
    r
}


/// A subnet read from its raw description carries its id, CIDR block and
/// availability zone (empty where absent), maps public IPs exactly when it
/// says so, and is named by its `Name` tag, else its id.
pub proof fn lemma_subnet_from_raw_fields(sub: Subnet, raw: RawSubnet)
    requires
        subnet_matches(sub, raw),
    ensures
        raw.subnet_id matches Some(x) ==> sub.id@ == x@,
        raw.cidr_block matches Some(x) ==> sub.cidr@ == x@,
        raw.availability_zone matches Some(x) ==> sub.availability_zone@ == x@,
        raw.map_public_ip_on_launch matches Some(b) ==> sub.map_public_ip == b,
        raw.map_public_ip_on_launch is None ==> !sub.map_public_ip,
        name_tag_value(raw.tags@) matches Some(n) ==> sub.name@ == n,
        name_tag_value(raw.tags@) is None ==> sub.name@ == sub.id@,
{
}

/// A VPC read from its raw description carries its id and CIDR block, is
/// named by its `Name` tag, else its id, holds one subnet per raw subnet that
/// names its id, in order, and its tags as their map.
pub proof fn lemma_vpc_from_raw_fields(vpc: VpcInfo, raw: RawVpc, subnets: Seq<RawSubnet>)
    requires
        vpc_matches(vpc, raw, subnets),
    ensures
        raw.vpc_id matches Some(x) ==> vpc.id@ == x@,
        raw.cidr_block matches Some(x) ==> vpc.cidr@ == x@,
        name_tag_value(raw.tags@) matches Some(n) ==> vpc.name@ == n,
        name_tag_value(raw.tags@) is None ==> vpc.name@ == vpc.id@,
        vpc.subnets@.len() == subnets_of(subnets, vpc.id@).len(),
        forall|i: int|
            0 <= i < vpc.subnets@.len() ==> subnet_matches(
                #[trigger] vpc.subnets@[i],
                subnets_of(subnets, vpc.id@)[i],
            ),
        tags_view(vpc.tags@) == tag_map(raw.tags@),
        keys_distinct(vpc.tags@),
{
}

/// The subnets of a VPC are exactly the raw subnets that name it, in order.
pub proof fn lemma_subnets_of(raws: Seq<RawSubnet>, vpc_id: Seq<char>)
    ensures
        forall|s: RawSubnet| subnets_of(raws, vpc_id).contains(s) ==> belongs_to(s, vpc_id) && raws.contains(s),
        forall|i: int|
            0 <= i < raws.len() && belongs_to(#[trigger] raws[i], vpc_id) ==> subnets_of(
                raws,
                vpc_id,
            ).contains(raws[i]),
        subnets_of(raws, vpc_id) == raws.filter(|s: RawSubnet| belongs_to(s, vpc_id)),
    decreases raws.len(),
{
    reveal(Seq::filter);
    if raws.len() > 0 {
        let d = raws.drop_last();
        lemma_subnets_of(d, vpc_id);
        let r = subnets_of(raws, vpc_id);
        let rd = subnets_of(d, vpc_id);
        assert forall|s: RawSubnet| r.contains(s) implies belongs_to(s, vpc_id) && raws.contains(s) by {
            let m = choose|m: int| 0 <= m < r.len() && r[m] == s;
            if m < rd.len() {
                assert(rd[m] == s);
                assert(rd.contains(s));
                let k = choose|k: int| 0 <= k < d.len() && d[k] == s;
                assert(raws[k] == s);
            } else {
                assert(raws[raws.len() - 1] == s);
            }
        }
        assert forall|i: int|
            0 <= i < raws.len() && belongs_to(#[trigger] raws[i], vpc_id) implies r.contains(
            raws[i],
        ) by {
            if i < raws.len() - 1 {
                assert(d[i] == raws[i]);
                assert(rd.contains(raws[i]));
                let m = choose|m: int| 0 <= m < rd.len() && rd[m] == raws[i];
                assert(r[m] == raws[i]);
            } else {
                assert(r[r.len() - 1] == raws[i]);
            }
        }
    }
}

} // verus!
