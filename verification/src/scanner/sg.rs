//! Security groups and their rules.

use vstd::prelude::*;
use crate::seqs::{find_first, lemma_find_first_skip};
use super::{
    first_keys, keys_distinct, or_empty, or_text, string_or, tag_keys, tag_map, tags_from_raw,
    tags_view, views, RawTag,
};

verus! {

/// A security group. `tags` holds each tag key once, in no particular order.
#[derive(Debug, Clone)]
pub struct SecurityGroup {
    pub id: String,
    pub name: String,
    pub description: String,
    pub vpc_id: String,
    pub ingress: Vec<Rule>,
    pub egress: Vec<Rule>,
    pub tags: Vec<(String, String)>,
}

impl SecurityGroup {
    /// The invariant of a group: no tag key occurs twice, as in the tag map
    /// that it stands for. Every constructor of the scanner establishes it.
    pub open spec fn well_formed(&self) -> bool {
        keys_distinct(self.tags@)
    }
}

/// One permission of a security group.
#[derive(Debug, Clone)]
pub struct Rule {
    pub protocol: String,
    pub from_port: i32,
    pub to_port: i32,
    pub cidr_blocks: Vec<String>,
    pub source_sg: Option<String>,
    pub description: String,
}

/// An IP range of a permission as an AWS response carries it.
pub struct RawIpRange {
    pub cidr_ip: Option<String>,
    pub description: Option<String>,
}

/// A permission as an AWS response carries it. `source_group_ids` holds the
/// group id (if any) of each of its user-id/group pairs.
pub struct RawPermission {
    pub ip_protocol: Option<String>,
    pub from_port: Option<i32>,
    pub to_port: Option<i32>,
    pub ip_ranges: Vec<RawIpRange>,
    pub source_group_ids: Vec<Option<String>>,
}

/// A security group as an AWS response carries it.
pub struct RawSecurityGroup {
    pub group_id: Option<String>,
    pub group_name: Option<String>,
    pub description: Option<String>,
    pub vpc_id: Option<String>,
    pub ingress: Vec<RawPermission>,
    pub egress: Vec<RawPermission>,
    pub tags: Vec<RawTag>,
}

/// The CIDR block of each IP range, empty where it has none.
pub open spec fn cidrs_of(ranges: Seq<RawIpRange>) -> Seq<Seq<char>> {
    ranges.map_values(|r: RawIpRange| or_empty(r.cidr_ip))
}

/// The test "is present" on optional strings.
pub open spec fn is_present() -> spec_fn(Option<String>) -> bool {
    |o: Option<String>| o is Some
}

/// The test "has a description" on IP ranges.
pub open spec fn has_description() -> spec_fn(RawIpRange) -> bool {
    |r: RawIpRange| r.description is Some
}

/// The first group id present among the pairs of a permission.
pub open spec fn first_source(ids: Seq<Option<String>>) -> Option<Seq<char>> {
    match find_first(ids, is_present()) {
        Some(o) => Some(o->0@),
        None => None,
    }
}

/// The first description present among the IP ranges of a permission, empty
/// when there is none.
pub open spec fn first_description(ranges: Seq<RawIpRange>) -> Seq<char> {
    match find_first(ranges, has_description()) {
        Some(r) => r.description->0@,
        None => Seq::empty(),
    }
}

/// How a rule is read from a permission: protocol `tcp`, ports 0 and 65535
/// where absent; one CIDR block per IP range. An ingress rule keeps its first
/// source group and first range description; an egress rule keeps neither.
pub open spec fn rule_matches(rule: Rule, raw: RawPermission, ingress: bool) -> bool {
    &&& rule.protocol@ == or_text(raw.ip_protocol, "tcp"@)
    &&& rule.from_port == match raw.from_port {
        Some(p) => p,
        None => 0,
    }
    &&& rule.to_port == match raw.to_port {
        Some(p) => p,
        None => 65535,
    }
    &&& views(rule.cidr_blocks@) == cidrs_of(raw.ip_ranges@)
    &&& (match rule.source_sg {
        Some(s) => ingress && first_source(raw.source_group_ids@) == Some(s@),
        None => !ingress || first_source(raw.source_group_ids@) is None,
    })
    &&& rule.description@ == (if ingress {
        first_description(raw.ip_ranges@)
    } else {
        Seq::empty()
    })
}

/// How a security group is read from its raw description.
pub open spec fn security_group_matches(sg: SecurityGroup, raw: RawSecurityGroup) -> bool {
    &&& sg.id@ == or_empty(raw.group_id)
    &&& sg.name@ == or_text(raw.group_name, "unnamed"@)
    &&& sg.description@ == or_empty(raw.description)
    &&& sg.vpc_id@ == or_empty(raw.vpc_id)
    &&& sg.ingress@.len() == raw.ingress@.len()
    &&& forall|i: int|
        0 <= i < sg.ingress@.len() ==> rule_matches(#[trigger] sg.ingress@[i], raw.ingress@[i], true)
    &&& sg.egress@.len() == raw.egress@.len()
    &&& forall|i: int|
        0 <= i < sg.egress@.len() ==> rule_matches(#[trigger] sg.egress@[i], raw.egress@[i], false)
    &&& sg.well_formed()
    &&& tags_view(sg.tags@) == tag_map(raw.tags@)
    &&& tag_keys(sg.tags@) == first_keys(raw.tags@)
}

fn cidr_blocks(ranges: &Vec<RawIpRange>) -> (r: Vec<String>)
    ensures
        views(r@) == cidrs_of(ranges@),
{
    proof {
        reveal_strlit("");
    }
    let mut r: Vec<String> = Vec::new();
    let mut i: usize = 0;
    while i < ranges.len()
        invariant
            i <= ranges.len(),
            views(r@) =~= cidrs_of(ranges@.take(i as int)),
        decreases ranges.len() - i,
    {
        let c = string_or(&ranges[i].cidr_ip, "");
        proof {
            reveal_strlit("");
        }
        assert(c@ =~= or_empty(ranges@[i as int].cidr_ip));
        let ghost prev = r@;
        r.push(c);
        assert(ranges@.take(i + 1) =~= ranges@.take(i as int).push(ranges@[i as int]));
        assert(views(r@) =~= views(prev).push(c@));
        i = i + 1;
    }
    assert(ranges@.take(ranges.len() as int) =~= ranges@);
    r
}

fn source_of(ids: &Vec<Option<String>>) -> (r: Option<String>)
    ensures
        match r {
            Some(s) => first_source(ids@) == Some(s@),
            None => first_source(ids@) is None,
        },
{
    let ghost p = is_present();
    let mut i: usize = 0;
    while i < ids.len()
        invariant
            i <= ids.len(),
            p == is_present(),
            forall|j: int| 0 <= j < i ==> !p(#[trigger] ids@[j]),
        decreases ids.len() - i,
    {
        if let Some(s) = &ids[i] {
            proof {
                lemma_find_first_skip(ids@, p, i as int);
                assert(ids@.skip(i as int)[0] == ids@[i as int]);
            }
            return Some(String::from_str(s.as_str()));
        }
        i = i + 1;
    }
    proof {
        lemma_find_first_skip(ids@, p, i as int);
        assert(ids@.skip(i as int).len() == 0);
    }
    None
}

fn description_of(ranges: &Vec<RawIpRange>) -> (r: String)
    ensures
        r@ == first_description(ranges@),
{
    let ghost p = has_description();
    let mut i: usize = 0;
    while i < ranges.len()
        invariant
            i <= ranges.len(),
            p == has_description(),
            forall|j: int| 0 <= j < i ==> !p(#[trigger] ranges@[j]),
        decreases ranges.len() - i,
    {
        if let Some(d) = &ranges[i].description {
            proof {
                lemma_find_first_skip(ranges@, p, i as int);
                assert(ranges@.skip(i as int)[0] == ranges@[i as int]);
            }
            return String::from_str(d.as_str());
        }
        i = i + 1;
    }
    proof {
        lemma_find_first_skip(ranges@, p, i as int);
        assert(ranges@.skip(i as int).len() == 0);
    }
    String::new()
}

/// Read a rule from a permission (see `rule_matches`); `ingress` tells an
/// ingress permission from an egress one.
pub fn rule_from_raw(raw: &RawPermission, ingress: bool) -> (rule: Rule)
    ensures
        rule_matches(rule, *raw, ingress),
{
    let (source_sg, description) = if ingress {
        (source_of(&raw.source_group_ids), description_of(&raw.ip_ranges))
    } else {
        (None, String::new())
    };
    Rule {
        protocol: string_or(&raw.ip_protocol, "tcp"),
        from_port: match raw.from_port {
            Some(p) => p,
            None => 0,
        },
        to_port: match raw.to_port {
            Some(p) => p,
            None => 65535,
        },
        cidr_blocks: cidr_blocks(&raw.ip_ranges),
        source_sg,
        description,
    }
}

fn rules_from_raw(perms: &Vec<RawPermission>, ingress: bool) -> (r: Vec<Rule>)
    ensures
        r@.len() == perms@.len(),
        forall|i: int| 0 <= i < r@.len() ==> rule_matches(#[trigger] r@[i], perms@[i], ingress),
{
    let mut r: Vec<Rule> = Vec::new();
    let mut i: usize = 0;
    while i < perms.len()
        invariant
            i <= perms.len(),
            r@.len() == i,
            forall|j: int| 0 <= j < i ==> rule_matches(#[trigger] r@[j], perms@[j], ingress),
        decreases perms.len() - i,
    {
        r.push(rule_from_raw(&perms[i], ingress));
        i = i + 1;
    }
    r
}

/// Read a security group from its raw description (see
/// `security_group_matches`): its name defaults to `unnamed`.
pub fn security_group_from_raw(raw: &RawSecurityGroup) -> (sg: SecurityGroup)
    ensures
        security_group_matches(sg, *raw),
{
    proof {
        reveal_strlit("");
    }
    let id = string_or(&raw.group_id, "");
    let description = string_or(&raw.description, "");
    let vpc_id = string_or(&raw.vpc_id, "");
    assert(id@ =~= or_empty(raw.group_id));
    assert(description@ =~= or_empty(raw.description));
    assert(vpc_id@ =~= or_empty(raw.vpc_id));
    SecurityGroup {
        id,
        name: string_or(&raw.group_name, "unnamed"),
        description,
        vpc_id,
        ingress: rules_from_raw(&raw.ingress, true),
        egress: rules_from_raw(&raw.egress, false),
        tags: tags_from_raw(&raw.tags),
    }
}


/// A rule read from a permission carries its protocol (`tcp` where absent),
/// its ports (0 and 65535 where absent) and the CIDR block of each IP range;
/// an ingress rule keeps the first source group and the first range
/// description, an egress rule neither.
pub proof fn lemma_rule_from_raw_fields(rule: Rule, raw: RawPermission, ingress: bool)
    requires
        rule_matches(rule, raw, ingress),
    ensures
        raw.ip_protocol matches Some(p) ==> rule.protocol@ == p@,
        raw.ip_protocol is None ==> rule.protocol@ == "tcp"@,
        raw.from_port matches Some(p) ==> rule.from_port == p,
        raw.from_port is None ==> rule.from_port == 0,
        raw.to_port matches Some(p) ==> rule.to_port == p,
        raw.to_port is None ==> rule.to_port == 65535,
        rule.cidr_blocks@.len() == raw.ip_ranges@.len(),
        forall|i: int|
            0 <= i < rule.cidr_blocks@.len() ==> (#[trigger] rule.cidr_blocks@[i])@ == or_empty(
                raw.ip_ranges@[i].cidr_ip,
            ),
        !ingress ==> rule.source_sg is None && rule.description@.len() == 0,
        ingress ==> (rule.source_sg is Some <==> first_source(raw.source_group_ids@) is Some),
        ingress && rule.source_sg is Some ==> first_source(raw.source_group_ids@) == Some(
            rule.source_sg->0@,
        ),
        ingress ==> rule.description@ == first_description(raw.ip_ranges@),
{
    assert(views(rule.cidr_blocks@).len() == rule.cidr_blocks@.len());
    assert(cidrs_of(raw.ip_ranges@).len() == raw.ip_ranges@.len());
    assert forall|i: int| 0 <= i < rule.cidr_blocks@.len() implies (#[trigger] rule.cidr_blocks@[i])@
        == or_empty(raw.ip_ranges@[i].cidr_ip) by {
        assert(views(rule.cidr_blocks@)[i] == rule.cidr_blocks@[i]@);
        assert(cidrs_of(raw.ip_ranges@)[i] == or_empty(raw.ip_ranges@[i].cidr_ip));
    }
}

/// A group read from its raw description carries its id, description and
/// VPC id (empty where absent), its name (`unnamed` where absent), one
/// ingress rule per ingress permission, one egress rule per egress
/// permission, and its tags as their map.
pub proof fn lemma_security_group_from_raw_fields(sg: SecurityGroup, raw: RawSecurityGroup)
    requires
        security_group_matches(sg, raw),
    ensures
        raw.group_id matches Some(x) ==> sg.id@ == x@,
        raw.group_id is None ==> sg.id@.len() == 0,
        raw.group_name matches Some(x) ==> sg.name@ == x@,
        raw.group_name is None ==> sg.name@ == "unnamed"@,
        raw.description matches Some(x) ==> sg.description@ == x@,
        raw.vpc_id matches Some(x) ==> sg.vpc_id@ == x@,
        sg.ingress@.len() == raw.ingress@.len(),
        forall|i: int|
            0 <= i < sg.ingress@.len() ==> rule_matches(#[trigger] sg.ingress@[i], raw.ingress@[i], true),
        sg.egress@.len() == raw.egress@.len(),
        forall|i: int|
            0 <= i < sg.egress@.len() ==> rule_matches(#[trigger] sg.egress@[i], raw.egress@[i], false),
        tags_view(sg.tags@) == tag_map(raw.tags@),
        keys_distinct(sg.tags@),
{
}

} // verus!
