//! `terraform import` scripts: one for the resources shared by several
//! instances, one per instance for what belongs to it alone.

use vstd::prelude::*;
use crate::scanner::ec2::Ec2Instance;
use crate::scanner::iam::IamRole;
use crate::scanner::sg::{Rule, SecurityGroup};
use crate::scanner::vpc::{Subnet, VpcInfo};
use crate::seqs::{
    concat_map, find_first, flat_map, holds, lemma_concat_map_all, lemma_concat_map_append,
    lemma_concat_map_filter, lemma_concat_map_flat, lemma_concat_map_map, lemma_concat_map_single, lemma_concat_map_take,
    lemma_find_first_found, lemma_find_first_some, lemma_flat_map_member, lemma_holds_concat_map,
    lemma_holds_left, lemma_holds_mid, lemma_holds_prefix, lemma_holds_right, lemma_holds_self,
    lemma_holds_start,
    lemma_holds_suffix, lemma_holds_trans,
};
use crate::text::str_eq;
use crate::scanner::views;
use super::ec2::{
    header_text, inline_sg_text, inline_sgs_text, inline_subnet_text, instance_file_text,
    occurs_in, own_instance_text, subnet_section_text,
};
use super::vpc::vpc_text;
use super::sg::{group_block_text, rule_key, rule_text, rules_text, security_group_text, write_rule_key};
use super::{
    find_sg, find_subnet, import_line, lookup_sg, lookup_subnet, resource_header, sg_has_id,
    subnet_has_id,
    tf_name, tf_name_text, write_import_line, Resources,
};

verus! {

/// A script to write: its file name and its content.
pub struct ImportScript {
    pub filename: String,
    pub content: String,
}

/// The import line of a rule of the group with Terraform name `sn` and id
/// `sg_id`; `direction` is `ingress` or `egress`.
pub open spec fn rule_import_line(
    sn: Seq<char>,
    direction: Seq<char>,
    sg_id: Seq<char>,
    rule: Rule,
) -> Seq<char> {
    import_line(
        "aws_security_group_rule"@,
        rule_key(sn, direction, rule),
        rule_key(sg_id, direction, rule),
    )
}

/// The import lines of the rules of one direction of a group, in order.
pub open spec fn rule_imports_text(
    sn: Seq<char>,
    direction: Seq<char>,
    sg_id: Seq<char>,
    rules: Seq<Rule>,
) -> Seq<char> {
    concat_map(rules, |r: Rule| rule_import_line(sn, direction, sg_id, r))
}

/// The import lines of a security group, of each of its ingress rules and of
/// each of its egress rules.
pub open spec fn sg_import_text(sg: SecurityGroup) -> Seq<char> {
    let sn = tf_name_text(sg.name@);
    import_line("aws_security_group"@, sn, sg.id@) + rule_imports_text(
        sn,
        "ingress"@,
        sg.id@,
        sg.ingress@,
    ) + rule_imports_text(sn, "egress"@, sg.id@, sg.egress@)
}

/// The import line of a VPC.
pub open spec fn vpc_import_line(vpc: VpcInfo) -> Seq<char> {
    import_line("aws_vpc"@, tf_name_text(vpc.name@), vpc.id@)
}

/// The import line of a subnet.
pub open spec fn subnet_import_line(sub: Subnet) -> Seq<char> {
    import_line("aws_subnet"@, tf_name_text(sub.name@), sub.id@)
}

/// The import line of an IAM role.
pub open spec fn role_import_line(role: IamRole) -> Seq<char> {
    import_line("aws_iam_role"@, tf_name_text(role.name@), role.name@)
}

/// What the shared script imports of a security group: the group and its
/// rules when its id is shared, nothing otherwise.
pub open spec fn shared_sg_item(shared_sg_ids: Seq<String>, sg: SecurityGroup) -> Seq<char> {
    if occurs_in(shared_sg_ids, sg.id@) {
        sg_import_text(sg)
    } else {
        Seq::empty()
    }
}

/// What the shared script imports of a subnet of a shared VPC.
pub open spec fn shared_subnet_item(shared_subnet_ids: Seq<String>, sub: Subnet) -> Seq<char> {
    if occurs_in(shared_subnet_ids, sub.id@) {
        subnet_import_line(sub)
    } else {
        Seq::empty()
    }
}

/// What the shared script imports of a VPC: when its id is shared, the VPC
/// and those of its subnets whose ids are shared.
pub open spec fn shared_vpc_item(
    shared_subnet_ids: Seq<String>,
    shared_vpc_ids: Seq<String>,
    vpc: VpcInfo,
) -> Seq<char> {
    if occurs_in(shared_vpc_ids, vpc.id@) {
        vpc_import_line(vpc) + concat_map(
            vpc.subnets@,
            |s: Subnet| shared_subnet_item(shared_subnet_ids, s),
        )
    } else {
        Seq::empty()
    }
}

/// The shared import script.
pub open spec fn shared_script_text(
    resources: Resources,
    shared_sg_ids: Seq<String>,
    shared_subnet_ids: Seq<String>,
    shared_vpc_ids: Seq<String>,
) -> Seq<char> {
    "#!/bin/bash\n"@ + "# Import shared resources — run from terraform/\n\n"@ + concat_map(
        resources.security_groups@,
        |sg: SecurityGroup| shared_sg_item(shared_sg_ids, sg),
    ) + concat_map(
        resources.vpcs@,
        |v: VpcInfo| shared_vpc_item(shared_subnet_ids, shared_vpc_ids, v),
    ) + concat_map(resources.roles@, |r: IamRole| role_import_line(r))
}

fn write_rule_imports(sn: &str, direction: &str, sg_id: &str, rules: &Vec<Rule>) -> (r: String)
    ensures
        r@ == rule_imports_text(sn@, direction@, sg_id@, rules@),
{
    let ghost f = |x: Rule| rule_import_line(sn@, direction@, sg_id@, x);
    let mut r = String::new();
    let mut i: usize = 0;
    while i < rules.len()
        invariant
            i <= rules.len(),
            f == (|x: Rule| rule_import_line(sn@, direction@, sg_id@, x)),
            r@ == concat_map(rules@.take(i as int), f),
        decreases rules.len() - i,
    {
        proof {
            lemma_concat_map_take(rules@, f, i as int);
        }
        let name = write_rule_key(sn, direction, &rules[i]);
        let id = write_rule_key(sg_id, direction, &rules[i]);
        let line = write_import_line("aws_security_group_rule", name.as_str(), id.as_str());
        r.append(line.as_str());
        i = i + 1;
    }
    proof {
        lemma_concat_map_all(rules@, f);
    }
    r
}

fn write_sg_import(sg: &SecurityGroup) -> (r: String)
    ensures
        r@ == sg_import_text(*sg),
{
    let sn = tf_name(sg.name.as_str());
    let ingress = write_rule_imports(sn.as_str(), "ingress", sg.id.as_str(), &sg.ingress);
    let egress = write_rule_imports(sn.as_str(), "egress", sg.id.as_str(), &sg.egress);
    let mut r = write_import_line("aws_security_group", sn.as_str(), sg.id.as_str());
    r.append(ingress.as_str());
    r.append(egress.as_str());
    r
}

fn write_vpc_import(vpc: &VpcInfo) -> (r: String)
    ensures
        r@ == vpc_import_line(*vpc),
{
    let vn = tf_name(vpc.name.as_str());
    write_import_line("aws_vpc", vn.as_str(), vpc.id.as_str())
}

fn write_subnet_import(sub: &Subnet) -> (r: String)
    ensures
        r@ == subnet_import_line(*sub),
{
    let sn = tf_name(sub.name.as_str());
    write_import_line("aws_subnet", sn.as_str(), sub.id.as_str())
}

/// Whether a string with the characters of `id` occurs in `ids`.
fn contains_id(ids: &[String], id: &str) -> (r: bool)
    ensures
        r == occurs_in(ids@, id@),
{
    let mut j: usize = 0;
    while j < ids.len()
        invariant
            j <= ids@.len(),
            forall|k: int| 0 <= k < j ==> (#[trigger] ids@[k])@ != id@,
        decreases ids.len() - j,
    {
        if str_eq(ids[j].as_str(), id) {
            return true;
        }
        j = j + 1;
    }
    false
}

fn write_shared_vpc(shared_subnet_ids: &[String], shared_vpc_ids: &[String], vpc: &VpcInfo) -> (r:
    String)
    ensures
        r@ == shared_vpc_item(shared_subnet_ids@, shared_vpc_ids@, *vpc),
{
    if !contains_id(shared_vpc_ids, vpc.id.as_str()) {
        return String::new();
    }
    let ghost f = |s: Subnet| shared_subnet_item(shared_subnet_ids@, s);
    let mut subs = String::new();
    let mut i: usize = 0;
    while i < vpc.subnets.len()
        invariant
            i <= vpc.subnets.len(),
            f == (|s: Subnet| shared_subnet_item(shared_subnet_ids@, s)),
            subs@ == concat_map(vpc.subnets@.take(i as int), f),
        decreases vpc.subnets.len() - i,
    {
        proof {
            lemma_concat_map_take(vpc.subnets@, f, i as int);
        }
        let sub = &vpc.subnets[i];
        let line = if contains_id(shared_subnet_ids, sub.id.as_str()) {
            write_subnet_import(sub)
        } else {
            String::new()
        };
        subs.append(line.as_str());
        i = i + 1;
    }
    proof {
        lemma_concat_map_all(vpc.subnets@, f);
    }
    let mut r = write_vpc_import(vpc);
    r.append(subs.as_str());
    r
}

/// Generate shared.tf import script (resources shared by 2+ instances).
///
/// The script imports each security group whose id is in `shared_sg_ids`
/// with its rules, each VPC whose id is in `shared_vpc_ids` with those of its
/// subnets whose ids are in `shared_subnet_ids`, and every IAM role. It is to
/// be written as `shared_import.sh`.
pub fn generate_shared(
    resources: &Resources,
    shared_sg_ids: &[String],
    shared_subnet_ids: &[String],
    shared_vpc_ids: &[String],
) -> (r: ImportScript)
    ensures
        r.filename@ == "shared_import.sh"@,
        r.content@ == shared_script_text(
            *resources,
            shared_sg_ids@,
            shared_subnet_ids@,
            shared_vpc_ids@,
        ),
{
    let sgs = &resources.security_groups;
    let ghost fs = |sg: SecurityGroup| shared_sg_item(shared_sg_ids@, sg);
    let mut sg_part = String::new();
    let mut i: usize = 0;
    while i < sgs.len()
        invariant
            i <= sgs.len(),
            fs == (|sg: SecurityGroup| shared_sg_item(shared_sg_ids@, sg)),
            sg_part@ == concat_map(sgs@.take(i as int), fs),
        decreases sgs.len() - i,
    {
        proof {
            lemma_concat_map_take(sgs@, fs, i as int);
        }
        let sg = &sgs[i];
        let block = if contains_id(shared_sg_ids, sg.id.as_str()) {
            write_sg_import(sg)
        } else {
            String::new()
        };
        sg_part.append(block.as_str());
        i = i + 1;
    }
    proof {
        lemma_concat_map_all(sgs@, fs);
    }
    let vpcs = &resources.vpcs;
    let ghost fv = |v: VpcInfo| shared_vpc_item(shared_subnet_ids@, shared_vpc_ids@, v);
    let mut vpc_part = String::new();
    let mut i: usize = 0;
    while i < vpcs.len()
        invariant
            i <= vpcs.len(),
            fv == (|v: VpcInfo| shared_vpc_item(shared_subnet_ids@, shared_vpc_ids@, v)),
            vpc_part@ == concat_map(vpcs@.take(i as int), fv),
        decreases vpcs.len() - i,
    {
        proof {
            lemma_concat_map_take(vpcs@, fv, i as int);
        }
        let block = write_shared_vpc(shared_subnet_ids, shared_vpc_ids, &vpcs[i]);
        vpc_part.append(block.as_str());
        i = i + 1;
    }
    proof {
        lemma_concat_map_all(vpcs@, fv);
    }
    let roles = &resources.roles;
    let ghost fr = |r: IamRole| role_import_line(r);
    let mut role_part = String::new();
    let mut i: usize = 0;
    while i < roles.len()
        invariant
            i <= roles.len(),
            fr == (|r: IamRole| role_import_line(r)),
            role_part@ == concat_map(roles@.take(i as int), fr),
        decreases roles.len() - i,
    {
        proof {
            lemma_concat_map_take(roles@, fr, i as int);
        }
        let role = &roles[i];
        let rn = tf_name(role.name.as_str());
        let line = write_import_line("aws_iam_role", rn.as_str(), role.name.as_str());
        role_part.append(line.as_str());
        i = i + 1;
    }
    proof {
        lemma_concat_map_all(roles@, fr);
    }
    let mut content = String::from_str("#!/bin/bash\n");
    content.append("# Import shared resources — run from terraform/\n\n");
    content.append(sg_part.as_str());
    content.append(vpc_part.as_str());
    content.append(role_part.as_str());
    ImportScript { filename: String::from_str("shared_import.sh"), content }
}

/// What the instance script imports for one of the instance's security group
/// ids: the first group with that id and its rules, unless the id is shared
/// or unknown.
pub open spec fn exclusive_sg_item(
    sgs: Seq<SecurityGroup>,
    shared_sg_ids: Seq<String>,
    id: String,
) -> Seq<char> {
    if occurs_in(shared_sg_ids, id@) {
        Seq::empty()
    } else {
        match find_sg(sgs, id@) {
            Some(sg) => sg_import_text(sg),
            None => Seq::empty(),
        }
    }
}

/// What the instance script imports for a subnet `sub` of `vpc`: when it is
/// the instance's subnet, the VPC unless its id is shared, then the subnet
/// unless its id is shared.
pub open spec fn exclusive_subnet_item(
    subnet_id: Seq<char>,
    shared_subnet_ids: Seq<String>,
    shared_vpc_ids: Seq<String>,
    vpc: VpcInfo,
    sub: Subnet,
) -> Seq<char> {
    if sub.id@ == subnet_id {
        (if occurs_in(shared_vpc_ids, vpc.id@) {
            Seq::empty()
        } else {
            vpc_import_line(vpc)
        }) + (if occurs_in(shared_subnet_ids, sub.id@) {
            Seq::empty()
        } else {
            subnet_import_line(sub)
        })
    } else {
        Seq::empty()
    }
}

/// What the instance script imports for the subnets of one VPC.
pub open spec fn exclusive_vpc_item(
    subnet_id: Seq<char>,
    shared_subnet_ids: Seq<String>,
    shared_vpc_ids: Seq<String>,
    vpc: VpcInfo,
) -> Seq<char> {
    concat_map(
        vpc.subnets@,
        |s: Subnet| exclusive_subnet_item(subnet_id, shared_subnet_ids, shared_vpc_ids, vpc, s),
    )
}

/// What the instance script imports of the network: for every subnet (of any
/// VPC) that has the instance's subnet id, its exclusive VPC and subnet;
/// nothing when the instance has no subnet id.
pub open spec fn exclusive_network_text(
    subnet_id: Seq<char>,
    vpcs: Seq<VpcInfo>,
    shared_subnet_ids: Seq<String>,
    shared_vpc_ids: Seq<String>,
) -> Seq<char> {
    if subnet_id.len() == 0 {
        Seq::empty()
    } else {
        concat_map(
            vpcs,
            |v: VpcInfo| exclusive_vpc_item(subnet_id, shared_subnet_ids, shared_vpc_ids, v),
        )
    }
}

/// The comment lines at the top of the import script of an instance.
pub open spec fn instance_script_header(inst: Ec2Instance) -> Seq<char> {
    "#!/bin/bash\n"@ + "# Import for: "@ + inst.name@ + " ("@ + inst.id@ + ")\n"@
        + "# Run from: terraform/instances/\n"@
        + "# Run shared_import.sh first if shared resources changed\n\n"@
}

/// The import script of one instance.
pub open spec fn instance_script_text(
    inst: Ec2Instance,
    sgs: Seq<SecurityGroup>,
    vpcs: Seq<VpcInfo>,
    shared_sg_ids: Seq<String>,
    shared_subnet_ids: Seq<String>,
    shared_vpc_ids: Seq<String>,
) -> Seq<char> {
    instance_script_header(inst) + concat_map(
        inst.security_groups@,
        |id: String| exclusive_sg_item(sgs, shared_sg_ids, id),
    ) + exclusive_network_text(inst.subnet_id@, vpcs, shared_subnet_ids, shared_vpc_ids)
        + import_line("aws_instance"@, tf_name_text(inst.name@), inst.id@)
}

fn write_exclusive_vpc(
    subnet_id: &str,
    shared_subnet_ids: &[String],
    shared_vpc_ids: &[String],
    vpc: &VpcInfo,
) -> (r: String)
    ensures
        r@ == exclusive_vpc_item(subnet_id@, shared_subnet_ids@, shared_vpc_ids@, *vpc),
{
    let ghost f = |s: Subnet|
        exclusive_subnet_item(subnet_id@, shared_subnet_ids@, shared_vpc_ids@, *vpc, s);
    let mut r = String::new();
    let mut i: usize = 0;
    while i < vpc.subnets.len()
        invariant
            i <= vpc.subnets.len(),
            f == (|s: Subnet|
                exclusive_subnet_item(subnet_id@, shared_subnet_ids@, shared_vpc_ids@, *vpc, s)),
            r@ == concat_map(vpc.subnets@.take(i as int), f),
        decreases vpc.subnets.len() - i,
    {
        proof {
            lemma_concat_map_take(vpc.subnets@, f, i as int);
        }
        let sub = &vpc.subnets[i];
        let mut item = String::new();
        if str_eq(sub.id.as_str(), subnet_id) {
            let vpc_line = if contains_id(shared_vpc_ids, vpc.id.as_str()) {
                String::new()
            } else {
                write_vpc_import(vpc)
            };
            let sub_line = if contains_id(shared_subnet_ids, sub.id.as_str()) {
                String::new()
            } else {
                write_subnet_import(sub)
            };
            item = vpc_line;
            item.append(sub_line.as_str());
        }
        r.append(item.as_str());
        i = i + 1;
    }
    proof {
        lemma_concat_map_all(vpc.subnets@, f);
    }
    r
}

fn write_exclusive_network(
    subnet_id: &String,
    vpcs: &[VpcInfo],
    shared_subnet_ids: &[String],
    shared_vpc_ids: &[String],
) -> (r: String)
    ensures
        r@ == exclusive_network_text(subnet_id@, vpcs@, shared_subnet_ids@, shared_vpc_ids@),
{
    if subnet_id.as_str().is_empty() {
        return String::new();
    }
    let ghost f = |v: VpcInfo|
        exclusive_vpc_item(subnet_id@, shared_subnet_ids@, shared_vpc_ids@, v);
    let mut r = String::new();
    let mut i: usize = 0;
    while i < vpcs.len()
        invariant
            i <= vpcs.len(),
            f == (|v: VpcInfo| exclusive_vpc_item(subnet_id@, shared_subnet_ids@, shared_vpc_ids@, v)),
            r@ == concat_map(vpcs@.take(i as int), f),
        decreases vpcs.len() - i,
    {
        proof {
            lemma_concat_map_take(vpcs@, f, i as int);
        }
        let block = write_exclusive_vpc(subnet_id.as_str(), shared_subnet_ids, shared_vpc_ids, &vpcs[i]);
        r.append(block.as_str());
        i = i + 1;
    }
    proof {
        lemma_concat_map_all(vpcs@, f);
    }
    r
}

/// Generate per-instance import script.
/// Imports exclusive resources (inline) + the instance itself.
/// Shared resources are imported via shared_import.sh.
///
/// The script imports, for each security group id of the instance that is
/// not in `shared_sg_ids`, the first group with that id and its rules; for
/// each subnet with the instance's subnet id, its VPC unless the VPC id is in
/// `shared_vpc_ids` and the subnet unless its id is in `shared_subnet_ids`;
/// and last the instance itself. It is to be written as
/// `<tf_name(name)>_import.sh` in the instances directory.
pub fn generate_per_instance(
    inst: &Ec2Instance,
    all_sgs: &[SecurityGroup],
    all_vpcs: &[VpcInfo],
    shared_sg_ids: &[String],
    shared_subnet_ids: &[String],
    shared_vpc_ids: &[String],
) -> (r: ImportScript)
    ensures
        r.filename@ == tf_name_text(inst.name@) + "_import.sh"@,
        r.content@ == instance_script_text(
            *inst,
            all_sgs@,
            all_vpcs@,
            shared_sg_ids@,
            shared_subnet_ids@,
            shared_vpc_ids@,
        ),
{
    let inst_name = tf_name(inst.name.as_str());
    let ids = &inst.security_groups;
    let ghost f = |id: String| exclusive_sg_item(all_sgs@, shared_sg_ids@, id);
    let mut sg_part = String::new();
    let mut i: usize = 0;
    while i < ids.len()
        invariant
            i <= ids.len(),
            f == (|id: String| exclusive_sg_item(all_sgs@, shared_sg_ids@, id)),
            sg_part@ == concat_map(ids@.take(i as int), f),
        decreases ids.len() - i,
    {
        proof {
            lemma_concat_map_take(ids@, f, i as int);
        }
        let id = &ids[i];
        let mut block = String::new();
        if !contains_id(shared_sg_ids, id.as_str()) {
            match lookup_sg(all_sgs, id.as_str()) {
                Some(k) => {
                    block = write_sg_import(&all_sgs[k]);
                },
                None => {},
            }
        }
        sg_part.append(block.as_str());
        i = i + 1;
    }
    proof {
        lemma_concat_map_all(ids@, f);
    }
    let network = write_exclusive_network(&inst.subnet_id, all_vpcs, shared_subnet_ids, shared_vpc_ids);
    let mut content = String::from_str("#!/bin/bash\n");
    content.append("# Import for: ");
    content.append(inst.name.as_str());
    content.append(" (");
    content.append(inst.id.as_str());
    content.append(")\n");
    content.append("# Run from: terraform/instances/\n");
    content.append("# Run shared_import.sh first if shared resources changed\n\n");
    content.append(sg_part.as_str());
    content.append(network.as_str());
    let own = write_import_line("aws_instance", inst_name.as_str(), inst.id.as_str());
    content.append(own.as_str());
    let mut filename = inst_name;
    filename.append("_import.sh");
    ImportScript { filename, content }
}

/// Each known security group of an instance is imported by exactly one of
/// the two scripts: by the shared script when its id is shared, by the
/// instance script otherwise.
pub proof fn lemma_sg_imported_once(
    sgs: Seq<SecurityGroup>,
    shared_sg_ids: Seq<String>,
    id: String,
    sg: SecurityGroup,
)
    requires
        find_sg(sgs, id@) == Some(sg),
    ensures
        occurs_in(shared_sg_ids, id@) ==> shared_sg_item(shared_sg_ids, sg) == sg_import_text(sg)
            && exclusive_sg_item(sgs, shared_sg_ids, id).len() == 0,
        !occurs_in(shared_sg_ids, id@) ==> shared_sg_item(shared_sg_ids, sg).len() == 0
            && exclusive_sg_item(sgs, shared_sg_ids, id) == sg_import_text(sg),
{
    lemma_find_first_found(sgs, sg_has_id(id@));
}

/// The VPC of an instance's subnet is imported by exactly one of the two
/// scripts: the shared script imports it when its id is shared, the instance
/// script otherwise.
pub proof fn lemma_vpc_imported_once(
    shared_subnet_ids: Seq<String>,
    shared_vpc_ids: Seq<String>,
    vpc: VpcInfo,
    sub: Subnet,
)
    ensures
        occurs_in(shared_vpc_ids, vpc.id@) ==> shared_vpc_item(
            shared_subnet_ids,
            shared_vpc_ids,
            vpc,
        ).take(vpc_import_line(vpc).len() as int) == vpc_import_line(vpc)
            && exclusive_subnet_item(sub.id@, shared_subnet_ids, shared_vpc_ids, vpc, sub) == (
        if occurs_in(shared_subnet_ids, sub.id@) {
            Seq::empty()
        } else {
            subnet_import_line(sub)
        }),
        !occurs_in(shared_vpc_ids, vpc.id@) ==> shared_vpc_item(
            shared_subnet_ids,
            shared_vpc_ids,
            vpc,
        ).len() == 0 && exclusive_subnet_item(
            sub.id@,
            shared_subnet_ids,
            shared_vpc_ids,
            vpc,
            sub,
        ).take(vpc_import_line(vpc).len() as int) == vpc_import_line(vpc),
{
    let line = vpc_import_line(vpc);
    let rest_shared = concat_map(vpc.subnets@, |s: Subnet| shared_subnet_item(shared_subnet_ids, s));
    let rest_own = if occurs_in(shared_subnet_ids, sub.id@) {
        Seq::<char>::empty()
    } else {
        subnet_import_line(sub)
    };
    assert((line + rest_shared).take(line.len() as int) =~= line);
    assert((line + rest_own).take(line.len() as int) =~= line);
    assert(Seq::<char>::empty() + rest_own =~= rest_own);
}
// ---------------------------------------------------------------------------
// Shared resources
// ---------------------------------------------------------------------------

/// Whether `id` is listed by two different entries of `lists`.
pub open spec fn listed_twice(lists: Seq<Seq<Seq<char>>>, id: Seq<char>) -> bool {
    exists|i: int, j: int|
        0 <= i < j < lists.len() && (#[trigger] lists[i]).contains(id) && (#[trigger] lists[j]).contains(
            id,
        )
}

/// Whether `id` is listed by an entry of `lists` after the entry `i`.
pub open spec fn listed_after(lists: Seq<Seq<Seq<char>>>, i: int, id: Seq<char>) -> bool {
    exists|j: int| i < j < lists.len() && (#[trigger] lists[j]).contains(id)
}

/// The characters of the strings of each list.
pub open spec fn lists_view(lists: Seq<Vec<String>>) -> Seq<Seq<Seq<char>>> {
    lists.map_values(|v: Vec<String>| views(v@))
}

fn contains_view(v: &Vec<String>, id: &str) -> (r: bool)
    ensures
        r == views(v@).contains(id@),
{
    let mut j: usize = 0;
    while j < v.len()
        invariant
            j <= v.len(),
            forall|k: int| 0 <= k < j ==> (#[trigger] v@[k])@ != id@,
        decreases v.len() - j,
    {
        if str_eq(v[j].as_str(), id) {
            assert(views(v@)[j as int] == id@);
            return true;
        }
        j = j + 1;
    }
    assert forall|k: int| 0 <= k < views(v@).len() implies views(v@)[k] != id@ by {
        assert(views(v@)[k] == v@[k]@);
    }
    false
}

fn is_listed_after(lists: &Vec<Vec<String>>, i: usize, id: &str) -> (r: bool)
    requires
        i < lists.len(),
    ensures
        r == listed_after(lists_view(lists@), i as int, id@),
{
    let ghost l = lists_view(lists@);
    let mut j: usize = i + 1;
    while j < lists.len()
        invariant
            i < j <= lists.len(),
            l == lists_view(lists@),
            forall|k: int| i < k < j ==> !(#[trigger] l[k]).contains(id@),
        decreases lists.len() - j,
    {
        if contains_view(&lists[j], id) {
            assert(l[j as int] == views(lists@[j as int]@));
            return true;
        }
        assert(l[j as int] == views(lists@[j as int]@));
        j = j + 1;
    }
    false
}

/// The ids that two different entries of `lists` list, each once.
pub fn shared_between(lists: &Vec<Vec<String>>) -> (r: Vec<String>)
    ensures
        forall|id: Seq<char>| views(r@).contains(id) <==> listed_twice(lists_view(lists@), id),
        views(r@).no_duplicates(),
{
    let ghost l = lists_view(lists@);
    let mut r: Vec<String> = Vec::new();
    let mut i: usize = 0;
    while i < lists.len()
        invariant
            i <= lists.len(),
            l == lists_view(lists@),
            forall|id: Seq<char>| views(r@).contains(id) ==> listed_twice(l, id),
            forall|i2: int, id: Seq<char>|
                0 <= i2 < i && #[trigger] l[i2].contains(id) && listed_after(l, i2, id)
                    ==> views(r@).contains(id),
            views(r@).no_duplicates(),
        decreases lists.len() - i,
    {
        let list = &lists[i];
        assert(l[i as int] == views(list@));
        let mut a: usize = 0;
        while a < list.len()
            invariant
                i < lists.len(),
                a <= list.len(),
                list@ == lists@[i as int]@,
                l == lists_view(lists@),
                l[i as int] == views(list@),
                forall|id: Seq<char>| views(r@).contains(id) ==> listed_twice(l, id),
                forall|i2: int, id: Seq<char>|
                    0 <= i2 < i && #[trigger] l[i2].contains(id) && listed_after(l, i2, id)
                        ==> views(r@).contains(id),
                views(r@).no_duplicates(),
                forall|a2: int|
                    0 <= a2 < a && listed_after(l, i as int, (#[trigger] list@[a2])@) ==> views(
                        r@,
                    ).contains(list@[a2]@),
            decreases list.len() - a,
        {
            let id = &list[a];
            assert(views(list@)[a as int] == id@);
            if !contains_view(&r, id.as_str()) && is_listed_after(lists, i, id.as_str()) {
                let ghost prev = r@;
                r.push(String::from_str(id.as_str()));
                assert(views(r@) =~= views(prev).push(id@));
                assert forall|p: int, q: int|
                    0 <= p < views(r@).len() && 0 <= q < views(r@).len() && p != q implies views(
                    r@,
                )[p] != views(r@)[q] by {
                    if p == prev.len() {
                        assert(views(prev)[q] == views(r@)[q]);
                    } else if q == prev.len() {
                        assert(views(prev)[p] == views(r@)[p]);
                    } else {
                        assert(views(prev)[p] == views(r@)[p]);
                        assert(views(prev)[q] == views(r@)[q]);
                    }
                }
                assert forall|x: Seq<char>| views(r@).contains(x) implies listed_twice(l, x) by {
                    if x == id@ {
                        let j = choose|j: int| i < j < l.len() && (#[trigger] l[j]).contains(x);
                        assert(l[i as int].contains(x));
                    } else {
                        let k = choose|k: int| 0 <= k < views(r@).len() && views(r@)[k] == x;
                        assert(views(prev)[k] == x);
                    }
                }
                assert forall|i2: int, x: Seq<char>|
                    0 <= i2 < i && #[trigger] l[i2].contains(x) && listed_after(l, i2, x)
                    implies views(r@).contains(x) by {
                    let k = choose|k: int| 0 <= k < views(prev).len() && views(prev)[k] == x;
                    assert(views(r@)[k] == x);
                }
                assert forall|a2: int|
                    0 <= a2 <= a && listed_after(l, i as int, (#[trigger] list@[a2])@) implies views(
                    r@,
                ).contains(list@[a2]@) by {
                    if a2 < a {
                        let k = choose|k: int|
                            0 <= k < views(prev).len() && views(prev)[k] == list@[a2]@;
                        assert(views(r@)[k] == list@[a2]@);
                    } else {
                        assert(views(r@)[prev.len() as int] == id@);
                    }
                }
            }
            a = a + 1;
        }
        assert forall|i2: int, id: Seq<char>|
            0 <= i2 <= i && #[trigger] l[i2].contains(id) && listed_after(l, i2, id) implies views(
            r@,
        ).contains(id) by {
            if i2 == i {
                let a2 = choose|a2: int| 0 <= a2 < l[i2].len() && l[i2][a2] == id;
                assert(views(list@)[a2] == list@[a2]@);
            }
        }
        i = i + 1;
    }
    assert forall|id: Seq<char>| listed_twice(l, id) implies views(r@).contains(id) by {
        let (i2, j2) = choose|i2: int, j2: int|
            0 <= i2 < j2 < l.len() && #[trigger] l[i2].contains(id) && (#[trigger] l[j2]).contains(
                id,
            );
        assert(listed_after(l, i2, id));
    }
    r
}

/// The security group ids of each instance.
pub open spec fn sg_id_lists(insts: Seq<Ec2Instance>) -> Seq<Seq<Seq<char>>> {
    insts.map_values(|inst: Ec2Instance| views(inst.security_groups@))
}

/// The subnet id of each instance (none for an instance without one).
pub open spec fn subnet_id_lists(insts: Seq<Ec2Instance>) -> Seq<Seq<Seq<char>>> {
    insts.map_values(
        |inst: Ec2Instance|
            if inst.subnet_id@.len() > 0 {
                seq![inst.subnet_id@]
            } else {
                Seq::empty()
            },
    )
}

/// The id of the VPC of each instance's subnet (none where the instance has
/// no subnet id or its subnet is unknown).
pub open spec fn vpc_id_lists(insts: Seq<Ec2Instance>, vpcs: Seq<VpcInfo>) -> Seq<Seq<Seq<char>>> {
    insts.map_values(
        |inst: Ec2Instance|
            if inst.subnet_id@.len() > 0 {
                match find_subnet(vpcs, inst.subnet_id@) {
                    Some(found) => seq![found.0.id@],
                    None => Seq::empty(),
                }
            } else {
                Seq::empty()
            },
    )
}

/// The import scripts of a set of resources, with the ids found shared.
pub struct ImportScripts {
    pub shared_sg_ids: Vec<String>,
    pub shared_subnet_ids: Vec<String>,
    pub shared_vpc_ids: Vec<String>,
    pub shared: ImportScript,
    pub per_instance: Vec<ImportScript>,
}

fn copy_strings(v: &Vec<String>) -> (r: Vec<String>)
    ensures
        views(r@) == views(v@),
{
    let mut r: Vec<String> = Vec::new();
    let mut i: usize = 0;
    while i < v.len()
        invariant
            i <= v.len(),
            views(r@) =~= views(v@.take(i as int)),
        decreases v.len() - i,
    {
        let ghost prev = r@;
        r.push(String::from_str(v[i].as_str()));
        assert(views(r@) =~= views(prev).push(v@[i as int]@));
        assert(v@.take(i + 1) =~= v@.take(i as int).push(v@[i as int]));
        assert(views(v@.take(i + 1)) =~= views(v@.take(i as int)).push(v@[i as int]@));
        i = i + 1;
    }
    assert(v@.take(v.len() as int) =~= v@);
    r
}

fn id_lists(insts: &Vec<Ec2Instance>, vpcs: &Vec<VpcInfo>) -> (r: (
    Vec<Vec<String>>,
    Vec<Vec<String>>,
    Vec<Vec<String>>,
))
    ensures
        lists_view(r.0@) =~= sg_id_lists(insts@),
        lists_view(r.1@) =~= subnet_id_lists(insts@),
        lists_view(r.2@) =~= vpc_id_lists(insts@, vpcs@),
{
    let mut sgs: Vec<Vec<String>> = Vec::new();
    let mut subs: Vec<Vec<String>> = Vec::new();
    let mut vs: Vec<Vec<String>> = Vec::new();
    let mut i: usize = 0;
    while i < insts.len()
        invariant
            i <= insts.len(),
            lists_view(sgs@) =~= sg_id_lists(insts@.take(i as int)),
            lists_view(subs@) =~= subnet_id_lists(insts@.take(i as int)),
            lists_view(vs@) =~= vpc_id_lists(insts@.take(i as int), vpcs@),
        decreases insts.len() - i,
    {
        let inst = &insts[i];
        let ghost take_i = insts@.take(i as int);
        let ghost prev_sgs = sgs@;
        let ghost prev_subs = subs@;
        let ghost prev_vs = vs@;
        assert(insts@.take(i + 1) =~= take_i.push(*inst));
        let copied = copy_strings(&inst.security_groups);
        sgs.push(copied);
        assert(lists_view(sgs@) =~= lists_view(prev_sgs).push(views(inst.security_groups@)));
        assert(sg_id_lists(insts@.take(i + 1)) =~= sg_id_lists(take_i).push(
            views(inst.security_groups@),
        ));
        let mut sub: Vec<String> = Vec::new();
        let mut v: Vec<String> = Vec::new();
        if !inst.subnet_id.as_str().is_empty() {
            sub.push(String::from_str(inst.subnet_id.as_str()));
            assert(views(sub@) =~= seq![inst.subnet_id@]);
            match lookup_subnet(vpcs.as_slice(), inst.subnet_id.as_str()) {
                Some((a, _b)) => {
                    v.push(String::from_str(vpcs[a].id.as_str()));
                    assert(views(v@) =~= seq![vpcs@[a as int].id@]);
                },
                None => {
                    assert(views(v@) =~= Seq::<Seq<char>>::empty());
                },
            }
        } else {
            assert(views(sub@) =~= Seq::<Seq<char>>::empty());
            assert(views(v@) =~= Seq::<Seq<char>>::empty());
        }
        let ghost sub_view = views(sub@);
        let ghost v_view = views(v@);
        subs.push(sub);
        vs.push(v);
        assert(lists_view(subs@) =~= lists_view(prev_subs).push(sub_view));
        assert(lists_view(vs@) =~= lists_view(prev_vs).push(v_view));
        assert(subnet_id_lists(insts@.take(i + 1)) =~= subnet_id_lists(take_i).push(sub_view));
        assert(vpc_id_lists(insts@.take(i + 1), vpcs@) =~= vpc_id_lists(take_i, vpcs@).push(v_view));
        i = i + 1;
    }
    assert(insts@.take(insts.len() as int) =~= insts@);
    (sgs, subs, vs)
}

/// Generate the import scripts of a set of resources: the shared script, and
/// one script per instance, in order. A security group, subnet or VPC is
/// shared when two different instances use it (an instance uses the VPC of
/// its subnet).
pub fn generate(resources: &Resources) -> (r: ImportScripts)
    ensures
        forall|id: Seq<char>|
            views(r.shared_sg_ids@).contains(id) <==> listed_twice(
                sg_id_lists(resources.instances@),
                id,
            ),
        forall|id: Seq<char>|
            views(r.shared_subnet_ids@).contains(id) <==> listed_twice(
                subnet_id_lists(resources.instances@),
                id,
            ),
        forall|id: Seq<char>|
            views(r.shared_vpc_ids@).contains(id) <==> listed_twice(
                vpc_id_lists(resources.instances@, resources.vpcs@),
                id,
            ),
        r.shared.filename@ == "shared_import.sh"@,
        r.shared.content@ == shared_script_text(
            *resources,
            r.shared_sg_ids@,
            r.shared_subnet_ids@,
            r.shared_vpc_ids@,
        ),
        r.per_instance@.len() == resources.instances@.len(),
        forall|i: int|
            0 <= i < r.per_instance@.len() ==> {
                &&& (#[trigger] r.per_instance@[i]).filename@ == tf_name_text(
                    resources.instances@[i].name@,
                ) + "_import.sh"@
                &&& r.per_instance@[i].content@ == instance_script_text(
                    resources.instances@[i],
                    resources.security_groups@,
                    resources.vpcs@,
                    r.shared_sg_ids@,
                    r.shared_subnet_ids@,
                    r.shared_vpc_ids@,
                )
            },
{
    let (sg_lists, sub_lists, vpc_lists) = id_lists(&resources.instances, &resources.vpcs);
    let shared_sg_ids = shared_between(&sg_lists);
    let shared_subnet_ids = shared_between(&sub_lists);
    let shared_vpc_ids = shared_between(&vpc_lists);
    let shared = generate_shared(
        resources,
        shared_sg_ids.as_slice(),
        shared_subnet_ids.as_slice(),
        shared_vpc_ids.as_slice(),
    );
    let mut per_instance: Vec<ImportScript> = Vec::new();
    let mut i: usize = 0;
    while i < resources.instances.len()
        invariant
            i <= resources.instances.len(),
            per_instance@.len() == i,
            forall|k: int|
                0 <= k < i ==> {
                    &&& (#[trigger] per_instance@[k]).filename@ == tf_name_text(
                        resources.instances@[k].name@,
                    ) + "_import.sh"@
                    &&& per_instance@[k].content@ == instance_script_text(
                        resources.instances@[k],
                        resources.security_groups@,
                        resources.vpcs@,
                        shared_sg_ids@,
                        shared_subnet_ids@,
                        shared_vpc_ids@,
                    )
                },
        decreases resources.instances.len() - i,
    {
        per_instance.push(
            generate_per_instance(
                &resources.instances[i],
                resources.security_groups.as_slice(),
                resources.vpcs.as_slice(),
                shared_sg_ids.as_slice(),
                shared_subnet_ids.as_slice(),
                shared_vpc_ids.as_slice(),
            ),
        );
        i = i + 1;
    }
    ImportScripts { shared_sg_ids, shared_subnet_ids, shared_vpc_ids, shared, per_instance }
}


// ---------------------------------------------------------------------------
// What an instance script imports, and where the instance file writes it
// ---------------------------------------------------------------------------

/// The import line of an entry (type, name, id).
pub open spec fn entry_line() -> spec_fn((Seq<char>, Seq<char>, Seq<char>)) -> Seq<char> {
    |e: (Seq<char>, Seq<char>, Seq<char>)| import_line(e.0, e.1, e.2)
}

/// The import lines of a list of entries, in order.
pub open spec fn import_lines(entries: Seq<(Seq<char>, Seq<char>, Seq<char>)>) -> Seq<char> {
    concat_map(entries, entry_line())
}

/// The entries of the rules of one direction of a group.
pub open spec fn rule_entries(
    sn: Seq<char>,
    direction: Seq<char>,
    sg_id: Seq<char>,
    rules: Seq<Rule>,
) -> Seq<(Seq<char>, Seq<char>, Seq<char>)> {
    rules.map_values(
        |r: Rule|
            ("aws_security_group_rule"@, rule_key(sn, direction, r), rule_key(sg_id, direction, r)),
    )
}

/// The entries of a group: the group itself, its ingress rules, its egress
/// rules.
pub open spec fn sg_entries(sg: SecurityGroup) -> Seq<(Seq<char>, Seq<char>, Seq<char>)> {
    let sn = tf_name_text(sg.name@);
    seq![("aws_security_group"@, sn, sg.id@)] + rule_entries(sn, "ingress"@, sg.id@, sg.ingress@)
        + rule_entries(sn, "egress"@, sg.id@, sg.egress@)
}

/// The entries of the first group with the id `id`; none for an unknown id.
pub open spec fn sg_id_entries(sgs: Seq<SecurityGroup>, id: String) -> Seq<
    (Seq<char>, Seq<char>, Seq<char>),
> {
    match find_sg(sgs, id@) {
        Some(sg) => sg_entries(sg),
        None => Seq::empty(),
    }
}

/// The entries of a subnet of `vpc` with the id `subnet_id`: the VPC, then
/// the subnet; none for another subnet.
pub open spec fn subnet_entries(subnet_id: Seq<char>, vpc: VpcInfo, sub: Subnet) -> Seq<
    (Seq<char>, Seq<char>, Seq<char>),
> {
    if sub.id@ == subnet_id {
        seq![
            ("aws_vpc"@, tf_name_text(vpc.name@), vpc.id@),
            ("aws_subnet"@, tf_name_text(sub.name@), sub.id@),
        ]
    } else {
        Seq::empty()
    }
}

/// The entries of every subnet with the id `subnet_id`, over all VPCs.
pub open spec fn network_entries(subnet_id: Seq<char>, vpcs: Seq<VpcInfo>) -> Seq<
    (Seq<char>, Seq<char>, Seq<char>),
> {
    if subnet_id.len() == 0 {
        Seq::empty()
    } else {
        flat_map(
            vpcs,
            |v: VpcInfo| flat_map(v.subnets@, |s: Subnet| subnet_entries(subnet_id, v, s)),
        )
    }
}

/// What the script of an instance imports when nothing is shared, in order:
/// its groups with their rules, its VPC and subnet, and the instance.
pub open spec fn instance_entries(
    inst: Ec2Instance,
    sgs: Seq<SecurityGroup>,
    vpcs: Seq<VpcInfo>,
) -> Seq<(Seq<char>, Seq<char>, Seq<char>)> {
    flat_map(inst.security_groups@, |id: String| sg_id_entries(sgs, id)) + network_entries(
        inst.subnet_id@,
        vpcs,
    ) + seq![("aws_instance"@, tf_name_text(inst.name@), inst.id@)]
}

/// Whether no two subnets, in the same VPC or not, have the same id.
pub open spec fn subnet_ids_distinct(vpcs: Seq<VpcInfo>) -> bool {
    forall|a1: int, b1: int, a2: int, b2: int|
        0 <= a1 < vpcs.len() && 0 <= a2 < vpcs.len() && 0 <= b1 < vpcs[a1].subnets@.len() && 0
            <= b2 < vpcs[a2].subnets@.len() && (a1 != a2 || b1 != b2) ==> (
        #[trigger] vpcs[a1].subnets@[b1]).id@ != (#[trigger] vpcs[a2].subnets@[b2]).id@
}

proof fn lemma_rule_entries(sn: Seq<char>, direction: Seq<char>, sg_id: Seq<char>, rules: Seq<Rule>)
    ensures
        import_lines(rule_entries(sn, direction, sg_id, rules)) == rule_imports_text(
            sn,
            direction,
            sg_id,
            rules,
        ),
{
    let g = |r: Rule|
        ("aws_security_group_rule"@, rule_key(sn, direction, r), rule_key(sg_id, direction, r));
    assert(rule_entries(sn, direction, sg_id, rules) =~= rules.map_values(g));
    lemma_concat_map_map(rules, g, entry_line());
    assert((|x: Rule| entry_line()(g(x))) =~= (|r: Rule|
        rule_import_line(sn, direction, sg_id, r)));
}

/// The import lines of a group are those of its entries.
pub proof fn lemma_sg_import_entries(sg: SecurityGroup)
    ensures
        sg_import_text(sg) == import_lines(sg_entries(sg)),
{
    let sn = tf_name_text(sg.name@);
    let f = entry_line();
    let x = ("aws_security_group"@, sn, sg.id@);
    let ri = rule_entries(sn, "ingress"@, sg.id@, sg.ingress@);
    let re = rule_entries(sn, "egress"@, sg.id@, sg.egress@);
    lemma_concat_map_append(seq![x] + ri, re, f);
    lemma_concat_map_append(seq![x], ri, f);
    lemma_concat_map_single(x, f);
    lemma_rule_entries(sn, "ingress"@, sg.id@, sg.ingress@);
    lemma_rule_entries(sn, "egress"@, sg.id@, sg.egress@);
}

proof fn lemma_network_import_entries(subnet_id: Seq<char>, vpcs: Seq<VpcInfo>)
    ensures
        exclusive_network_text(subnet_id, vpcs, Seq::empty(), Seq::empty()) == import_lines(
            network_entries(subnet_id, vpcs),
        ),
{
    if subnet_id.len() > 0 {
        let e: Seq<String> = Seq::empty();
        let f = entry_line();
        let inner = |v: VpcInfo| flat_map(v.subnets@, |s: Subnet| subnet_entries(subnet_id, v, s));
        lemma_concat_map_flat(vpcs, inner, f);
        assert forall|v: VpcInfo|
            exclusive_vpc_item(subnet_id, e, e, v) == #[trigger] concat_map(inner(v), f) by {
            let g = |s: Subnet| subnet_entries(subnet_id, v, s);
            lemma_concat_map_flat(v.subnets@, g, f);
            assert forall|s: Subnet|
                exclusive_subnet_item(subnet_id, e, e, v, s) == #[trigger] concat_map(g(s), f) by {
                if s.id@ == subnet_id {
                    let a = ("aws_vpc"@, tf_name_text(v.name@), v.id@);
                    let b = ("aws_subnet"@, tf_name_text(s.name@), s.id@);
                    assert(g(s) =~= seq![a] + seq![b]);
                    lemma_concat_map_append(seq![a], seq![b], f);
                    lemma_concat_map_single(a, f);
                    lemma_concat_map_single(b, f);
                } else {
                    assert(concat_map(g(s), f) == Seq::<char>::empty());
                }
            }
            assert((|s: Subnet| exclusive_subnet_item(subnet_id, e, e, v, s)) =~= (|s: Subnet|
                concat_map(g(s), f)));
        }
        assert((|v: VpcInfo| exclusive_vpc_item(subnet_id, e, e, v)) =~= (|v: VpcInfo|
            concat_map(inner(v), f)));
    }
}

/// When nothing is shared, the import script of an instance is its comment
/// lines followed by the import lines of `instance_entries`.
pub proof fn lemma_instance_script_imports(
    inst: Ec2Instance,
    sgs: Seq<SecurityGroup>,
    vpcs: Seq<VpcInfo>,
)
    ensures
        instance_script_text(inst, sgs, vpcs, Seq::empty(), Seq::empty(), Seq::empty())
            == instance_script_header(inst) + import_lines(instance_entries(inst, sgs, vpcs)),
{
    let e: Seq<String> = Seq::empty();
    let f = entry_line();
    let ids = inst.security_groups@;
    let g = |id: String| sg_id_entries(sgs, id);
    lemma_concat_map_flat(ids, g, f);
    assert forall|id: String| exclusive_sg_item(sgs, e, id) == #[trigger] concat_map(g(id), f) by {
        match find_sg(sgs, id@) {
            Some(sg) => {
                lemma_sg_import_entries(sg);
            },
            None => {},
        }
    }
    assert((|id: String| exclusive_sg_item(sgs, e, id)) =~= (|id: String| concat_map(g(id), f)));
    lemma_network_import_entries(inst.subnet_id@, vpcs);
    let own = ("aws_instance"@, tf_name_text(inst.name@), inst.id@);
    let a = flat_map(ids, g);
    let b = network_entries(inst.subnet_id@, vpcs);
    lemma_concat_map_append(a + b, seq![own], f);
    lemma_concat_map_append(a, b, f);
    lemma_concat_map_single(own, f);
    assert(instance_script_text(inst, sgs, vpcs, e, e, e) =~= instance_script_header(inst)
        + import_lines(instance_entries(inst, sgs, vpcs)));
}

proof fn lemma_rule_header(sn: Seq<char>, direction: Seq<char>, rule: Rule, with_source: bool)
    ensures
        holds(
            rule_text(sn, direction, rule, with_source),
            resource_header("aws_security_group_rule"@, rule_key(sn, direction, rule)),
        ),
{
    let h = resource_header("aws_security_group_rule"@, rule_key(sn, direction, rule));
    assert(rule_text(sn, direction, rule, with_source).take(h.len() as int) =~= h);
    lemma_holds_start(rule_text(sn, direction, rule, with_source), h);
}

/// The text of a group holds the block of each of its entries.
pub proof fn lemma_group_headers(sg: SecurityGroup, with_source: bool)
    ensures
        forall|k: int|
            0 <= k < sg_entries(sg).len() ==> holds(
                security_group_text(sg, with_source),
                resource_header((#[trigger] sg_entries(sg)[k]).0, sg_entries(sg)[k].1),
            ),
{
    let sn = tf_name_text(sg.name@);
    let gb = group_block_text(sg);
    let ri = rules_text(sn, "ingress"@, sg.ingress@, with_source);
    let re = rules_text(sn, "egress"@, sg.egress@, with_source);
    let t = security_group_text(sg, with_source);
    assert(t == gb + ri + re + "\n"@);
    let h = resource_header("aws_security_group"@, sn);
    assert(gb.take(h.len() as int) =~= h);
    lemma_holds_start(gb, h);
    lemma_holds_left(gb, ri, h);
    lemma_holds_left(gb + ri, re, h);
    lemma_holds_left(gb + ri + re, "\n"@, h);
    lemma_holds_suffix(gb, ri);
    lemma_holds_left(gb + ri, re, ri);
    lemma_holds_left(gb + ri + re, "\n"@, ri);
    lemma_holds_suffix(gb + ri, re);
    lemma_holds_left(gb + ri + re, "\n"@, re);
    let ni = sg.ingress@.len() as int;
    assert forall|k: int| 0 <= k < sg_entries(sg).len() implies holds(
        t,
        resource_header((#[trigger] sg_entries(sg)[k]).0, sg_entries(sg)[k].1),
    ) by {
        if 1 <= k < 1 + ni {
            let r = sg.ingress@[k - 1];
            lemma_holds_concat_map(
                sg.ingress@,
                |x: Rule| rule_text(sn, "ingress"@, x, with_source),
                k - 1,
            );
            let h = resource_header("aws_security_group_rule"@, rule_key(sn, "ingress"@, r));
            lemma_rule_header(sn, "ingress"@, r, with_source);
            lemma_holds_trans(ri, rule_text(sn, "ingress"@, r, with_source), h);
            lemma_holds_trans(t, ri, h);
        } else if k >= 1 + ni {
            let r = sg.egress@[k - 1 - ni];
            lemma_holds_concat_map(
                sg.egress@,
                |x: Rule| rule_text(sn, "egress"@, x, with_source),
                k - 1 - ni,
            );
            let h = resource_header("aws_security_group_rule"@, rule_key(sn, "egress"@, r));
            lemma_rule_header(sn, "egress"@, r, with_source);
            lemma_holds_trans(re, rule_text(sn, "egress"@, r, with_source), h);
            lemma_holds_trans(t, re, h);
        }
    }
}

/// The groups written inline for a list of ids hold the text of the group of
/// each listed id that is known.
pub proof fn lemma_inline_sgs_hold(
    ids: Seq<String>,
    sgs: Seq<SecurityGroup>,
    j: int,
    sg: SecurityGroup,
)
    requires
        0 <= j < ids.len(),
        find_sg(sgs, ids[j]@) == Some(sg),
    ensures
        holds(inline_sgs_text(ids, sgs), security_group_text(sg, false)),
    decreases ids.len(),
{
    let before = ids.drop_last();
    let last = ids.last();
    let head = inline_sgs_text(before, sgs);
    let tail = inline_sg_text(before, last, sgs);
    let text = security_group_text(sg, false);
    assert(inline_sgs_text(ids, sgs) == head + tail);
    if j < ids.len() - 1 {
        assert(before[j] == ids[j]);
        lemma_inline_sgs_hold(before, sgs, j, sg);
        lemma_holds_left(head, tail, text);
    } else if occurs_in(before, last@) {
        let j2 = choose|j2: int| 0 <= j2 < before.len() && (#[trigger] before[j2])@ == last@;
        lemma_inline_sgs_hold(before, sgs, j2, sg);
        lemma_holds_left(head, tail, text);
    } else {
        lemma_holds_suffix(head, tail);
    }
}

/// Where subnet ids are distinct, the subnet found for an id is the one that
/// has it.
pub proof fn lemma_find_subnet_unique(vpcs: Seq<VpcInfo>, id: Seq<char>, a: int, b: int)
    requires
        subnet_ids_distinct(vpcs),
        0 <= a < vpcs.len(),
        0 <= b < vpcs[a].subnets@.len(),
        vpcs[a].subnets@[b].id@ == id,
    ensures
        find_subnet(vpcs, id) == Some((vpcs[a], vpcs[a].subnets@[b])),
    decreases a,
{
    let subs0 = vpcs[0].subnets@;
    let p = subnet_has_id(id);
    lemma_find_first_found(subs0, p);
    if a == 0 {
        lemma_find_first_some(subs0, p, b);
        let x = find_first(subs0, p)->0;
        let b2 = choose|b2: int| 0 <= b2 < subs0.len() && subs0[b2] == x;
        assert(vpcs[0].subnets@[b2].id@ == id);
    } else {
        if find_first(subs0, p) is Some {
            let x = find_first(subs0, p)->0;
            let b2 = choose|b2: int| 0 <= b2 < subs0.len() && subs0[b2] == x;
            assert(vpcs[0].subnets@[b2].id@ == id);
        }
        let rest = vpcs.drop_first();
        assert forall|a1: int, b1: int, a2: int, b2: int|
            0 <= a1 < rest.len() && 0 <= a2 < rest.len() && 0 <= b1 < rest[a1].subnets@.len() && 0
                <= b2 < rest[a2].subnets@.len() && (a1 != a2 || b1 != b2) implies (
            #[trigger] rest[a1].subnets@[b1]).id@ != (#[trigger] rest[a2].subnets@[b2]).id@ by {
            assert(rest[a1] == vpcs[a1 + 1]);
            assert(rest[a2] == vpcs[a2 + 1]);
            assert(vpcs[a1 + 1].subnets@[b1].id@ != vpcs[a2 + 1].subnets@[b2].id@);
        }
        assert(rest[a - 1] == vpcs[a]);
        lemma_find_subnet_unique(rest, id, a - 1, b);
    }
}

proof fn lemma_sg_entry_held(ids: Seq<String>, sgs: Seq<SecurityGroup>, k: int)
    requires
        0 <= k < flat_map(ids, |id: String| sg_id_entries(sgs, id)).len(),
    ensures
        holds(
            inline_sgs_text(ids, sgs),
            resource_header(
                flat_map(ids, |id: String| sg_id_entries(sgs, id))[k].0,
                flat_map(ids, |id: String| sg_id_entries(sgs, id))[k].1,
            ),
        ),
{
    let g = |id: String| sg_id_entries(sgs, id);
    let e = flat_map(ids, g)[k];
    let h = resource_header(e.0, e.1);
    let (j, m) = lemma_flat_map_member(ids, g, k);
    let sg = find_sg(sgs, ids[j]@)->0;
    assert(e == sg_entries(sg)[m]);
    lemma_group_headers(sg, false);
    lemma_inline_sgs_hold(ids, sgs, j, sg);
    lemma_holds_trans(inline_sgs_text(ids, sgs), security_group_text(sg, false), h);
}

#[verifier::spinoff_prover]
#[verifier::rlimit(40)]
proof fn lemma_network_entry_held(subnet_id: Seq<char>, vpcs: Seq<VpcInfo>, k: int)
    requires
        subnet_ids_distinct(vpcs),
        0 <= k < network_entries(subnet_id, vpcs).len(),
    ensures
        holds(
            subnet_section_text(subnet_id, vpcs),
            resource_header(
                network_entries(subnet_id, vpcs)[k].0,
                network_entries(subnet_id, vpcs)[k].1,
            ),
        ),
{
    let e = network_entries(subnet_id, vpcs)[k];
    let h = resource_header(e.0, e.1);
    let inner = |v: VpcInfo| flat_map(v.subnets@, |s: Subnet| subnet_entries(subnet_id, v, s));
    let (a, m1) = lemma_flat_map_member(vpcs, inner, k);
    let v = vpcs[a];
    let gs = |s: Subnet| subnet_entries(subnet_id, v, s);
    let (b, m) = lemma_flat_map_member(v.subnets@, gs, m1);
    let sub = v.subnets@[b];
    assert(sub.id@ == subnet_id);
    lemma_find_subnet_unique(vpcs, subnet_id, a, b);
    let vt = vpc_text(v);
    let st = inline_subnet_text(v, sub);
    assert(subnet_section_text(subnet_id, vpcs) == vt + st);
    if m == 0 {
        assert(vt.take(h.len() as int) =~= h);
        lemma_holds_start(vt, h);
        lemma_holds_left(vt, st, h);
    } else {
        assert(st.take(h.len() as int) =~= h);
        lemma_holds_start(st, h);
        lemma_holds_right(vt, st, h);
    }
}

proof fn lemma_own_instance_header(inst: Ec2Instance, sgs: Seq<SecurityGroup>, vpcs: Seq<VpcInfo>)
    ensures
        holds(
            own_instance_text(inst, sgs, vpcs),
            resource_header("aws_instance"@, tf_name_text(inst.name@)),
        ),
{
    let h = resource_header("aws_instance"@, tf_name_text(inst.name@));
    assert(own_instance_text(inst, sgs, vpcs).take(h.len() as int) =~= h);
    lemma_holds_start(own_instance_text(inst, sgs, vpcs), h);
}

/// Every import of an instance's script names a resource of the instance's
/// own file. When nothing is shared, the script is its comment lines and the
/// import lines of `instance_entries`; and where no two subnets have the same
/// id, the file `ec2::generate_one` writes holds, for each entry, the first
/// line of the block of the resource of that type and name.
pub proof fn lemma_instance_imports_written_inline(
    inst: Ec2Instance,
    sgs: Seq<SecurityGroup>,
    vpcs: Seq<VpcInfo>,
)
    requires
        subnet_ids_distinct(vpcs),
    ensures
        instance_script_text(inst, sgs, vpcs, Seq::empty(), Seq::empty(), Seq::empty())
            == instance_script_header(inst) + import_lines(instance_entries(inst, sgs, vpcs)),
        forall|k: int|
            0 <= k < instance_entries(inst, sgs, vpcs).len() ==> holds(
                instance_file_text(inst, sgs, vpcs),
                resource_header(
                    (#[trigger] instance_entries(inst, sgs, vpcs)[k]).0,
                    instance_entries(inst, sgs, vpcs)[k].1,
                ),
            ),
{
    lemma_instance_script_imports(inst, sgs, vpcs);
    let ids = inst.security_groups@;
    let fa = flat_map(ids, |id: String| sg_id_entries(sgs, id));
    let nb = network_entries(inst.subnet_id@, vpcs);
    let ow = ("aws_instance"@, tf_name_text(inst.name@), inst.id@);
    let entries = instance_entries(inst, sgs, vpcs);
    assert(entries == fa + nb + seq![ow]);
    let hd = header_text(inst);
    let inl = inline_sgs_text(ids, sgs);
    let net = subnet_section_text(inst.subnet_id@, vpcs);
    let own = own_instance_text(inst, sgs, vpcs);
    let file = instance_file_text(inst, sgs, vpcs);
    assert(file == hd + inl + net + own);
    lemma_holds_suffix(hd, inl);
    lemma_holds_left(hd + inl, net, inl);
    lemma_holds_left(hd + inl + net, own, inl);
    lemma_holds_suffix(hd + inl, net);
    lemma_holds_left(hd + inl + net, own, net);
    lemma_holds_suffix(hd + inl + net, own);
    lemma_own_instance_header(inst, sgs, vpcs);
    assert forall|k: int| 0 <= k < entries.len() implies holds(
        file,
        resource_header((#[trigger] entries[k]).0, entries[k].1),
    ) by {
        let h = resource_header(entries[k].0, entries[k].1);
        if k < fa.len() {
            assert(entries[k] == fa[k]);
            lemma_sg_entry_held(ids, sgs, k);
            lemma_holds_trans(file, inl, h);
        } else if k < fa.len() + nb.len() {
            assert(entries[k] == nb[k - fa.len()]);
            lemma_network_entry_held(inst.subnet_id@, vpcs, k - fa.len());
            lemma_holds_trans(file, net, h);
        } else {
            assert(entries[k] == ow);
            lemma_holds_trans(file, own, h);
        }
    }
}


// ---------------------------------------------------------------------------
// What the scripts import, stated line by line
// ---------------------------------------------------------------------------

/// The import lines of a group: the group itself, and each of its ingress
/// and egress rules, imported from the rule's key under the group's id.
pub proof fn lemma_sg_import_lines(sg: SecurityGroup)
    ensures
        holds(sg_import_text(sg), import_line("aws_security_group"@, tf_name_text(sg.name@), sg.id@)),
        forall|i: int|
            0 <= i < sg.ingress@.len() ==> holds(
                sg_import_text(sg),
                import_line(
                    "aws_security_group_rule"@,
                    rule_key(tf_name_text(sg.name@), "ingress"@, #[trigger] sg.ingress@[i]),
                    rule_key(sg.id@, "ingress"@, sg.ingress@[i]),
                ),
            ),
        forall|i: int|
            0 <= i < sg.egress@.len() ==> holds(
                sg_import_text(sg),
                import_line(
                    "aws_security_group_rule"@,
                    rule_key(tf_name_text(sg.name@), "egress"@, #[trigger] sg.egress@[i]),
                    rule_key(sg.id@, "egress"@, sg.egress@[i]),
                ),
            ),
{
    let sn = tf_name_text(sg.name@);
    let g = import_line("aws_security_group"@, sn, sg.id@);
    let fi = |r: Rule| rule_import_line(sn, "ingress"@, sg.id@, r);
    let fe = |r: Rule| rule_import_line(sn, "egress"@, sg.id@, r);
    let ri = concat_map(sg.ingress@, fi);
    let re = concat_map(sg.egress@, fe);
    let t = sg_import_text(sg);
    assert(t == g + ri + re);
    lemma_holds_prefix(g, ri);
    lemma_holds_left(g + ri, re, g);
    lemma_holds_mid(g, ri, re);
    lemma_holds_suffix(g + ri, re);
    assert forall|i: int| 0 <= i < sg.ingress@.len() implies holds(
        t,
        import_line(
            "aws_security_group_rule"@,
            rule_key(sn, "ingress"@, #[trigger] sg.ingress@[i]),
            rule_key(sg.id@, "ingress"@, sg.ingress@[i]),
        ),
    ) by {
        lemma_holds_concat_map(sg.ingress@, fi, i);
        lemma_holds_trans(t, ri, fi(sg.ingress@[i]));
    }
    assert forall|i: int| 0 <= i < sg.egress@.len() implies holds(
        t,
        import_line(
            "aws_security_group_rule"@,
            rule_key(sn, "egress"@, #[trigger] sg.egress@[i]),
            rule_key(sg.id@, "egress"@, sg.egress@[i]),
        ),
    ) by {
        lemma_holds_concat_map(sg.egress@, fe, i);
        lemma_holds_trans(t, re, fe(sg.egress@[i]));
    }
}

/// The shared script imports every IAM role; every security group whose id
/// is shared, with its rules; every VPC whose id is shared; and every subnet
/// of such a VPC whose id is shared.
pub proof fn lemma_shared_script_imports(
    resources: Resources,
    shared_sg_ids: Seq<String>,
    shared_subnet_ids: Seq<String>,
    shared_vpc_ids: Seq<String>,
)
    ensures
        forall|i: int|
            0 <= i < resources.roles@.len() ==> holds(
                shared_script_text(resources, shared_sg_ids, shared_subnet_ids, shared_vpc_ids),
                import_line(
                    "aws_iam_role"@,
                    tf_name_text((#[trigger] resources.roles@[i]).name@),
                    resources.roles@[i].name@,
                ),
            ),
        forall|i: int|
            0 <= i < resources.security_groups@.len() && occurs_in(
                shared_sg_ids,
                (#[trigger] resources.security_groups@[i]).id@,
            ) ==> holds(
                shared_script_text(resources, shared_sg_ids, shared_subnet_ids, shared_vpc_ids),
                sg_import_text(resources.security_groups@[i]),
            ),
        forall|i: int|
            0 <= i < resources.vpcs@.len() && occurs_in(
                shared_vpc_ids,
                (#[trigger] resources.vpcs@[i]).id@,
            ) ==> holds(
                shared_script_text(resources, shared_sg_ids, shared_subnet_ids, shared_vpc_ids),
                import_line(
                    "aws_vpc"@,
                    tf_name_text(resources.vpcs@[i].name@),
                    resources.vpcs@[i].id@,
                ),
            ),
        forall|i: int, j: int|
            0 <= i < resources.vpcs@.len() && 0 <= j < resources.vpcs@[i].subnets@.len()
                && occurs_in(shared_vpc_ids, resources.vpcs@[i].id@) && occurs_in(
                shared_subnet_ids,
                (#[trigger] resources.vpcs@[i].subnets@[j]).id@,
            ) ==> holds(
                shared_script_text(resources, shared_sg_ids, shared_subnet_ids, shared_vpc_ids),
                import_line(
                    "aws_subnet"@,
                    tf_name_text(resources.vpcs@[i].subnets@[j].name@),
                    resources.vpcs@[i].subnets@[j].id@,
                ),
            ),
{
    let t = shared_script_text(resources, shared_sg_ids, shared_subnet_ids, shared_vpc_ids);
    let hd = "#!/bin/bash\n"@ + "# Import shared resources — run from terraform/\n\n"@;
    let fs = |sg: SecurityGroup| shared_sg_item(shared_sg_ids, sg);
    let fv = |v: VpcInfo| shared_vpc_item(shared_subnet_ids, shared_vpc_ids, v);
    let fr = |r: IamRole| role_import_line(r);
    let cs = concat_map(resources.security_groups@, fs);
    let cv = concat_map(resources.vpcs@, fv);
    let cr = concat_map(resources.roles@, fr);
    assert(t == hd + cs + cv + cr);
    lemma_holds_suffix(hd, cs);
    lemma_holds_left(hd + cs, cv, cs);
    lemma_holds_left(hd + cs + cv, cr, cs);
    lemma_holds_suffix(hd + cs, cv);
    lemma_holds_left(hd + cs + cv, cr, cv);
    lemma_holds_suffix(hd + cs + cv, cr);
    assert forall|i: int| 0 <= i < resources.roles@.len() implies holds(
        t,
        import_line(
            "aws_iam_role"@,
            tf_name_text((#[trigger] resources.roles@[i]).name@),
            resources.roles@[i].name@,
        ),
    ) by {
        lemma_holds_concat_map(resources.roles@, fr, i);
        lemma_holds_trans(t, cr, fr(resources.roles@[i]));
    }
    assert forall|i: int|
        0 <= i < resources.security_groups@.len() && occurs_in(
            shared_sg_ids,
            (#[trigger] resources.security_groups@[i]).id@,
        ) implies holds(t, sg_import_text(resources.security_groups@[i])) by {
        lemma_holds_concat_map(resources.security_groups@, fs, i);
        lemma_holds_trans(t, cs, fs(resources.security_groups@[i]));
    }
    assert forall|i: int|
        0 <= i < resources.vpcs@.len() && occurs_in(
            shared_vpc_ids,
            (#[trigger] resources.vpcs@[i]).id@,
        ) implies holds(
        t,
        import_line("aws_vpc"@, tf_name_text(resources.vpcs@[i].name@), resources.vpcs@[i].id@),
    ) by {
        let v = resources.vpcs@[i];
        let fsub = |s: Subnet| shared_subnet_item(shared_subnet_ids, s);
        lemma_holds_concat_map(resources.vpcs@, fv, i);
        lemma_holds_prefix(vpc_import_line(v), concat_map(v.subnets@, fsub));
        assert(fv(v) == vpc_import_line(v) + concat_map(v.subnets@, fsub));
        lemma_holds_trans(t, cv, fv(v));
        lemma_holds_trans(t, fv(v), vpc_import_line(v));
    }
    assert forall|i: int, j: int|
        0 <= i < resources.vpcs@.len() && 0 <= j < resources.vpcs@[i].subnets@.len()
            && occurs_in(shared_vpc_ids, resources.vpcs@[i].id@) && occurs_in(
            shared_subnet_ids,
            (#[trigger] resources.vpcs@[i].subnets@[j]).id@,
        ) implies holds(
        t,
        import_line(
            "aws_subnet"@,
            tf_name_text(resources.vpcs@[i].subnets@[j].name@),
            resources.vpcs@[i].subnets@[j].id@,
        ),
    ) by {
        let v = resources.vpcs@[i];
        let s = v.subnets@[j];
        let fsub = |x: Subnet| shared_subnet_item(shared_subnet_ids, x);
        let subs = concat_map(v.subnets@, fsub);
        lemma_holds_concat_map(resources.vpcs@, fv, i);
        lemma_holds_concat_map(v.subnets@, fsub, j);
        lemma_holds_suffix(vpc_import_line(v), subs);
        assert(fv(v) == vpc_import_line(v) + subs);
        lemma_holds_trans(fv(v), subs, subnet_import_line(s));
        lemma_holds_trans(t, cv, fv(v));
        lemma_holds_trans(t, fv(v), subnet_import_line(s));
    }
}

/// Whether an instance's subnet id is `id` (an instance without a subnet id
/// uses no subnet).
pub open spec fn uses_subnet(inst: Ec2Instance, id: Seq<char>) -> bool {
    inst.subnet_id@.len() > 0 && inst.subnet_id@ == id
}

/// Whether an instance lists the security group id `id`.
pub open spec fn uses_sg(inst: Ec2Instance, id: Seq<char>) -> bool {
    views(inst.security_groups@).contains(id)
}

/// Whether `id` is the id of the VPC of an instance's subnet.
pub open spec fn uses_vpc(inst: Ec2Instance, vpcs: Seq<VpcInfo>, id: Seq<char>) -> bool {
    inst.subnet_id@.len() > 0 && match find_subnet(vpcs, inst.subnet_id@) {
        Some(found) => found.0.id@ == id,
        None => false,
    }
}

/// A subnet id is listed twice exactly when two different instances use
/// that subnet.
pub proof fn lemma_shared_subnets(insts: Seq<Ec2Instance>, id: Seq<char>)
    ensures
        listed_twice(subnet_id_lists(insts), id) <==> exists|i: int, j: int|
            0 <= i < j < insts.len() && uses_subnet(#[trigger] insts[i], id) && uses_subnet(
                #[trigger] insts[j],
                id,
            ),
{
    let l = subnet_id_lists(insts);
    if listed_twice(l, id) {
        let (i, j) = choose|i: int, j: int|
            0 <= i < j < l.len() && (#[trigger] l[i]).contains(id) && (#[trigger] l[j]).contains(id);
        assert(uses_subnet(insts[i], id));
        assert(uses_subnet(insts[j], id));
    }
    if exists|i: int, j: int|
        0 <= i < j < insts.len() && uses_subnet(#[trigger] insts[i], id) && uses_subnet(
            #[trigger] insts[j],
            id,
        ) {
        let (i, j) = choose|i: int, j: int|
            0 <= i < j < insts.len() && uses_subnet(#[trigger] insts[i], id) && uses_subnet(
                #[trigger] insts[j],
                id,
            );
        assert(l[i][0] == id);
        assert(l[j][0] == id);
        assert(l[i].contains(id));
        assert(l[j].contains(id));
    }
}

/// A security group id is listed twice exactly when two different instances
/// list it.
pub proof fn lemma_shared_sgs(insts: Seq<Ec2Instance>, id: Seq<char>)
    ensures
        listed_twice(sg_id_lists(insts), id) <==> exists|i: int, j: int|
            0 <= i < j < insts.len() && uses_sg(#[trigger] insts[i], id) && uses_sg(
                #[trigger] insts[j],
                id,
            ),
{
    let l = sg_id_lists(insts);
    if listed_twice(l, id) {
        let (i, j) = choose|i: int, j: int|
            0 <= i < j < l.len() && (#[trigger] l[i]).contains(id) && (#[trigger] l[j]).contains(id);
        assert(uses_sg(insts[i], id));
        assert(uses_sg(insts[j], id));
    }
    if exists|i: int, j: int|
        0 <= i < j < insts.len() && uses_sg(#[trigger] insts[i], id) && uses_sg(
            #[trigger] insts[j],
            id,
        ) {
        let (i, j) = choose|i: int, j: int|
            0 <= i < j < insts.len() && uses_sg(#[trigger] insts[i], id) && uses_sg(
                #[trigger] insts[j],
                id,
            );
        assert(l[i] == views(insts[i].security_groups@));
        assert(l[j] == views(insts[j].security_groups@));
    }
}

/// A VPC id is listed twice exactly when the subnets of two different
/// instances belong to that VPC.
pub proof fn lemma_shared_vpcs(insts: Seq<Ec2Instance>, vpcs: Seq<VpcInfo>, id: Seq<char>)
    ensures
        listed_twice(vpc_id_lists(insts, vpcs), id) <==> exists|i: int, j: int|
            0 <= i < j < insts.len() && uses_vpc(#[trigger] insts[i], vpcs, id) && uses_vpc(
                #[trigger] insts[j],
                vpcs,
                id,
            ),
{
    let l = vpc_id_lists(insts, vpcs);
    if listed_twice(l, id) {
        let (i, j) = choose|i: int, j: int|
            0 <= i < j < l.len() && (#[trigger] l[i]).contains(id) && (#[trigger] l[j]).contains(id);
        assert(uses_vpc(insts[i], vpcs, id));
        assert(uses_vpc(insts[j], vpcs, id));
    }
    if exists|i: int, j: int|
        0 <= i < j < insts.len() && uses_vpc(#[trigger] insts[i], vpcs, id) && uses_vpc(
            #[trigger] insts[j],
            vpcs,
            id,
        ) {
        let (i, j) = choose|i: int, j: int|
            0 <= i < j < insts.len() && uses_vpc(#[trigger] insts[i], vpcs, id) && uses_vpc(
                #[trigger] insts[j],
                vpcs,
                id,
            );
        assert(l[i][0] == id);
        assert(l[j][0] == id);
        assert(l[i].contains(id));
        assert(l[j].contains(id));
    }
}

/// The file of an instance holds its own block; the block of the group of
/// each of its security group ids that is known; and, where its subnet is
/// known, the block of that subnet's VPC and the subnet's block.
pub proof fn lemma_instance_file_parts(inst: Ec2Instance, sgs: Seq<SecurityGroup>, vpcs: Seq<VpcInfo>)
    ensures
        holds(instance_file_text(inst, sgs, vpcs), own_instance_text(inst, sgs, vpcs)),
        forall|j: int|
            0 <= j < inst.security_groups@.len() && find_sg(
                sgs,
                (#[trigger] inst.security_groups@[j])@,
            ) is Some ==> holds(
                instance_file_text(inst, sgs, vpcs),
                security_group_text(find_sg(sgs, inst.security_groups@[j]@)->0, false),
            ),
        inst.subnet_id@.len() > 0 && find_subnet(vpcs, inst.subnet_id@) is Some ==> {
            let found = find_subnet(vpcs, inst.subnet_id@)->0;
            &&& holds(instance_file_text(inst, sgs, vpcs), vpc_text(found.0))
            &&& holds(instance_file_text(inst, sgs, vpcs), inline_subnet_text(found.0, found.1))
        },
{
    let ids = inst.security_groups@;
    let hd = header_text(inst);
    let inl = inline_sgs_text(ids, sgs);
    let net = subnet_section_text(inst.subnet_id@, vpcs);
    let own = own_instance_text(inst, sgs, vpcs);
    let file = instance_file_text(inst, sgs, vpcs);
    assert(file == hd + inl + net + own);
    lemma_holds_suffix(hd, inl);
    lemma_holds_left(hd + inl, net, inl);
    lemma_holds_left(hd + inl + net, own, inl);
    lemma_holds_suffix(hd + inl, net);
    lemma_holds_left(hd + inl + net, own, net);
    lemma_holds_suffix(hd + inl + net, own);
    assert forall|j: int|
        0 <= j < ids.len() && find_sg(sgs, (#[trigger] ids[j])@) is Some implies holds(
        file,
        security_group_text(find_sg(sgs, ids[j]@)->0, false),
    ) by {
        let sg = find_sg(sgs, ids[j]@)->0;
        lemma_inline_sgs_hold(ids, sgs, j, sg);
        lemma_holds_trans(file, inl, security_group_text(sg, false));
    }
    if inst.subnet_id@.len() > 0 && find_subnet(vpcs, inst.subnet_id@) is Some {
        let found = find_subnet(vpcs, inst.subnet_id@)->0;
        let vt = vpc_text(found.0);
        let st = inline_subnet_text(found.0, found.1);
        assert(net == vt + st);
        lemma_holds_prefix(vt, st);
        lemma_holds_suffix(vt, st);
        lemma_holds_trans(file, net, vt);
        lemma_holds_trans(file, net, st);
    }
}


/// The script of an instance imports the instance itself; the group of each
/// of its security group ids that is known and not shared, with its rules;
/// and, for each subnet with the instance's subnet id, that subnet's VPC
/// unless the VPC is shared and the subnet unless it is shared.
pub proof fn lemma_instance_script_parts(
    inst: Ec2Instance,
    sgs: Seq<SecurityGroup>,
    vpcs: Seq<VpcInfo>,
    shared_sg_ids: Seq<String>,
    shared_subnet_ids: Seq<String>,
    shared_vpc_ids: Seq<String>,
)
    ensures
        holds(
            instance_script_text(inst, sgs, vpcs, shared_sg_ids, shared_subnet_ids, shared_vpc_ids),
            import_line("aws_instance"@, tf_name_text(inst.name@), inst.id@),
        ),
        forall|j: int|
            0 <= j < inst.security_groups@.len() && !occurs_in(
                shared_sg_ids,
                (#[trigger] inst.security_groups@[j])@,
            ) && find_sg(sgs, inst.security_groups@[j]@) is Some ==> holds(
                instance_script_text(
                    inst,
                    sgs,
                    vpcs,
                    shared_sg_ids,
                    shared_subnet_ids,
                    shared_vpc_ids,
                ),
                sg_import_text(find_sg(sgs, inst.security_groups@[j]@)->0),
            ),
        forall|a: int, b: int|
            0 <= a < vpcs.len() && 0 <= b < vpcs[a].subnets@.len() && inst.subnet_id@.len() > 0
                && (#[trigger] vpcs[a].subnets@[b]).id@ == inst.subnet_id@ ==> {
                &&& !occurs_in(shared_vpc_ids, vpcs[a].id@) ==> holds(
                    instance_script_text(
                        inst,
                        sgs,
                        vpcs,
                        shared_sg_ids,
                        shared_subnet_ids,
                        shared_vpc_ids,
                    ),
                    import_line("aws_vpc"@, tf_name_text(vpcs[a].name@), vpcs[a].id@),
                )
                &&& !occurs_in(shared_subnet_ids, vpcs[a].subnets@[b].id@) ==> holds(
                    instance_script_text(
                        inst,
                        sgs,
                        vpcs,
                        shared_sg_ids,
                        shared_subnet_ids,
                        shared_vpc_ids,
                    ),
                    import_line(
                        "aws_subnet"@,
                        tf_name_text(vpcs[a].subnets@[b].name@),
                        vpcs[a].subnets@[b].id@,
                    ),
                )
            },
{
    let t = instance_script_text(inst, sgs, vpcs, shared_sg_ids, shared_subnet_ids, shared_vpc_ids);
    let ids = inst.security_groups@;
    let hd = instance_script_header(inst);
    let fs = |id: String| exclusive_sg_item(sgs, shared_sg_ids, id);
    let cs = concat_map(ids, fs);
    let net = exclusive_network_text(inst.subnet_id@, vpcs, shared_subnet_ids, shared_vpc_ids);
    let own = import_line("aws_instance"@, tf_name_text(inst.name@), inst.id@);
    assert(t == hd + cs + net + own);
    lemma_holds_suffix(hd + cs + net, own);
    lemma_holds_suffix(hd, cs);
    lemma_holds_left(hd + cs, net, cs);
    lemma_holds_left(hd + cs + net, own, cs);
    lemma_holds_suffix(hd + cs, net);
    lemma_holds_left(hd + cs + net, own, net);
    assert forall|j: int|
        0 <= j < ids.len() && !occurs_in(shared_sg_ids, (#[trigger] ids[j])@) && find_sg(
            sgs,
            ids[j]@,
        ) is Some implies holds(t, sg_import_text(find_sg(sgs, ids[j]@)->0)) by {
        lemma_holds_concat_map(ids, fs, j);
        lemma_holds_trans(t, cs, fs(ids[j]));
    }
    assert forall|a: int, b: int|
        0 <= a < vpcs.len() && 0 <= b < vpcs[a].subnets@.len() && inst.subnet_id@.len() > 0
            && (#[trigger] vpcs[a].subnets@[b]).id@ == inst.subnet_id@ implies {
        &&& !occurs_in(shared_vpc_ids, vpcs[a].id@) ==> holds(
            t,
            import_line("aws_vpc"@, tf_name_text(vpcs[a].name@), vpcs[a].id@),
        )
        &&& !occurs_in(shared_subnet_ids, vpcs[a].subnets@[b].id@) ==> holds(
            t,
            import_line(
                "aws_subnet"@,
                tf_name_text(vpcs[a].subnets@[b].name@),
                vpcs[a].subnets@[b].id@,
            ),
        )
    } by {
        let v = vpcs[a];
        let s = v.subnets@[b];
        let fv = |x: VpcInfo|
            exclusive_vpc_item(inst.subnet_id@, shared_subnet_ids, shared_vpc_ids, x);
        let fb = |x: Subnet|
            exclusive_subnet_item(inst.subnet_id@, shared_subnet_ids, shared_vpc_ids, v, x);
        assert(net == concat_map(vpcs, fv));
        lemma_holds_concat_map(vpcs, fv, a);
        assert(fv(v) == concat_map(v.subnets@, fb));
        lemma_holds_concat_map(v.subnets@, fb, b);
        lemma_holds_trans(t, net, fv(v));
        lemma_holds_trans(t, fv(v), fb(s));
        let x = if occurs_in(shared_vpc_ids, v.id@) {
            Seq::<char>::empty()
        } else {
            vpc_import_line(v)
        };
        let y = if occurs_in(shared_subnet_ids, s.id@) {
            Seq::<char>::empty()
        } else {
            subnet_import_line(s)
        };
        assert(fb(s) == x + y);
        lemma_holds_prefix(x, y);
        lemma_holds_suffix(x, y);
        lemma_holds_trans(t, fb(s), x);
        lemma_holds_trans(t, fb(s), y);
    }
}


/// The shared script is its comment lines; then, in order, the import lines
/// of the security groups whose ids are shared; then, for each VPC whose id
/// is shared, in order, its import line and those of its subnets whose ids
/// are shared; then the import line of every role.
pub proof fn lemma_shared_script_shape(
    resources: Resources,
    shared_sg_ids: Seq<String>,
    shared_subnet_ids: Seq<String>,
    shared_vpc_ids: Seq<String>,
)
    ensures
        shared_script_text(resources, shared_sg_ids, shared_subnet_ids, shared_vpc_ids)
            == "#!/bin/bash\n"@ + "# Import shared resources — run from terraform/\n\n"@ + concat_map(
            resources.security_groups@.filter(|sg: SecurityGroup| occurs_in(shared_sg_ids, sg.id@)),
            |sg: SecurityGroup| sg_import_text(sg),
        ) + concat_map(
            resources.vpcs@.filter(|v: VpcInfo| occurs_in(shared_vpc_ids, v.id@)),
            |v: VpcInfo|
                import_line("aws_vpc"@, tf_name_text(v.name@), v.id@) + concat_map(
                    v.subnets@.filter(|s: Subnet| occurs_in(shared_subnet_ids, s.id@)),
                    |s: Subnet| import_line("aws_subnet"@, tf_name_text(s.name@), s.id@),
                ),
        ) + concat_map(
            resources.roles@,
            |r: IamRole| import_line("aws_iam_role"@, tf_name_text(r.name@), r.name@),
        ),
{
    let ps = |sg: SecurityGroup| occurs_in(shared_sg_ids, sg.id@);
    let fs = |sg: SecurityGroup| sg_import_text(sg);
    assert((|sg: SecurityGroup| shared_sg_item(shared_sg_ids, sg)) =~= (|sg: SecurityGroup|
        if ps(sg) {
            fs(sg)
        } else {
            Seq::empty()
        }));
    lemma_concat_map_filter(resources.security_groups@, ps, fs);
    let pv = |v: VpcInfo| occurs_in(shared_vpc_ids, v.id@);
    let pb = |s: Subnet| occurs_in(shared_subnet_ids, s.id@);
    let fb = |s: Subnet| import_line("aws_subnet"@, tf_name_text(s.name@), s.id@);
    let fv = |v: VpcInfo|
        import_line("aws_vpc"@, tf_name_text(v.name@), v.id@) + concat_map(v.subnets@.filter(pb), fb);
    assert forall|v: VpcInfo|
        #[trigger] shared_vpc_item(shared_subnet_ids, shared_vpc_ids, v) == (if pv(v) {
            fv(v)
        } else {
            Seq::empty()
        }) by {
        assert((|s: Subnet| shared_subnet_item(shared_subnet_ids, s)) =~= (|s: Subnet|
            if pb(s) {
                fb(s)
            } else {
                Seq::empty()
            }));
        lemma_concat_map_filter(v.subnets@, pb, fb);
    }
    assert((|v: VpcInfo| shared_vpc_item(shared_subnet_ids, shared_vpc_ids, v)) =~= (|v: VpcInfo|
        if pv(v) {
            fv(v)
        } else {
            Seq::empty()
        }));
    lemma_concat_map_filter(resources.vpcs@, pv, fv);
    assert((|r: IamRole| role_import_line(r)) =~= (|r: IamRole|
        import_line("aws_iam_role"@, tf_name_text(r.name@), r.name@)));
}

/// The script of an instance is its comment lines; then, in order, the
/// import lines of the group of each of its security group ids that is not
/// shared (none for an unknown id); then, where it has a subnet id, for each
/// subnet with that id, in order, the import line of its VPC unless that is
/// shared and the subnet's own unless that is shared; then the instance's
/// import line.
pub proof fn lemma_instance_script_shape(
    inst: Ec2Instance,
    sgs: Seq<SecurityGroup>,
    vpcs: Seq<VpcInfo>,
    shared_sg_ids: Seq<String>,
    shared_subnet_ids: Seq<String>,
    shared_vpc_ids: Seq<String>,
)
    ensures
        instance_script_text(inst, sgs, vpcs, shared_sg_ids, shared_subnet_ids, shared_vpc_ids)
            == instance_script_header(inst) + concat_map(
            inst.security_groups@.filter(|id: String| !occurs_in(shared_sg_ids, id@)),
            |id: String|
                match find_sg(sgs, id@) {
                    Some(sg) => sg_import_text(sg),
                    None => Seq::empty(),
                },
        ) + (if inst.subnet_id@.len() == 0 {
            Seq::empty()
        } else {
            concat_map(
                vpcs,
                |v: VpcInfo|
                    concat_map(
                        v.subnets@.filter(|s: Subnet| s.id@ == inst.subnet_id@),
                        |s: Subnet|
                            (if occurs_in(shared_vpc_ids, v.id@) {
                                Seq::empty()
                            } else {
                                import_line("aws_vpc"@, tf_name_text(v.name@), v.id@)
                            }) + (if occurs_in(shared_subnet_ids, s.id@) {
                                Seq::empty()
                            } else {
                                import_line("aws_subnet"@, tf_name_text(s.name@), s.id@)
                            }),
                    ),
            )
        }) + import_line("aws_instance"@, tf_name_text(inst.name@), inst.id@),
{
    let pi = |id: String| !occurs_in(shared_sg_ids, id@);
    let fi = |id: String|
        match find_sg(sgs, id@) {
            Some(sg) => sg_import_text(sg),
            None => Seq::empty(),
        };
    assert((|id: String| exclusive_sg_item(sgs, shared_sg_ids, id)) =~= (|id: String|
        if pi(id) {
            fi(id)
        } else {
            Seq::empty()
        }));
    lemma_concat_map_filter(inst.security_groups@, pi, fi);
    let sid = inst.subnet_id@;
    if sid.len() > 0 {
        let fv = |v: VpcInfo|
            concat_map(
                v.subnets@.filter(|s: Subnet| s.id@ == inst.subnet_id@),
                |s: Subnet|
                    (if occurs_in(shared_vpc_ids, v.id@) {
                        Seq::empty()
                    } else {
                        import_line("aws_vpc"@, tf_name_text(v.name@), v.id@)
                    }) + (if occurs_in(shared_subnet_ids, s.id@) {
                        Seq::empty()
                    } else {
                        import_line("aws_subnet"@, tf_name_text(s.name@), s.id@)
                    }),
            );
        assert forall|v: VpcInfo|
            #[trigger] exclusive_vpc_item(sid, shared_subnet_ids, shared_vpc_ids, v) == fv(v) by {
            let pb = |s: Subnet| s.id@ == inst.subnet_id@;
            let fb = |s: Subnet|
                (if occurs_in(shared_vpc_ids, v.id@) {
                    Seq::empty()
                } else {
                    import_line("aws_vpc"@, tf_name_text(v.name@), v.id@)
                }) + (if occurs_in(shared_subnet_ids, s.id@) {
                    Seq::empty()
                } else {
                    import_line("aws_subnet"@, tf_name_text(s.name@), s.id@)
                });
            assert((|s: Subnet| exclusive_subnet_item(sid, shared_subnet_ids, shared_vpc_ids, v, s))
                =~= (|s: Subnet|
                if pb(s) {
                    fb(s)
                } else {
                    Seq::empty()
                }));
            lemma_concat_map_filter(v.subnets@, pb, fb);
        }
        assert((|v: VpcInfo| exclusive_vpc_item(sid, shared_subnet_ids, shared_vpc_ids, v)) =~= fv);
        assert(exclusive_network_text(sid, vpcs, shared_subnet_ids, shared_vpc_ids) == concat_map(
            vpcs,
            fv,
        ));
    }
}

/// The comment lines of an instance script start the script as a bash script
/// and name the instance and its id.
#[verifier::spinoff_prover]
pub proof fn lemma_instance_script_header_fields(inst: Ec2Instance)
    ensures
        holds(instance_script_header(inst), "#!/bin/bash\n"@),
        holds(instance_script_header(inst), "# Import for: "@ + inst.name@ + " ("@ + inst.id@ + ")\n"@),
{
    let c0 = "#!/bin/bash\n"@;
    let c1 = c0 + "# Import for: "@;
    let c2 = c1 + inst.name@;
    let c3 = c2 + " ("@;
    let c4 = c3 + inst.id@;
    let c5 = c4 + ")\n"@;
    let c6 = c5 + "# Run from: terraform/instances/\n"@;
    let c7 = c6 + "# Run shared_import.sh first if shared resources changed\n\n"@;
    assert(instance_script_header(inst) == c7);
    {
        lemma_holds_prefix(c0, "# Import for: "@);
        lemma_holds_left(c1, inst.name@, c0);
        lemma_holds_left(c2, " ("@, c0);
        lemma_holds_left(c3, inst.id@, c0);
        lemma_holds_left(c4, ")\n"@, c0);
        lemma_holds_left(c5, "# Run from: terraform/instances/\n"@, c0);
        lemma_holds_left(c6, "# Run shared_import.sh first if shared resources changed\n\n"@, c0);
    }
    {
        let p = "# Import for: "@ + inst.name@ + " ("@ + inst.id@ + ")\n"@;
        assert(c5 =~= c0 + p);
        lemma_holds_suffix(c0, p);
        lemma_holds_left(c5, "# Run from: terraform/instances/\n"@, p);
        lemma_holds_left(c6, "# Run shared_import.sh first if shared resources changed\n\n"@, p);
    }
}

} // verus!
