//! EC2 instance blocks: all instances together, or one self-contained file
//! per instance with its security groups and subnet inline.

use vstd::prelude::*;
use crate::scanner::ec2::{AttachedVolume, Ec2Instance};
use crate::scanner::sg::SecurityGroup;
use crate::scanner::vpc::{Subnet, VpcInfo};
use crate::seqs::{
    concat_map, holds, lemma_concat_map_all, lemma_concat_map_append, lemma_concat_map_take,
    lemma_holds_concat_map, lemma_holds_left, lemma_holds_mid, lemma_holds_prefix, lemma_holds_self,
    lemma_holds_suffix, lemma_holds_trans,
};
use crate::text::{bool_str, bool_text, i32_text, int_text, str_eq};
use super::sg::{security_group_text, write_security_group};
use super::vpc::{vpc_text, write_vpc};
use super::{
    find_sg, find_subnet, lookup_sg, lookup_subnet, tag_lines, tf_name, tf_name_text, tf_unique_name,
    tf_unique_name_text, write_tag_lines, short_id_defined, resource_header, write_resource_header,
};

verus! {

// ---------------------------------------------------------------------------
// Pieces shared by both layouts
// ---------------------------------------------------------------------------

/// The `key_name` line, where the instance has a key pair.
pub open spec fn key_line(key_name: Option<String>) -> Seq<char> {
    match key_name {
        Some(k) => "  key_name      = \""@ + k@ + "\"\n"@,
        None => Seq::empty(),
    }
}

/// The `root_block_device` block, made from the first attached volume; nothing
/// when the instance has no volume.
pub open spec fn root_volume_text(vols: Seq<AttachedVolume>) -> Seq<char> {
    if vols.len() == 0 {
        Seq::empty()
    } else {
        let v = vols[0];
        "  root_block_device {\n"@ + "    volume_type = \""@ + v.volume_type@ + "\"\n"@
            + "    volume_size = "@ + int_text(v.size_gb as int) + "\n"@ + "    encrypted   = "@
            + bool_text(v.encrypted) + "\n"@ + "    delete_on_termination = "@ + bool_text(
            v.delete_on_termination,
        ) + "\n"@ + "  }\n"@
    }
}

fn write_key_line(key_name: &Option<String>) -> (r: String)
    ensures
        r@ == key_line(*key_name),
{
    match key_name {
        Some(k) => {
            let mut r = String::from_str("  key_name      = \"");
            r.append(k.as_str());
            r.append("\"\n");
            r
        },
        None => String::new(),
    }
}

fn write_root_volume(vols: &Vec<AttachedVolume>) -> (r: String)
    ensures
        r@ == root_volume_text(vols@),
{
    if vols.len() == 0 {
        return String::new();
    }
    let v = &vols[0];
    let size = i32_text(v.size_gb);
    let mut r = String::from_str("  root_block_device {\n");
    r.append("    volume_type = \"");
    r.append(v.volume_type.as_str());
    r.append("\"\n");
    r.append("    volume_size = ");
    r.append(size.as_str());
    r.append("\n");
    r.append("    encrypted   = ");
    r.append(bool_str(v.encrypted));
    r.append("\n");
    r.append("    delete_on_termination = ");
    r.append(bool_str(v.delete_on_termination));
    r.append("\n");
    r.append("  }\n");
    r
}

// ---------------------------------------------------------------------------
// All instances in one file
// ---------------------------------------------------------------------------

/// The `subnet_id` line of the shared layout: the subnet id, quoted.
pub open spec fn subnet_id_line(subnet_id: Seq<char>) -> Seq<char> {
    if subnet_id.len() == 0 {
        Seq::empty()
    } else {
        "  subnet_id     = \""@ + subnet_id + "\"\n"@
    }
}

/// One entry of a `vpc_security_group_ids` list holding raw ids.
pub open spec fn sg_id_entry(id: String) -> Seq<char> {
    "    \""@ + id@ + "\",\n"@
}

/// The `vpc_security_group_ids` list of raw ids; nothing when there is none.
pub open spec fn sg_ids_text(ids: Seq<String>) -> Seq<char> {
    if ids.len() == 0 {
        Seq::empty()
    } else {
        "  vpc_security_group_ids = [\n"@ + concat_map(ids, |id: String| sg_id_entry(id))
            + "  ]\n"@
    }
}

/// The `aws_instance` block of an instance in the shared layout: named by
/// `tf_unique_name`, tagged as managed by this tool, with every other
/// non-empty tag.
pub open spec fn instance_text(inst: Ec2Instance) -> Seq<char> {
    "resource \"aws_instance\" \""@ + tf_unique_name_text(inst.name@, inst.id@) + "\" {\n"@
        + "  ami           = \""@ + inst.ami@ + "\"\n"@ + "  instance_type = \""@
        + inst.instance_type@ + "\"\n"@ + subnet_id_line(inst.subnet_id@) + key_line(inst.key_name)
        + sg_ids_text(inst.security_groups@) + root_volume_text(inst.volumes@) + "  tags = {\n"@
        + "    Name        = \""@ + inst.name@ + "\"\n"@ + "    ManagedBy   = \"dora2tf\"\n"@
        + tag_lines(inst.tags@, true) + "  }\n"@ + "}\n\n"@
}

/// The blocks of every instance of a list, in order.
pub open spec fn instances_text(insts: Seq<Ec2Instance>) -> Seq<char> {
    concat_map(insts, |i: Ec2Instance| instance_text(i))
}

fn write_subnet_id_line(subnet_id: &String) -> (r: String)
    ensures
        r@ == subnet_id_line(subnet_id@),
{
    if subnet_id.as_str().is_empty() {
        String::new()
    } else {
        let mut r = String::from_str("  subnet_id     = \"");
        r.append(subnet_id.as_str());
        r.append("\"\n");
        r
    }
}

fn write_sg_ids(ids: &Vec<String>) -> (r: String)
    ensures
        r@ == sg_ids_text(ids@),
{
    if ids.len() == 0 {
        return String::new();
    }
    let ghost f = |id: String| sg_id_entry(id);
    let mut lines = String::new();
    let mut i: usize = 0;
    while i < ids.len()
        invariant
            i <= ids.len(),
            f == (|id: String| sg_id_entry(id)),
            lines@ == concat_map(ids@.take(i as int), f),
        decreases ids.len() - i,
    {
        proof {
            lemma_concat_map_take(ids@, f, i as int);
        }
        let mut entry = String::from_str("    \"");
        entry.append(ids[i].as_str());
        entry.append("\",\n");
        lines.append(entry.as_str());
        i = i + 1;
    }
    proof {
        lemma_concat_map_all(ids@, f);
    }
    let mut r = String::from_str("  vpc_security_group_ids = [\n");
    r.append(lines.as_str());
    r.append("  ]\n");
    r
}

fn write_instance(inst: &Ec2Instance) -> (r: String)
    requires
        short_id_defined(inst.id@),
        inst.well_formed(),
    ensures
        r@ == instance_text(*inst),
{
    let name = tf_unique_name(inst.name.as_str(), inst.id.as_str());
    let subnet = write_subnet_id_line(&inst.subnet_id);
    let key = write_key_line(&inst.key_name);
    let sgs = write_sg_ids(&inst.security_groups);
    let vol = write_root_volume(&inst.volumes);
    let tags = write_tag_lines(&inst.tags, true);
    let mut r = String::from_str("resource \"aws_instance\" \"");
    r.append(name.as_str());
    r.append("\" {\n");
    r.append("  ami           = \"");
    r.append(inst.ami.as_str());
    r.append("\"\n");
    r.append("  instance_type = \"");
    r.append(inst.instance_type.as_str());
    r.append("\"\n");
    r.append(subnet.as_str());
    r.append(key.as_str());
    r.append(sgs.as_str());
    r.append(vol.as_str());
    r.append("  tags = {\n");
    r.append("    Name        = \"");
    r.append(inst.name.as_str());
    r.append("\"\n");
    r.append("    ManagedBy   = \"dora2tf\"\n");
    r.append(tags.as_str());
    r.append("  }\n");
    r.append("}\n\n");
    r
}

/// Generate all instances together (shared file mode): one `aws_instance`
/// block per instance, in order, referring to subnets and security groups by
/// their raw ids. The text is appended to `output`. Each instance id must
/// have a short id (see `short_id_defined`).
pub fn generate(instances: &[Ec2Instance], output: &mut String)
    requires
        forall|k: int| 0 <= k < instances@.len() ==> short_id_defined(#[trigger] instances@[k].id@),
        forall|k: int| 0 <= k < instances@.len() ==> (#[trigger] instances@[k]).well_formed(),
    ensures
        final(output)@ == old(output)@ + instances_text(instances@),
{
    let ghost f = |i: Ec2Instance| instance_text(i);
    let mut text = String::new();
    let mut i: usize = 0;
    while i < instances.len()
        invariant
            i <= instances.len(),
            f == (|i: Ec2Instance| instance_text(i)),
            text@ == concat_map(instances@.take(i as int), f),
            forall|k: int| 0 <= k < instances@.len() ==> short_id_defined(#[trigger] instances@[k].id@),
            forall|k: int| 0 <= k < instances@.len() ==> (#[trigger] instances@[k]).well_formed(),
        decreases instances.len() - i,
    {
        proof {
            lemma_concat_map_take(instances@, f, i as int);
        }
        let block = write_instance(&instances[i]);
        text.append(block.as_str());
        i = i + 1;
    }
    proof {
        lemma_concat_map_all(instances@, f);
    }
    output.append(text.as_str());
}

// ---------------------------------------------------------------------------
// One self-contained file per instance
// ---------------------------------------------------------------------------

/// The comment header of an instance file.
pub open spec fn header_text(inst: Ec2Instance) -> Seq<char> {
    "# ============================================================================\n"@
        + "# Instance: "@ + inst.name@ + "  ("@ + inst.id@ + ")\n"@ + "# Type: "@
        + inst.instance_type@ + "  |  AMI: "@ + inst.ami@ + "  |  Private IP: "@ + inst.private_ip@
        + "\n"@ + "# ============================================================================\n\n"@
}

/// Whether a string with the characters `id` occurs in `ids`.
pub open spec fn occurs_in(ids: Seq<String>, id: Seq<char>) -> bool {
    exists|j: int| 0 <= j < ids.len() && (#[trigger] ids[j])@ == id
}

/// The security groups written inline for a list of group ids: for each id
/// not seen earlier in the list, the block of the first group with that id
/// (without source groups on its rules); unknown ids write nothing.
pub open spec fn inline_sgs_text(ids: Seq<String>, sgs: Seq<SecurityGroup>) -> Seq<char>
    decreases ids.len(),
{
    if ids.len() == 0 {
        Seq::empty()
    } else {
        inline_sgs_text(ids.drop_last(), sgs) + inline_sg_text(ids.drop_last(), ids.last(), sgs)
    }
}

/// What the group id `id`, after the ids `before`, writes inline.
pub open spec fn inline_sg_text(before: Seq<String>, id: String, sgs: Seq<SecurityGroup>) -> Seq<
    char,
> {
    if occurs_in(before, id@) {
        Seq::empty()
    } else {
        match find_sg(sgs, id@) {
            Some(sg) => security_group_text(sg, false),
            None => Seq::empty(),
        }
    }
}

/// The subnet block of the instance file, with a `tags` block naming it.
pub open spec fn inline_subnet_text(vpc: VpcInfo, sub: Subnet) -> Seq<char> {
    resource_header("aws_subnet"@, tf_name_text(sub.name@)) + "  vpc_id            = aws_vpc."@
        + tf_name_text(vpc.name@) + ".id\n"@
        + "  cidr_block        = \""@ + sub.cidr@ + "\"\n"@ + "  availability_zone = \""@
        + sub.availability_zone@ + "\"\n"@ + "  map_public_ip_on_launch = "@ + bool_text(
        sub.map_public_ip,
    ) + "\n"@ + "  tags = {\n"@ + "    Name = \""@ + sub.name@ + "\"\n"@ + "  }\n"@ + "}\n\n"@
}

/// The VPC and subnet written inline: those of the first subnet with the
/// instance's subnet id; nothing when the instance has no subnet id or the
/// subnet is unknown.
pub open spec fn subnet_section_text(subnet_id: Seq<char>, vpcs: Seq<VpcInfo>) -> Seq<char> {
    if subnet_id.len() == 0 {
        Seq::empty()
    } else {
        match find_subnet(vpcs, subnet_id) {
            Some(found) => vpc_text(found.0) + inline_subnet_text(found.0, found.1),
            None => Seq::empty(),
        }
    }
}

/// A reference to the subnet with the id `id`: its block when it is known,
/// the quoted id otherwise.
pub open spec fn subnet_ref(vpcs: Seq<VpcInfo>, id: Seq<char>) -> Seq<char> {
    match find_subnet(vpcs, id) {
        Some(found) => "aws_subnet."@ + tf_name_text(found.1.name@) + ".id"@,
        None => "\""@ + id + "\""@,
    }
}

/// A reference to the security group with the id `id`: its block when it is
/// known, the quoted id otherwise.
pub open spec fn sg_ref(sgs: Seq<SecurityGroup>, id: Seq<char>) -> Seq<char> {
    match find_sg(sgs, id) {
        Some(sg) => "aws_security_group."@ + tf_name_text(sg.name@) + ".id"@,
        None => "\""@ + id + "\""@,
    }
}

/// The `subnet_id` line of the instance file.
pub open spec fn subnet_ref_line(subnet_id: Seq<char>, vpcs: Seq<VpcInfo>) -> Seq<char> {
    if subnet_id.len() == 0 {
        Seq::empty()
    } else {
        "  subnet_id     = "@ + subnet_ref(vpcs, subnet_id) + "\n"@
    }
}

/// One entry of the `vpc_security_group_ids` list of the instance file.
pub open spec fn sg_ref_entry(sgs: Seq<SecurityGroup>, id: String) -> Seq<char> {
    "    "@ + sg_ref(sgs, id@) + ",\n"@
}

/// The `vpc_security_group_ids` list of the instance file; nothing when the
/// instance has no group.
pub open spec fn sg_refs_text(ids: Seq<String>, sgs: Seq<SecurityGroup>) -> Seq<char> {
    if ids.len() == 0 {
        Seq::empty()
    } else {
        "  vpc_security_group_ids = [\n"@ + concat_map(ids, |id: String| sg_ref_entry(sgs, id))
            + "  ]\n"@
    }
}

/// The `aws_instance` block of the instance file, named by `tf_name`.
pub open spec fn own_instance_text(
    inst: Ec2Instance,
    sgs: Seq<SecurityGroup>,
    vpcs: Seq<VpcInfo>,
) -> Seq<char> {
    resource_header("aws_instance"@, tf_name_text(inst.name@)) + "  ami           = \""@
        + inst.ami@ + "\"\n"@ + "  instance_type = \""@ + inst.instance_type@ + "\"\n"@
        + subnet_ref_line(inst.subnet_id@, vpcs) + key_line(inst.key_name) + sg_refs_text(
        inst.security_groups@,
        sgs,
    ) + root_volume_text(inst.volumes@) + "  tags = {\n"@ + "    Name = \""@ + inst.name@
        + "\"\n"@ + tag_lines(inst.tags@, true) + "  }\n"@ + "}\n\n"@
}

/// The whole instance file.
pub open spec fn instance_file_text(
    inst: Ec2Instance,
    sgs: Seq<SecurityGroup>,
    vpcs: Seq<VpcInfo>,
) -> Seq<char> {
    header_text(inst) + inline_sgs_text(inst.security_groups@, sgs) + subnet_section_text(
        inst.subnet_id@,
        vpcs,
    ) + own_instance_text(inst, sgs, vpcs)
}

fn write_header(inst: &Ec2Instance) -> (r: String)
    ensures
        r@ == header_text(*inst),
{
    let mut r = String::from_str(
        "# ============================================================================\n",
    );
    r.append("# Instance: ");
    r.append(inst.name.as_str());
    r.append("  (");
    r.append(inst.id.as_str());
    r.append(")\n");
    r.append("# Type: ");
    r.append(inst.instance_type.as_str());
    r.append("  |  AMI: ");
    r.append(inst.ami.as_str());
    r.append("  |  Private IP: ");
    r.append(inst.private_ip.as_str());
    r.append("\n");
    r.append("# ============================================================================\n\n");
    r
}

/// Whether a string with the characters of `id` occurs among the first `upto`
/// strings of `ids`.
fn occurs_before(ids: &Vec<String>, upto: usize, id: &str) -> (r: bool)
    requires
        upto <= ids.len(),
    ensures
        r == occurs_in(ids@.take(upto as int), id@),
{
    let mut j: usize = 0;
    while j < upto
        invariant
            j <= upto <= ids.len(),
            forall|k: int| 0 <= k < j ==> (#[trigger] ids@[k])@ != id@,
        decreases upto - j,
    {
        if str_eq(ids[j].as_str(), id) {
            assert(ids@.take(upto as int)[j as int] == ids@[j as int]);
            return true;
        }
        j = j + 1;
    }
    assert forall|k: int| 0 <= k < upto implies (#[trigger] ids@.take(upto as int)[k])@ != id@ by {
        assert(ids@.take(upto as int)[k] == ids@[k]);
    }
    false
}

fn write_inline_sgs(ids: &Vec<String>, sgs: &[SecurityGroup]) -> (r: String)
    requires
        forall|k: int| 0 <= k < sgs@.len() ==> (#[trigger] sgs@[k]).well_formed(),
    ensures
        r@ == inline_sgs_text(ids@, sgs@),
{
    let mut r = String::new();
    let mut i: usize = 0;
    while i < ids.len()
        invariant
            i <= ids.len(),
            r@ == inline_sgs_text(ids@.take(i as int), sgs@),
            forall|k: int| 0 <= k < sgs@.len() ==> (#[trigger] sgs@[k]).well_formed(),
        decreases ids.len() - i,
    {
        let id = &ids[i];
        assert(ids@.take(i + 1).drop_last() =~= ids@.take(i as int));
        assert(ids@.take(i + 1).last() == ids@[i as int]);
        let mut block = String::new();
        if !occurs_before(ids, i, id.as_str()) {
            match lookup_sg(sgs, id.as_str()) {
                Some(k) => {
                    block = write_security_group(&sgs[k], false);
                },
                None => {},
            }
        }
        assert(block@ == inline_sg_text(ids@.take(i as int), ids@[i as int], sgs@));
        r.append(block.as_str());
        i = i + 1;
    }
    assert(ids@.take(ids.len() as int) =~= ids@);
    r
}

fn write_inline_subnet(vpc: &VpcInfo, sub: &Subnet) -> (r: String)
    ensures
        r@ == inline_subnet_text(*vpc, *sub),
{
    let vname = tf_name(vpc.name.as_str());
    let sname = tf_name(sub.name.as_str());
    let mut r = write_resource_header("aws_subnet", sname.as_str());
    r.append("  vpc_id            = aws_vpc.");
    r.append(vname.as_str());
    r.append(".id\n");
    r.append("  cidr_block        = \"");
    r.append(sub.cidr.as_str());
    r.append("\"\n");
    r.append("  availability_zone = \"");
    r.append(sub.availability_zone.as_str());
    r.append("\"\n");
    r.append("  map_public_ip_on_launch = ");
    r.append(bool_str(sub.map_public_ip));
    r.append("\n");
    r.append("  tags = {\n");
    r.append("    Name = \"");
    r.append(sub.name.as_str());
    r.append("\"\n");
    r.append("  }\n");
    r.append("}\n\n");
    r
}

fn write_subnet_section(subnet_id: &String, vpcs: &[VpcInfo]) -> (r: String)
    requires
        forall|k: int| 0 <= k < vpcs@.len() ==> (#[trigger] vpcs@[k]).well_formed(),
    ensures
        r@ == subnet_section_text(subnet_id@, vpcs@),
{
    if subnet_id.as_str().is_empty() {
        return String::new();
    }
    match lookup_subnet(vpcs, subnet_id.as_str()) {
        Some((i, j)) => {
            let vpc = &vpcs[i];
            let mut r = write_vpc(vpc);
            let sub = write_inline_subnet(vpc, &vpc.subnets[j]);
            r.append(sub.as_str());
            r
        },
        None => String::new(),
    }
}

fn write_subnet_ref_line(subnet_id: &String, vpcs: &[VpcInfo]) -> (r: String)
    ensures
        r@ == subnet_ref_line(subnet_id@, vpcs@),
{
    if subnet_id.as_str().is_empty() {
        return String::new();
    }
    let mut r = String::from_str("  subnet_id     = ");
    let reference = match lookup_subnet(vpcs, subnet_id.as_str()) {
        Some((i, j)) => {
            let name = tf_name(vpcs[i].subnets[j].name.as_str());
            let mut s = String::from_str("aws_subnet.");
            s.append(name.as_str());
            s.append(".id");
            s
        },
        None => {
            let mut s = String::from_str("\"");
            s.append(subnet_id.as_str());
            s.append("\"");
            s
        },
    };
    r.append(reference.as_str());
    r.append("\n");
    r
}

fn write_sg_refs(ids: &Vec<String>, sgs: &[SecurityGroup]) -> (r: String)
    ensures
        r@ == sg_refs_text(ids@, sgs@),
{
    if ids.len() == 0 {
        return String::new();
    }
    let ghost f = |id: String| sg_ref_entry(sgs@, id);
    let mut lines = String::new();
    let mut i: usize = 0;
    while i < ids.len()
        invariant
            i <= ids.len(),
            f == (|id: String| sg_ref_entry(sgs@, id)),
            lines@ == concat_map(ids@.take(i as int), f),
        decreases ids.len() - i,
    {
        proof {
            lemma_concat_map_take(ids@, f, i as int);
        }
        let id = &ids[i];
        let reference = match lookup_sg(sgs, id.as_str()) {
            Some(k) => {
                let name = tf_name(sgs[k].name.as_str());
                let mut s = String::from_str("aws_security_group.");
                s.append(name.as_str());
                s.append(".id");
                s
            },
            None => {
                let mut s = String::from_str("\"");
                s.append(id.as_str());
                s.append("\"");
                s
            },
        };
        let mut entry = String::from_str("    ");
        entry.append(reference.as_str());
        entry.append(",\n");
        lines.append(entry.as_str());
        i = i + 1;
    }
    proof {
        lemma_concat_map_all(ids@, f);
    }
    let mut r = String::from_str("  vpc_security_group_ids = [\n");
    r.append(lines.as_str());
    r.append("  ]\n");
    r
}

fn write_own_instance(inst: &Ec2Instance, sgs: &[SecurityGroup], vpcs: &[VpcInfo]) -> (r: String)
    requires
        inst.well_formed(),
    ensures
        r@ == own_instance_text(*inst, sgs@, vpcs@),
{
    let name = tf_name(inst.name.as_str());
    let subnet = write_subnet_ref_line(&inst.subnet_id, vpcs);
    let key = write_key_line(&inst.key_name);
    let refs = write_sg_refs(&inst.security_groups, sgs);
    let vol = write_root_volume(&inst.volumes);
    let tags = write_tag_lines(&inst.tags, true);
    let mut r = write_resource_header("aws_instance", name.as_str());
    r.append("  ami           = \"");
    r.append(inst.ami.as_str());
    r.append("\"\n");
    r.append("  instance_type = \"");
    r.append(inst.instance_type.as_str());
    r.append("\"\n");
    r.append(subnet.as_str());
    r.append(key.as_str());
    r.append(refs.as_str());
    r.append(vol.as_str());
    r.append("  tags = {\n");
    r.append("    Name = \"");
    r.append(inst.name.as_str());
    r.append("\"\n");
    r.append(tags.as_str());
    r.append("  }\n");
    r.append("}\n\n");
    r
}

/// Generate a single self-contained instance file with all related resources inline.
/// Uses the tag names as they are (no id suffix). No cross-file references — everything lives in this file.
///
/// The file holds a comment header; the block of each security group of the
/// instance (each group once, rules without source groups); the VPC and
/// subnet of the instance's subnet; and the instance block, which refers to
/// the inline blocks, or to raw ids where a group or subnet is unknown. The
/// text is appended to `output`.
pub fn generate_one(
    inst: &Ec2Instance,
    all_sgs: &[SecurityGroup],
    all_vpcs: &[VpcInfo],
    output: &mut String,
)
    requires
        inst.well_formed(),
        forall|k: int| 0 <= k < all_sgs@.len() ==> (#[trigger] all_sgs@[k]).well_formed(),
        forall|k: int| 0 <= k < all_vpcs@.len() ==> (#[trigger] all_vpcs@[k]).well_formed(),
    ensures
        final(output)@ == old(output)@ + instance_file_text(*inst, all_sgs@, all_vpcs@),
{
    let mut text = write_header(inst);
    let sgs = write_inline_sgs(&inst.security_groups, all_sgs);
    let subnet = write_subnet_section(&inst.subnet_id, all_vpcs);
    let own = write_own_instance(inst, all_sgs, all_vpcs);
    text.append(sgs.as_str());
    text.append(subnet.as_str());
    text.append(own.as_str());
    output.append(text.as_str());
}

/// Generating two lists of instances one after the other into the same
/// output writes what generating their concatenation writes.
pub proof fn lemma_generate_concat(out: Seq<char>, a: Seq<Ec2Instance>, b: Seq<Ec2Instance>)
    ensures
        out + instances_text(a + b) =~= out + instances_text(a) + instances_text(b),
{
    lemma_concat_map_append(a, b, |i: Ec2Instance| instance_text(i));
}

/// Listing a security group id again writes no second copy of its group in
/// the instance file.
pub proof fn lemma_inline_sgs_once(ids: Seq<String>, id: String, sgs: Seq<SecurityGroup>)
    requires
        occurs_in(ids, id@),
    ensures
        inline_sgs_text(ids.push(id), sgs) == inline_sgs_text(ids, sgs),
{
    assert(ids.push(id).drop_last() =~= ids);
}

/// The subnet block of an instance file names the subnet by its Terraform name
/// and carries its VPC, its CIDR block, its availability zone, whether it maps
/// public IPs on launch, and its name.
#[verifier::spinoff_prover]
#[verifier::rlimit(40)]
pub proof fn lemma_inline_subnet_fields(vpc: VpcInfo, sub: Subnet)
    ensures
        holds(inline_subnet_text(vpc, sub), resource_header("aws_subnet"@, tf_name_text(sub.name@))),
        holds(inline_subnet_text(vpc, sub), "  vpc_id            = aws_vpc."@ + tf_name_text(vpc.name@) + ".id\n"@),
        holds(inline_subnet_text(vpc, sub), "  cidr_block        = \""@ + sub.cidr@ + "\"\n"@),
        holds(inline_subnet_text(vpc, sub), "  availability_zone = \""@ + sub.availability_zone@ + "\"\n"@),
        holds(inline_subnet_text(vpc, sub), "  map_public_ip_on_launch = "@ + bool_text(sub.map_public_ip) + "\n"@),
        holds(inline_subnet_text(vpc, sub), "    Name = \""@ + sub.name@ + "\"\n"@),
{
    let c0 = resource_header("aws_subnet"@, tf_name_text(sub.name@));
    let c1 = c0 + "  vpc_id            = aws_vpc."@;
    let c2 = c1 + tf_name_text(vpc.name@);
    let c3 = c2 + ".id\n"@;
    let c4 = c3 + "  cidr_block        = \""@;
    let c5 = c4 + sub.cidr@;
    let c6 = c5 + "\"\n"@;
    let c7 = c6 + "  availability_zone = \""@;
    let c8 = c7 + sub.availability_zone@;
    let c9 = c8 + "\"\n"@;
    let c10 = c9 + "  map_public_ip_on_launch = "@;
    let c11 = c10 + bool_text(sub.map_public_ip);
    let c12 = c11 + "\n"@;
    let c13 = c12 + "  tags = {\n"@;
    let c14 = c13 + "    Name = \""@;
    let c15 = c14 + sub.name@;
    let c16 = c15 + "\"\n"@;
    let c17 = c16 + "  }\n"@;
    let c18 = c17 + "}\n\n"@;
    assert(inline_subnet_text(vpc, sub) == c18);
    {
        lemma_holds_prefix(c0, "  vpc_id            = aws_vpc."@);
        lemma_holds_left(c1, tf_name_text(vpc.name@), c0);
        lemma_holds_left(c2, ".id\n"@, c0);
        lemma_holds_left(c3, "  cidr_block        = \""@, c0);
        lemma_holds_left(c4, sub.cidr@, c0);
        lemma_holds_left(c5, "\"\n"@, c0);
        lemma_holds_left(c6, "  availability_zone = \""@, c0);
        lemma_holds_left(c7, sub.availability_zone@, c0);
        lemma_holds_left(c8, "\"\n"@, c0);
        lemma_holds_left(c9, "  map_public_ip_on_launch = "@, c0);
        lemma_holds_left(c10, bool_text(sub.map_public_ip), c0);
        lemma_holds_left(c11, "\n"@, c0);
        lemma_holds_left(c12, "  tags = {\n"@, c0);
        lemma_holds_left(c13, "    Name = \""@, c0);
        lemma_holds_left(c14, sub.name@, c0);
        lemma_holds_left(c15, "\"\n"@, c0);
        lemma_holds_left(c16, "  }\n"@, c0);
        lemma_holds_left(c17, "}\n\n"@, c0);
    }
    {
        let p = "  vpc_id            = aws_vpc."@ + tf_name_text(vpc.name@) + ".id\n"@;
        assert(c3 =~= c0 + p);
        lemma_holds_suffix(c0, p);
        lemma_holds_left(c3, "  cidr_block        = \""@, p);
        lemma_holds_left(c4, sub.cidr@, p);
        lemma_holds_left(c5, "\"\n"@, p);
        lemma_holds_left(c6, "  availability_zone = \""@, p);
        lemma_holds_left(c7, sub.availability_zone@, p);
        lemma_holds_left(c8, "\"\n"@, p);
        lemma_holds_left(c9, "  map_public_ip_on_launch = "@, p);
        lemma_holds_left(c10, bool_text(sub.map_public_ip), p);
        lemma_holds_left(c11, "\n"@, p);
        lemma_holds_left(c12, "  tags = {\n"@, p);
        lemma_holds_left(c13, "    Name = \""@, p);
        lemma_holds_left(c14, sub.name@, p);
        lemma_holds_left(c15, "\"\n"@, p);
        lemma_holds_left(c16, "  }\n"@, p);
        lemma_holds_left(c17, "}\n\n"@, p);
    }
    {
        let p = "  cidr_block        = \""@ + sub.cidr@ + "\"\n"@;
        assert(c6 =~= c3 + p);
        lemma_holds_suffix(c3, p);
        lemma_holds_left(c6, "  availability_zone = \""@, p);
        lemma_holds_left(c7, sub.availability_zone@, p);
        lemma_holds_left(c8, "\"\n"@, p);
        lemma_holds_left(c9, "  map_public_ip_on_launch = "@, p);
        lemma_holds_left(c10, bool_text(sub.map_public_ip), p);
        lemma_holds_left(c11, "\n"@, p);
        lemma_holds_left(c12, "  tags = {\n"@, p);
        lemma_holds_left(c13, "    Name = \""@, p);
        lemma_holds_left(c14, sub.name@, p);
        lemma_holds_left(c15, "\"\n"@, p);
        lemma_holds_left(c16, "  }\n"@, p);
        lemma_holds_left(c17, "}\n\n"@, p);
    }
    {
        let p = "  availability_zone = \""@ + sub.availability_zone@ + "\"\n"@;
        assert(c9 =~= c6 + p);
        lemma_holds_suffix(c6, p);
        lemma_holds_left(c9, "  map_public_ip_on_launch = "@, p);
        lemma_holds_left(c10, bool_text(sub.map_public_ip), p);
        lemma_holds_left(c11, "\n"@, p);
        lemma_holds_left(c12, "  tags = {\n"@, p);
        lemma_holds_left(c13, "    Name = \""@, p);
        lemma_holds_left(c14, sub.name@, p);
        lemma_holds_left(c15, "\"\n"@, p);
        lemma_holds_left(c16, "  }\n"@, p);
        lemma_holds_left(c17, "}\n\n"@, p);
    }
    {
        let p = "  map_public_ip_on_launch = "@ + bool_text(sub.map_public_ip) + "\n"@;
        assert(c12 =~= c9 + p);
        lemma_holds_suffix(c9, p);
        lemma_holds_left(c12, "  tags = {\n"@, p);
        lemma_holds_left(c13, "    Name = \""@, p);
        lemma_holds_left(c14, sub.name@, p);
        lemma_holds_left(c15, "\"\n"@, p);
        lemma_holds_left(c16, "  }\n"@, p);
        lemma_holds_left(c17, "}\n\n"@, p);
    }
    {
        let p = "    Name = \""@ + sub.name@ + "\"\n"@;
        assert(c16 =~= c13 + p);
        lemma_holds_suffix(c13, p);
        lemma_holds_left(c16, "  }\n"@, p);
        lemma_holds_left(c17, "}\n\n"@, p);
    }
}

/// The instance block of an instance file names the instance by its Terraform
/// name and carries its AMI, its type, its subnet, key pair and security group
/// references, its root volume, its name and its other tags.
#[verifier::spinoff_prover]
#[verifier::rlimit(40)]
pub proof fn lemma_own_instance_fields(inst: Ec2Instance, sgs: Seq<SecurityGroup>, vpcs: Seq<VpcInfo>)
    ensures
        holds(own_instance_text(inst, sgs, vpcs), resource_header("aws_instance"@, tf_name_text(inst.name@))),
        holds(own_instance_text(inst, sgs, vpcs), "  ami           = \""@ + inst.ami@ + "\"\n"@),
        holds(own_instance_text(inst, sgs, vpcs), "  instance_type = \""@ + inst.instance_type@ + "\"\n"@),
        holds(own_instance_text(inst, sgs, vpcs), subnet_ref_line(inst.subnet_id@, vpcs)),
        holds(own_instance_text(inst, sgs, vpcs), key_line(inst.key_name)),
        holds(own_instance_text(inst, sgs, vpcs), sg_refs_text(inst.security_groups@, sgs)),
        holds(own_instance_text(inst, sgs, vpcs), root_volume_text(inst.volumes@)),
        holds(own_instance_text(inst, sgs, vpcs), "    Name = \""@ + inst.name@ + "\"\n"@),
        holds(own_instance_text(inst, sgs, vpcs), tag_lines(inst.tags@, true)),
{
    let c0 = resource_header("aws_instance"@, tf_name_text(inst.name@));
    let c1 = c0 + "  ami           = \""@;
    let c2 = c1 + inst.ami@;
    let c3 = c2 + "\"\n"@;
    let c4 = c3 + "  instance_type = \""@;
    let c5 = c4 + inst.instance_type@;
    let c6 = c5 + "\"\n"@;
    let c7 = c6 + subnet_ref_line(inst.subnet_id@, vpcs);
    let c8 = c7 + key_line(inst.key_name);
    let c9 = c8 + sg_refs_text(inst.security_groups@, sgs);
    let c10 = c9 + root_volume_text(inst.volumes@);
    let c11 = c10 + "  tags = {\n"@;
    let c12 = c11 + "    Name = \""@;
    let c13 = c12 + inst.name@;
    let c14 = c13 + "\"\n"@;
    let c15 = c14 + tag_lines(inst.tags@, true);
    let c16 = c15 + "  }\n"@;
    let c17 = c16 + "}\n\n"@;
    assert(own_instance_text(inst, sgs, vpcs) == c17);
    {
        lemma_holds_prefix(c0, "  ami           = \""@);
        lemma_holds_left(c1, inst.ami@, c0);
        lemma_holds_left(c2, "\"\n"@, c0);
        lemma_holds_left(c3, "  instance_type = \""@, c0);
        lemma_holds_left(c4, inst.instance_type@, c0);
        lemma_holds_left(c5, "\"\n"@, c0);
        lemma_holds_left(c6, subnet_ref_line(inst.subnet_id@, vpcs), c0);
        lemma_holds_left(c7, key_line(inst.key_name), c0);
        lemma_holds_left(c8, sg_refs_text(inst.security_groups@, sgs), c0);
        lemma_holds_left(c9, root_volume_text(inst.volumes@), c0);
        lemma_holds_left(c10, "  tags = {\n"@, c0);
        lemma_holds_left(c11, "    Name = \""@, c0);
        lemma_holds_left(c12, inst.name@, c0);
        lemma_holds_left(c13, "\"\n"@, c0);
        lemma_holds_left(c14, tag_lines(inst.tags@, true), c0);
        lemma_holds_left(c15, "  }\n"@, c0);
        lemma_holds_left(c16, "}\n\n"@, c0);
    }
    {
        let p = "  ami           = \""@ + inst.ami@ + "\"\n"@;
        assert(c3 =~= c0 + p);
        lemma_holds_suffix(c0, p);
        lemma_holds_left(c3, "  instance_type = \""@, p);
        lemma_holds_left(c4, inst.instance_type@, p);
        lemma_holds_left(c5, "\"\n"@, p);
        lemma_holds_left(c6, subnet_ref_line(inst.subnet_id@, vpcs), p);
        lemma_holds_left(c7, key_line(inst.key_name), p);
        lemma_holds_left(c8, sg_refs_text(inst.security_groups@, sgs), p);
        lemma_holds_left(c9, root_volume_text(inst.volumes@), p);
        lemma_holds_left(c10, "  tags = {\n"@, p);
        lemma_holds_left(c11, "    Name = \""@, p);
        lemma_holds_left(c12, inst.name@, p);
        lemma_holds_left(c13, "\"\n"@, p);
        lemma_holds_left(c14, tag_lines(inst.tags@, true), p);
        lemma_holds_left(c15, "  }\n"@, p);
        lemma_holds_left(c16, "}\n\n"@, p);
    }
    {
        let p = "  instance_type = \""@ + inst.instance_type@ + "\"\n"@;
        assert(c6 =~= c3 + p);
        lemma_holds_suffix(c3, p);
        lemma_holds_left(c6, subnet_ref_line(inst.subnet_id@, vpcs), p);
        lemma_holds_left(c7, key_line(inst.key_name), p);
        lemma_holds_left(c8, sg_refs_text(inst.security_groups@, sgs), p);
        lemma_holds_left(c9, root_volume_text(inst.volumes@), p);
        lemma_holds_left(c10, "  tags = {\n"@, p);
        lemma_holds_left(c11, "    Name = \""@, p);
        lemma_holds_left(c12, inst.name@, p);
        lemma_holds_left(c13, "\"\n"@, p);
        lemma_holds_left(c14, tag_lines(inst.tags@, true), p);
        lemma_holds_left(c15, "  }\n"@, p);
        lemma_holds_left(c16, "}\n\n"@, p);
    }
    {
        let p = subnet_ref_line(inst.subnet_id@, vpcs);
        assert(c7 =~= c6 + p);
        lemma_holds_suffix(c6, p);
        lemma_holds_left(c7, key_line(inst.key_name), p);
        lemma_holds_left(c8, sg_refs_text(inst.security_groups@, sgs), p);
        lemma_holds_left(c9, root_volume_text(inst.volumes@), p);
        lemma_holds_left(c10, "  tags = {\n"@, p);
        lemma_holds_left(c11, "    Name = \""@, p);
        lemma_holds_left(c12, inst.name@, p);
        lemma_holds_left(c13, "\"\n"@, p);
        lemma_holds_left(c14, tag_lines(inst.tags@, true), p);
        lemma_holds_left(c15, "  }\n"@, p);
        lemma_holds_left(c16, "}\n\n"@, p);
    }
    {
        let p = key_line(inst.key_name);
        assert(c8 =~= c7 + p);
        lemma_holds_suffix(c7, p);
        lemma_holds_left(c8, sg_refs_text(inst.security_groups@, sgs), p);
        lemma_holds_left(c9, root_volume_text(inst.volumes@), p);
        lemma_holds_left(c10, "  tags = {\n"@, p);
        lemma_holds_left(c11, "    Name = \""@, p);
        lemma_holds_left(c12, inst.name@, p);
        lemma_holds_left(c13, "\"\n"@, p);
        lemma_holds_left(c14, tag_lines(inst.tags@, true), p);
        lemma_holds_left(c15, "  }\n"@, p);
        lemma_holds_left(c16, "}\n\n"@, p);
    }
    {
        let p = sg_refs_text(inst.security_groups@, sgs);
        assert(c9 =~= c8 + p);
        lemma_holds_suffix(c8, p);
        lemma_holds_left(c9, root_volume_text(inst.volumes@), p);
        lemma_holds_left(c10, "  tags = {\n"@, p);
        lemma_holds_left(c11, "    Name = \""@, p);
        lemma_holds_left(c12, inst.name@, p);
        lemma_holds_left(c13, "\"\n"@, p);
        lemma_holds_left(c14, tag_lines(inst.tags@, true), p);
        lemma_holds_left(c15, "  }\n"@, p);
        lemma_holds_left(c16, "}\n\n"@, p);
    }
    {
        let p = root_volume_text(inst.volumes@);
        assert(c10 =~= c9 + p);
        lemma_holds_suffix(c9, p);
        lemma_holds_left(c10, "  tags = {\n"@, p);
        lemma_holds_left(c11, "    Name = \""@, p);
        lemma_holds_left(c12, inst.name@, p);
        lemma_holds_left(c13, "\"\n"@, p);
        lemma_holds_left(c14, tag_lines(inst.tags@, true), p);
        lemma_holds_left(c15, "  }\n"@, p);
        lemma_holds_left(c16, "}\n\n"@, p);
    }
    {
        let p = "    Name = \""@ + inst.name@ + "\"\n"@;
        assert(c14 =~= c11 + p);
        lemma_holds_suffix(c11, p);
        lemma_holds_left(c14, tag_lines(inst.tags@, true), p);
        lemma_holds_left(c15, "  }\n"@, p);
        lemma_holds_left(c16, "}\n\n"@, p);
    }
    {
        let p = tag_lines(inst.tags@, true);
        assert(c15 =~= c14 + p);
        lemma_holds_suffix(c14, p);
        lemma_holds_left(c15, "  }\n"@, p);
        lemma_holds_left(c16, "}\n\n"@, p);
    }
}

/// The block of an instance in the shared instances file names it by its
/// unique name and carries its AMI, its type, its subnet id, key pair, security
/// group ids, root volume, its name, the managed-by tag and its other tags.
#[verifier::spinoff_prover]
#[verifier::rlimit(40)]
pub proof fn lemma_instance_text_fields(inst: Ec2Instance)
    ensures
        holds(instance_text(inst), "resource \"aws_instance\" \""@ + tf_unique_name_text(inst.name@, inst.id@) + "\" {\n"@),
        holds(instance_text(inst), "  ami           = \""@ + inst.ami@ + "\"\n"@),
        holds(instance_text(inst), "  instance_type = \""@ + inst.instance_type@ + "\"\n"@),
        holds(instance_text(inst), subnet_id_line(inst.subnet_id@)),
        holds(instance_text(inst), key_line(inst.key_name)),
        holds(instance_text(inst), sg_ids_text(inst.security_groups@)),
        holds(instance_text(inst), root_volume_text(inst.volumes@)),
        holds(instance_text(inst), "    Name        = \""@ + inst.name@ + "\"\n"@),
        holds(instance_text(inst), "    ManagedBy   = \"dora2tf\"\n"@),
        holds(instance_text(inst), tag_lines(inst.tags@, true)),
{
    let c0 = "resource \"aws_instance\" \""@;
    let c1 = c0 + tf_unique_name_text(inst.name@, inst.id@);
    let c2 = c1 + "\" {\n"@;
    let c3 = c2 + "  ami           = \""@;
    let c4 = c3 + inst.ami@;
    let c5 = c4 + "\"\n"@;
    let c6 = c5 + "  instance_type = \""@;
    let c7 = c6 + inst.instance_type@;
    let c8 = c7 + "\"\n"@;
    let c9 = c8 + subnet_id_line(inst.subnet_id@);
    let c10 = c9 + key_line(inst.key_name);
    let c11 = c10 + sg_ids_text(inst.security_groups@);
    let c12 = c11 + root_volume_text(inst.volumes@);
    let c13 = c12 + "  tags = {\n"@;
    let c14 = c13 + "    Name        = \""@;
    let c15 = c14 + inst.name@;
    let c16 = c15 + "\"\n"@;
    let c17 = c16 + "    ManagedBy   = \"dora2tf\"\n"@;
    let c18 = c17 + tag_lines(inst.tags@, true);
    let c19 = c18 + "  }\n"@;
    let c20 = c19 + "}\n\n"@;
    assert(instance_text(inst) == c20);
    {
        let p = c2;
        lemma_holds_self(p);
        lemma_holds_left(c2, "  ami           = \""@, p);
        lemma_holds_left(c3, inst.ami@, p);
        lemma_holds_left(c4, "\"\n"@, p);
        lemma_holds_left(c5, "  instance_type = \""@, p);
        lemma_holds_left(c6, inst.instance_type@, p);
        lemma_holds_left(c7, "\"\n"@, p);
        lemma_holds_left(c8, subnet_id_line(inst.subnet_id@), p);
        lemma_holds_left(c9, key_line(inst.key_name), p);
        lemma_holds_left(c10, sg_ids_text(inst.security_groups@), p);
        lemma_holds_left(c11, root_volume_text(inst.volumes@), p);
        lemma_holds_left(c12, "  tags = {\n"@, p);
        lemma_holds_left(c13, "    Name        = \""@, p);
        lemma_holds_left(c14, inst.name@, p);
        lemma_holds_left(c15, "\"\n"@, p);
        lemma_holds_left(c16, "    ManagedBy   = \"dora2tf\"\n"@, p);
        lemma_holds_left(c17, tag_lines(inst.tags@, true), p);
        lemma_holds_left(c18, "  }\n"@, p);
        lemma_holds_left(c19, "}\n\n"@, p);
    }
    {
        let p = "  ami           = \""@ + inst.ami@ + "\"\n"@;
        assert(c5 =~= c2 + p);
        lemma_holds_suffix(c2, p);
        lemma_holds_left(c5, "  instance_type = \""@, p);
        lemma_holds_left(c6, inst.instance_type@, p);
        lemma_holds_left(c7, "\"\n"@, p);
        lemma_holds_left(c8, subnet_id_line(inst.subnet_id@), p);
        lemma_holds_left(c9, key_line(inst.key_name), p);
        lemma_holds_left(c10, sg_ids_text(inst.security_groups@), p);
        lemma_holds_left(c11, root_volume_text(inst.volumes@), p);
        lemma_holds_left(c12, "  tags = {\n"@, p);
        lemma_holds_left(c13, "    Name        = \""@, p);
        lemma_holds_left(c14, inst.name@, p);
        lemma_holds_left(c15, "\"\n"@, p);
        lemma_holds_left(c16, "    ManagedBy   = \"dora2tf\"\n"@, p);
        lemma_holds_left(c17, tag_lines(inst.tags@, true), p);
        lemma_holds_left(c18, "  }\n"@, p);
        lemma_holds_left(c19, "}\n\n"@, p);
    }
    {
        let p = "  instance_type = \""@ + inst.instance_type@ + "\"\n"@;
        assert(c8 =~= c5 + p);
        lemma_holds_suffix(c5, p);
        lemma_holds_left(c8, subnet_id_line(inst.subnet_id@), p);
        lemma_holds_left(c9, key_line(inst.key_name), p);
        lemma_holds_left(c10, sg_ids_text(inst.security_groups@), p);
        lemma_holds_left(c11, root_volume_text(inst.volumes@), p);
        lemma_holds_left(c12, "  tags = {\n"@, p);
        lemma_holds_left(c13, "    Name        = \""@, p);
        lemma_holds_left(c14, inst.name@, p);
        lemma_holds_left(c15, "\"\n"@, p);
        lemma_holds_left(c16, "    ManagedBy   = \"dora2tf\"\n"@, p);
        lemma_holds_left(c17, tag_lines(inst.tags@, true), p);
        lemma_holds_left(c18, "  }\n"@, p);
        lemma_holds_left(c19, "}\n\n"@, p);
    }
    {
        let p = subnet_id_line(inst.subnet_id@);
        assert(c9 =~= c8 + p);
        lemma_holds_suffix(c8, p);
        lemma_holds_left(c9, key_line(inst.key_name), p);
        lemma_holds_left(c10, sg_ids_text(inst.security_groups@), p);
        lemma_holds_left(c11, root_volume_text(inst.volumes@), p);
        lemma_holds_left(c12, "  tags = {\n"@, p);
        lemma_holds_left(c13, "    Name        = \""@, p);
        lemma_holds_left(c14, inst.name@, p);
        lemma_holds_left(c15, "\"\n"@, p);
        lemma_holds_left(c16, "    ManagedBy   = \"dora2tf\"\n"@, p);
        lemma_holds_left(c17, tag_lines(inst.tags@, true), p);
        lemma_holds_left(c18, "  }\n"@, p);
        lemma_holds_left(c19, "}\n\n"@, p);
    }
    {
        let p = key_line(inst.key_name);
        assert(c10 =~= c9 + p);
        lemma_holds_suffix(c9, p);
        lemma_holds_left(c10, sg_ids_text(inst.security_groups@), p);
        lemma_holds_left(c11, root_volume_text(inst.volumes@), p);
        lemma_holds_left(c12, "  tags = {\n"@, p);
        lemma_holds_left(c13, "    Name        = \""@, p);
        lemma_holds_left(c14, inst.name@, p);
        lemma_holds_left(c15, "\"\n"@, p);
        lemma_holds_left(c16, "    ManagedBy   = \"dora2tf\"\n"@, p);
        lemma_holds_left(c17, tag_lines(inst.tags@, true), p);
        lemma_holds_left(c18, "  }\n"@, p);
        lemma_holds_left(c19, "}\n\n"@, p);
    }
    {
        let p = sg_ids_text(inst.security_groups@);
        assert(c11 =~= c10 + p);
        lemma_holds_suffix(c10, p);
        lemma_holds_left(c11, root_volume_text(inst.volumes@), p);
        lemma_holds_left(c12, "  tags = {\n"@, p);
        lemma_holds_left(c13, "    Name        = \""@, p);
        lemma_holds_left(c14, inst.name@, p);
        lemma_holds_left(c15, "\"\n"@, p);
        lemma_holds_left(c16, "    ManagedBy   = \"dora2tf\"\n"@, p);
        lemma_holds_left(c17, tag_lines(inst.tags@, true), p);
        lemma_holds_left(c18, "  }\n"@, p);
        lemma_holds_left(c19, "}\n\n"@, p);
    }
    {
        let p = root_volume_text(inst.volumes@);
        assert(c12 =~= c11 + p);
        lemma_holds_suffix(c11, p);
        lemma_holds_left(c12, "  tags = {\n"@, p);
        lemma_holds_left(c13, "    Name        = \""@, p);
        lemma_holds_left(c14, inst.name@, p);
        lemma_holds_left(c15, "\"\n"@, p);
        lemma_holds_left(c16, "    ManagedBy   = \"dora2tf\"\n"@, p);
        lemma_holds_left(c17, tag_lines(inst.tags@, true), p);
        lemma_holds_left(c18, "  }\n"@, p);
        lemma_holds_left(c19, "}\n\n"@, p);
    }
    {
        let p = "    Name        = \""@ + inst.name@ + "\"\n"@;
        assert(c16 =~= c13 + p);
        lemma_holds_suffix(c13, p);
        lemma_holds_left(c16, "    ManagedBy   = \"dora2tf\"\n"@, p);
        lemma_holds_left(c17, tag_lines(inst.tags@, true), p);
        lemma_holds_left(c18, "  }\n"@, p);
        lemma_holds_left(c19, "}\n\n"@, p);
    }
    {
        let p = "    ManagedBy   = \"dora2tf\"\n"@;
        assert(c17 =~= c16 + p);
        lemma_holds_suffix(c16, p);
        lemma_holds_left(c17, tag_lines(inst.tags@, true), p);
        lemma_holds_left(c18, "  }\n"@, p);
        lemma_holds_left(c19, "}\n\n"@, p);
    }
    {
        let p = tag_lines(inst.tags@, true);
        assert(c18 =~= c17 + p);
        lemma_holds_suffix(c17, p);
        lemma_holds_left(c18, "  }\n"@, p);
        lemma_holds_left(c19, "}\n\n"@, p);
    }
}


/// The shared instances file holds the block of each of its instances.
pub proof fn lemma_instances_text_parts(insts: Seq<Ec2Instance>)
    ensures
        forall|i: int|
            0 <= i < insts.len() ==> holds(instances_text(insts), instance_text(#[trigger] insts[i])),
{
    assert forall|i: int| 0 <= i < insts.len() implies holds(
        instances_text(insts),
        instance_text(#[trigger] insts[i]),
    ) by {
        lemma_holds_concat_map(insts, |x: Ec2Instance| instance_text(x), i);
    }
}

/// The root volume block is made from the first volume: it carries its type,
/// its size, whether it is encrypted and whether it is deleted on termination.
#[verifier::spinoff_prover]
#[verifier::rlimit(40)]
pub proof fn lemma_root_volume_fields(vols: Seq<AttachedVolume>)
    requires
        vols.len() > 0,
    ensures
        holds(root_volume_text(vols), "    volume_type = \""@ + vols[0].volume_type@ + "\"\n"@),
        holds(root_volume_text(vols), "    volume_size = "@ + int_text(vols[0].size_gb as int) + "\n"@),
        holds(root_volume_text(vols), "    encrypted   = "@ + bool_text(vols[0].encrypted) + "\n"@),
        holds(root_volume_text(vols), "    delete_on_termination = "@ + bool_text(vols[0].delete_on_termination) + "\n"@),
{
    let c0 = "  root_block_device {\n"@;
    let c1 = c0 + "    volume_type = \""@;
    let c2 = c1 + vols[0].volume_type@;
    let c3 = c2 + "\"\n"@;
    let c4 = c3 + "    volume_size = "@;
    let c5 = c4 + int_text(vols[0].size_gb as int);
    let c6 = c5 + "\n"@;
    let c7 = c6 + "    encrypted   = "@;
    let c8 = c7 + bool_text(vols[0].encrypted);
    let c9 = c8 + "\n"@;
    let c10 = c9 + "    delete_on_termination = "@;
    let c11 = c10 + bool_text(vols[0].delete_on_termination);
    let c12 = c11 + "\n"@;
    let c13 = c12 + "  }\n"@;
    assert(root_volume_text(vols) == c13);
    {
        let p = "    volume_type = \""@ + vols[0].volume_type@ + "\"\n"@;
        assert(c3 =~= c0 + p);
        lemma_holds_suffix(c0, p);
        lemma_holds_left(c3, "    volume_size = "@, p);
        lemma_holds_left(c4, int_text(vols[0].size_gb as int), p);
        lemma_holds_left(c5, "\n"@, p);
        lemma_holds_left(c6, "    encrypted   = "@, p);
        lemma_holds_left(c7, bool_text(vols[0].encrypted), p);
        lemma_holds_left(c8, "\n"@, p);
        lemma_holds_left(c9, "    delete_on_termination = "@, p);
        lemma_holds_left(c10, bool_text(vols[0].delete_on_termination), p);
        lemma_holds_left(c11, "\n"@, p);
        lemma_holds_left(c12, "  }\n"@, p);
    }
    {
        let p = "    volume_size = "@ + int_text(vols[0].size_gb as int) + "\n"@;
        assert(c6 =~= c3 + p);
        lemma_holds_suffix(c3, p);
        lemma_holds_left(c6, "    encrypted   = "@, p);
        lemma_holds_left(c7, bool_text(vols[0].encrypted), p);
        lemma_holds_left(c8, "\n"@, p);
        lemma_holds_left(c9, "    delete_on_termination = "@, p);
        lemma_holds_left(c10, bool_text(vols[0].delete_on_termination), p);
        lemma_holds_left(c11, "\n"@, p);
        lemma_holds_left(c12, "  }\n"@, p);
    }
    {
        let p = "    encrypted   = "@ + bool_text(vols[0].encrypted) + "\n"@;
        assert(c9 =~= c6 + p);
        lemma_holds_suffix(c6, p);
        lemma_holds_left(c9, "    delete_on_termination = "@, p);
        lemma_holds_left(c10, bool_text(vols[0].delete_on_termination), p);
        lemma_holds_left(c11, "\n"@, p);
        lemma_holds_left(c12, "  }\n"@, p);
    }
    {
        let p = "    delete_on_termination = "@ + bool_text(vols[0].delete_on_termination) + "\n"@;
        assert(c12 =~= c9 + p);
        lemma_holds_suffix(c9, p);
        lemma_holds_left(c12, "  }\n"@, p);
    }
}

/// The key pair line names the instance's key pair, and there is none
/// without one.
pub proof fn lemma_key_line(key_name: Option<String>)
    ensures
        key_name matches Some(k) ==> key_line(key_name) == "  key_name      = \""@ + k@ + "\"\n"@,
        key_name is None ==> key_line(key_name).len() == 0,
{
}

/// The list of raw security group ids holds the quoted entry of each id.
pub proof fn lemma_sg_ids_entries(ids: Seq<String>)
    ensures
        forall|i: int|
            0 <= i < ids.len() ==> holds(sg_ids_text(ids), "    \""@ + (#[trigger] ids[i])@ + "\",\n"@),
        ids.len() == 0 ==> sg_ids_text(ids).len() == 0,
{
    if ids.len() > 0 {
        let h = "  vpc_security_group_ids = [\n"@;
        let f = |id: String| sg_id_entry(id);
        let c = concat_map(ids, f);
        assert(sg_ids_text(ids) == h + c + "  ]\n"@);
        lemma_holds_mid(h, c, "  ]\n"@);
        assert forall|i: int| 0 <= i < ids.len() implies holds(
            sg_ids_text(ids),
            "    \""@ + (#[trigger] ids[i])@ + "\",\n"@,
        ) by {
            lemma_holds_concat_map(ids, f, i);
            lemma_holds_trans(sg_ids_text(ids), c, f(ids[i]));
        }
    }
}

/// The list of security group references of an instance file refers, for
/// each id, to the block of the group with that id where it is known, and
/// to the quoted id otherwise.
pub proof fn lemma_sg_refs_entries(ids: Seq<String>, sgs: Seq<SecurityGroup>)
    ensures
        forall|i: int|
            0 <= i < ids.len() && find_sg(sgs, (#[trigger] ids[i])@) is Some ==> holds(
                sg_refs_text(ids, sgs),
                "    "@ + "aws_security_group."@ + tf_name_text(find_sg(sgs, ids[i]@)->0.name@) + ".id"@
                    + ",\n"@,
            ),
        forall|i: int|
            0 <= i < ids.len() && find_sg(sgs, (#[trigger] ids[i])@) is None ==> holds(
                sg_refs_text(ids, sgs),
                "    "@ + "\""@ + ids[i]@ + "\""@ + ",\n"@,
            ),
        ids.len() == 0 ==> sg_refs_text(ids, sgs).len() == 0,
{
    if ids.len() > 0 {
        let h = "  vpc_security_group_ids = [\n"@;
        let f = |id: String| sg_ref_entry(sgs, id);
        let c = concat_map(ids, f);
        assert(sg_refs_text(ids, sgs) == h + c + "  ]\n"@);
        lemma_holds_mid(h, c, "  ]\n"@);
        assert forall|i: int| 0 <= i < ids.len() implies holds(
            sg_refs_text(ids, sgs),
            #[trigger] f(ids[i]),
        ) by {
            lemma_holds_concat_map(ids, f, i);
            lemma_holds_trans(sg_refs_text(ids, sgs), c, f(ids[i]));
        }
        assert forall|i: int|
            0 <= i < ids.len() && find_sg(sgs, (#[trigger] ids[i])@) is Some implies holds(
            sg_refs_text(ids, sgs),
            "    "@ + "aws_security_group."@ + tf_name_text(find_sg(sgs, ids[i]@)->0.name@) + ".id"@
                + ",\n"@,
        ) by {
            let sg = find_sg(sgs, ids[i]@)->0;
            assert(f(ids[i]) =~= "    "@ + "aws_security_group."@ + tf_name_text(sg.name@) + ".id"@
                + ",\n"@);
        }
        assert forall|i: int|
            0 <= i < ids.len() && find_sg(sgs, (#[trigger] ids[i])@) is None implies holds(
            sg_refs_text(ids, sgs),
            "    "@ + "\""@ + ids[i]@ + "\""@ + ",\n"@,
        ) by {
            assert(f(ids[i]) =~= "    "@ + "\""@ + ids[i]@ + "\""@ + ",\n"@);
        }
    }
}

/// The subnet line of an instance file refers to the block of the
/// instance's subnet where it is known, and to the quoted id otherwise;
/// there is none without a subnet id.
pub proof fn lemma_subnet_ref_line(subnet_id: Seq<char>, vpcs: Seq<VpcInfo>)
    ensures
        subnet_id.len() == 0 ==> subnet_ref_line(subnet_id, vpcs).len() == 0,
        subnet_id.len() > 0 ==> match find_subnet(vpcs, subnet_id) {
            Some(found) => subnet_ref_line(subnet_id, vpcs) == "  subnet_id     = "@ + (
            "aws_subnet."@ + tf_name_text(found.1.name@) + ".id"@) + "\n"@,
            None => subnet_ref_line(subnet_id, vpcs) == "  subnet_id     = "@ + ("\""@ + subnet_id
                + "\""@) + "\n"@,
        },
{
}

/// The comment header of an instance file names the instance and its id, and
/// gives its type, its AMI and its private IP.
#[verifier::spinoff_prover]
pub proof fn lemma_header_fields(inst: Ec2Instance)
    ensures
        holds(header_text(inst), "# Instance: "@ + inst.name@ + "  ("@ + inst.id@ + ")\n"@),
        holds(header_text(inst), "# Type: "@ + inst.instance_type@ + "  |  AMI: "@),
        holds(header_text(inst), inst.ami@ + "  |  Private IP: "@),
        holds(header_text(inst), inst.private_ip@ + "\n"@),
{
    let c0 = "# ============================================================================\n"@;
    let c1 = c0 + "# Instance: "@;
    let c2 = c1 + inst.name@;
    let c3 = c2 + "  ("@;
    let c4 = c3 + inst.id@;
    let c5 = c4 + ")\n"@;
    let c6 = c5 + "# Type: "@;
    let c7 = c6 + inst.instance_type@;
    let c8 = c7 + "  |  AMI: "@;
    let c9 = c8 + inst.ami@;
    let c10 = c9 + "  |  Private IP: "@;
    let c11 = c10 + inst.private_ip@;
    let c12 = c11 + "\n"@;
    let c13 = c12 + "# ============================================================================\n\n"@;
    assert(header_text(inst) == c13);
    {
        let p = "# Instance: "@ + inst.name@ + "  ("@ + inst.id@ + ")\n"@;
        assert(c5 =~= c0 + p);
        lemma_holds_suffix(c0, p);
        lemma_holds_left(c5, "# Type: "@, p);
        lemma_holds_left(c6, inst.instance_type@, p);
        lemma_holds_left(c7, "  |  AMI: "@, p);
        lemma_holds_left(c8, inst.ami@, p);
        lemma_holds_left(c9, "  |  Private IP: "@, p);
        lemma_holds_left(c10, inst.private_ip@, p);
        lemma_holds_left(c11, "\n"@, p);
        lemma_holds_left(c12, "# ============================================================================\n\n"@, p);
    }
    {
        let p = "# Type: "@ + inst.instance_type@ + "  |  AMI: "@;
        assert(c8 =~= c5 + p);
        lemma_holds_suffix(c5, p);
        lemma_holds_left(c8, inst.ami@, p);
        lemma_holds_left(c9, "  |  Private IP: "@, p);
        lemma_holds_left(c10, inst.private_ip@, p);
        lemma_holds_left(c11, "\n"@, p);
        lemma_holds_left(c12, "# ============================================================================\n\n"@, p);
    }
    {
        let p = inst.ami@ + "  |  Private IP: "@;
        assert(c10 =~= c8 + p);
        lemma_holds_suffix(c8, p);
        lemma_holds_left(c10, inst.private_ip@, p);
        lemma_holds_left(c11, "\n"@, p);
        lemma_holds_left(c12, "# ============================================================================\n\n"@, p);
    }
    {
        let p = inst.private_ip@ + "\n"@;
        assert(c12 =~= c10 + p);
        lemma_holds_suffix(c10, p);
        lemma_holds_left(c12, "# ============================================================================\n\n"@, p);
    }
}

} // verus!
