//! VPC and subnet blocks.

use vstd::prelude::*;
use crate::scanner::vpc::{Subnet, VpcInfo};
use crate::seqs::{
    concat_map, holds, lemma_concat_map_all, lemma_concat_map_append, lemma_concat_map_take,
    lemma_holds_concat_map, lemma_holds_left, lemma_holds_prefix, lemma_holds_self,
    lemma_holds_suffix, lemma_holds_trans,
};
use crate::text::{bool_str, bool_text};
use super::{resource_header, tag_lines, tf_name, tf_name_text, write_resource_header, write_tag_lines};

verus! {

/// The `aws_vpc` block of a VPC.
pub open spec fn vpc_text(vpc: VpcInfo) -> Seq<char> {
    resource_header("aws_vpc"@, tf_name_text(vpc.name@)) + "  cidr_block = \""@
        + vpc.cidr@ + "\"\n"@ + "  enable_dns_hostnames = true\n"@ + "  tags = {\n"@ + tag_lines(
        vpc.tags@,
        false,
    ) + "  }\n"@ + "}\n\n"@
}

/// The `aws_subnet` block of a subnet, referring to the block of its VPC.
pub open spec fn subnet_text(vpc: VpcInfo, sub: Subnet) -> Seq<char> {
    resource_header("aws_subnet"@, tf_name_text(sub.name@)) + "  vpc_id            = aws_vpc."@
        + tf_name_text(vpc.name@) + ".id\n"@
        + "  cidr_block        = \""@ + sub.cidr@ + "\"\n"@ + "  availability_zone = \""@
        + sub.availability_zone@ + "\"\n"@ + "  map_public_ip_on_launch = "@ + bool_text(
        sub.map_public_ip,
    ) + "\n"@ + "  tags = { Name = \""@ + sub.name@ + "\" }\n"@ + "}\n\n"@
}

/// A VPC block followed by the blocks of its subnets.
pub open spec fn vpc_with_subnets_text(vpc: VpcInfo) -> Seq<char> {
    vpc_text(vpc) + concat_map(vpc.subnets@, |s: Subnet| subnet_text(vpc, s))
}

/// The text of every VPC of a list with its subnets, in order.
pub open spec fn vpcs_text(vpcs: Seq<VpcInfo>) -> Seq<char> {
    concat_map(vpcs, |v: VpcInfo| vpc_with_subnets_text(v))
}

/// The text of `vpc_text(vpc)`.
pub(crate) fn write_vpc(vpc: &VpcInfo) -> (r: String)
    requires
        vpc.well_formed(),
    ensures
        r@ == vpc_text(*vpc),
{
    let name = tf_name(vpc.name.as_str());
    let tags = write_tag_lines(&vpc.tags, false);
    let mut r = write_resource_header("aws_vpc", name.as_str());
    r.append("  cidr_block = \"");
    r.append(vpc.cidr.as_str());
    r.append("\"\n");
    r.append("  enable_dns_hostnames = true\n");
    r.append("  tags = {\n");
    r.append(tags.as_str());
    r.append("  }\n");
    r.append("}\n\n");
    r
}

fn write_subnet(vpc: &VpcInfo, sub: &Subnet) -> (r: String)
    ensures
        r@ == subnet_text(*vpc, *sub),
{
    let vname = tf_name(vpc.name.as_str());
    let sname = tf_name(sub.name.as_str());
    let mut r = write_resource_header("aws_subnet", sname.as_str());
    r.append("  vpc_id            = aws_vpc.");
    r.append(vname.as_str());
    r.append(".id\n");
    r.append("  cidr_block        = \"");
    r.append(sub.cidr.as_str());
    r.append("\"\n");
    r.append("  availability_zone = \"");
    r.append(sub.availability_zone.as_str());
    r.append("\"\n");
    r.append("  map_public_ip_on_launch = ");
    r.append(bool_str(sub.map_public_ip));
    r.append("\n");
    r.append("  tags = { Name = \"");
    r.append(sub.name.as_str());
    r.append("\" }\n");
    r.append("}\n\n");
    r
}

/// Generate just a VPC (for shared.tf), appending its block to `output`.
pub fn generate_vpc_only(vpc: &VpcInfo, output: &mut String)
    requires
        vpc.well_formed(),
    ensures
        final(output)@ == old(output)@ + vpc_text(*vpc),
{
    let text = write_vpc(vpc);
    output.append(text.as_str());
}

/// Generate just a subnet referencing its VPC (for shared.tf), appending its
/// block to `output`.
pub fn generate_subnet_only(vpc: &VpcInfo, sub: &Subnet, output: &mut String)
    ensures
        final(output)@ == old(output)@ + subnet_text(*vpc, *sub),
{
    let text = write_subnet(vpc, sub);
    output.append(text.as_str());
}

fn write_vpc_with_subnets(vpc: &VpcInfo) -> (r: String)
    requires
        vpc.well_formed(),
    ensures
        r@ == vpc_with_subnets_text(*vpc),
{
    let ghost f = |s: Subnet| subnet_text(*vpc, s);
    let mut subs = String::new();
    let mut i: usize = 0;
    while i < vpc.subnets.len()
        invariant
            i <= vpc.subnets.len(),
            f == (|s: Subnet| subnet_text(*vpc, s)),
            subs@ == concat_map(vpc.subnets@.take(i as int), f),
        decreases vpc.subnets.len() - i,
    {
        proof {
            lemma_concat_map_take(vpc.subnets@, f, i as int);
        }
        let block = write_subnet(vpc, &vpc.subnets[i]);
        subs.append(block.as_str());
        i = i + 1;
    }
    proof {
        lemma_concat_map_all(vpc.subnets@, f);
    }
    let mut r = write_vpc(vpc);
    r.append(subs.as_str());
    r
}

/// Generate every VPC followed by its subnets, in order (the shared VPC
/// file), appending the text to `output`.
pub fn generate(vpcs: &[VpcInfo], output: &mut String)
    requires
        forall|k: int| 0 <= k < vpcs@.len() ==> (#[trigger] vpcs@[k]).well_formed(),
    ensures
        final(output)@ == old(output)@ + vpcs_text(vpcs@),
{
    let ghost f = |v: VpcInfo| vpc_with_subnets_text(v);
    let mut text = String::new();
    let mut i: usize = 0;
    while i < vpcs.len()
        invariant
            i <= vpcs.len(),
            f == (|v: VpcInfo| vpc_with_subnets_text(v)),
            text@ == concat_map(vpcs@.take(i as int), f),
            forall|k: int| 0 <= k < vpcs@.len() ==> (#[trigger] vpcs@[k]).well_formed(),
        decreases vpcs.len() - i,
    {
        proof {
            lemma_concat_map_take(vpcs@, f, i as int);
        }
        let block = write_vpc_with_subnets(&vpcs[i]);
        text.append(block.as_str());
        i = i + 1;
    }
    proof {
        lemma_concat_map_all(vpcs@, f);
    }
    output.append(text.as_str());
}

/// Generating two lists of VPCs one after the other into the same output
/// writes what generating their concatenation writes.
pub proof fn lemma_generate_concat(out: Seq<char>, a: Seq<VpcInfo>, b: Seq<VpcInfo>)
    ensures
        out + vpcs_text(a + b) =~= out + vpcs_text(a) + vpcs_text(b),
{
    lemma_concat_map_append(a, b, |v: VpcInfo| vpc_with_subnets_text(v));
}

/// The block of a VPC names it by its Terraform name, carries its CIDR block,
/// turns on DNS host names, and carries its tag lines.
#[verifier::spinoff_prover]
#[verifier::rlimit(40)]
pub proof fn lemma_vpc_text_fields(vpc: VpcInfo)
    ensures
        holds(vpc_text(vpc), resource_header("aws_vpc"@, tf_name_text(vpc.name@))),
        holds(vpc_text(vpc), "  cidr_block = \""@ + vpc.cidr@ + "\"\n"@),
        holds(vpc_text(vpc), "  enable_dns_hostnames = true\n"@),
        holds(vpc_text(vpc), tag_lines(vpc.tags@, false)),
{
    let c0 = resource_header("aws_vpc"@, tf_name_text(vpc.name@));
    let c1 = c0 + "  cidr_block = \""@;
    let c2 = c1 + vpc.cidr@;
    let c3 = c2 + "\"\n"@;
    let c4 = c3 + "  enable_dns_hostnames = true\n"@;
    let c5 = c4 + "  tags = {\n"@;
    let c6 = c5 + tag_lines(vpc.tags@, false);
    let c7 = c6 + "  }\n"@;
    let c8 = c7 + "}\n\n"@;
    assert(vpc_text(vpc) == c8);
    {
        lemma_holds_prefix(c0, "  cidr_block = \""@);
        lemma_holds_left(c1, vpc.cidr@, c0);
        lemma_holds_left(c2, "\"\n"@, c0);
        lemma_holds_left(c3, "  enable_dns_hostnames = true\n"@, c0);
        lemma_holds_left(c4, "  tags = {\n"@, c0);
        lemma_holds_left(c5, tag_lines(vpc.tags@, false), c0);
        lemma_holds_left(c6, "  }\n"@, c0);
        lemma_holds_left(c7, "}\n\n"@, c0);
    }
    {
        let p = "  cidr_block = \""@ + vpc.cidr@ + "\"\n"@;
        assert(c3 =~= c0 + p);
        lemma_holds_suffix(c0, p);
        lemma_holds_left(c3, "  enable_dns_hostnames = true\n"@, p);
        lemma_holds_left(c4, "  tags = {\n"@, p);
        lemma_holds_left(c5, tag_lines(vpc.tags@, false), p);
        lemma_holds_left(c6, "  }\n"@, p);
        lemma_holds_left(c7, "}\n\n"@, p);
    }
    {
        let p = "  enable_dns_hostnames = true\n"@;
        assert(c4 =~= c3 + p);
        lemma_holds_suffix(c3, p);
        lemma_holds_left(c4, "  tags = {\n"@, p);
        lemma_holds_left(c5, tag_lines(vpc.tags@, false), p);
        lemma_holds_left(c6, "  }\n"@, p);
        lemma_holds_left(c7, "}\n\n"@, p);
    }
    {
        let p = tag_lines(vpc.tags@, false);
        assert(c6 =~= c5 + p);
        lemma_holds_suffix(c5, p);
        lemma_holds_left(c6, "  }\n"@, p);
        lemma_holds_left(c7, "}\n\n"@, p);
    }
}


/// The block of a subnet names it by its Terraform name and carries its VPC,
/// its CIDR block, its availability zone, whether it maps public IPs on launch,
/// and its name.
#[verifier::spinoff_prover]
#[verifier::rlimit(40)]
pub proof fn lemma_subnet_text_fields(vpc: VpcInfo, sub: Subnet)
    ensures
        holds(subnet_text(vpc, sub), resource_header("aws_subnet"@, tf_name_text(sub.name@))),
        holds(subnet_text(vpc, sub), "  vpc_id            = aws_vpc."@ + tf_name_text(vpc.name@) + ".id\n"@),
        holds(subnet_text(vpc, sub), "  cidr_block        = \""@ + sub.cidr@ + "\"\n"@),
        holds(subnet_text(vpc, sub), "  availability_zone = \""@ + sub.availability_zone@ + "\"\n"@),
        holds(subnet_text(vpc, sub), "  map_public_ip_on_launch = "@ + bool_text(sub.map_public_ip) + "\n"@),
        holds(subnet_text(vpc, sub), "  tags = { Name = \""@ + sub.name@ + "\" }\n"@),
{
    let c0 = resource_header("aws_subnet"@, tf_name_text(sub.name@));
    let c1 = c0 + "  vpc_id            = aws_vpc."@;
    let c2 = c1 + tf_name_text(vpc.name@);
    let c3 = c2 + ".id\n"@;
    let c4 = c3 + "  cidr_block        = \""@;
    let c5 = c4 + sub.cidr@;
    let c6 = c5 + "\"\n"@;
    let c7 = c6 + "  availability_zone = \""@;
    let c8 = c7 + sub.availability_zone@;
    let c9 = c8 + "\"\n"@;
    let c10 = c9 + "  map_public_ip_on_launch = "@;
    let c11 = c10 + bool_text(sub.map_public_ip);
    let c12 = c11 + "\n"@;
    let c13 = c12 + "  tags = { Name = \""@;
    let c14 = c13 + sub.name@;
    let c15 = c14 + "\" }\n"@;
    let c16 = c15 + "}\n\n"@;
    assert(subnet_text(vpc, sub) == c16);
    {
        lemma_holds_prefix(c0, "  vpc_id            = aws_vpc."@);
        lemma_holds_left(c1, tf_name_text(vpc.name@), c0);
        lemma_holds_left(c2, ".id\n"@, c0);
        lemma_holds_left(c3, "  cidr_block        = \""@, c0);
        lemma_holds_left(c4, sub.cidr@, c0);
        lemma_holds_left(c5, "\"\n"@, c0);
        lemma_holds_left(c6, "  availability_zone = \""@, c0);
        lemma_holds_left(c7, sub.availability_zone@, c0);
        lemma_holds_left(c8, "\"\n"@, c0);
        lemma_holds_left(c9, "  map_public_ip_on_launch = "@, c0);
        lemma_holds_left(c10, bool_text(sub.map_public_ip), c0);
        lemma_holds_left(c11, "\n"@, c0);
        lemma_holds_left(c12, "  tags = { Name = \""@, c0);
        lemma_holds_left(c13, sub.name@, c0);
        lemma_holds_left(c14, "\" }\n"@, c0);
        lemma_holds_left(c15, "}\n\n"@, c0);
    }
    {
        let p = "  vpc_id            = aws_vpc."@ + tf_name_text(vpc.name@) + ".id\n"@;
        assert(c3 =~= c0 + p);
        lemma_holds_suffix(c0, p);
        lemma_holds_left(c3, "  cidr_block        = \""@, p);
        lemma_holds_left(c4, sub.cidr@, p);
        lemma_holds_left(c5, "\"\n"@, p);
        lemma_holds_left(c6, "  availability_zone = \""@, p);
        lemma_holds_left(c7, sub.availability_zone@, p);
        lemma_holds_left(c8, "\"\n"@, p);
        lemma_holds_left(c9, "  map_public_ip_on_launch = "@, p);
        lemma_holds_left(c10, bool_text(sub.map_public_ip), p);
        lemma_holds_left(c11, "\n"@, p);
        lemma_holds_left(c12, "  tags = { Name = \""@, p);
        lemma_holds_left(c13, sub.name@, p);
        lemma_holds_left(c14, "\" }\n"@, p);
        lemma_holds_left(c15, "}\n\n"@, p);
    }
    {
        let p = "  cidr_block        = \""@ + sub.cidr@ + "\"\n"@;
        assert(c6 =~= c3 + p);
        lemma_holds_suffix(c3, p);
        lemma_holds_left(c6, "  availability_zone = \""@, p);
        lemma_holds_left(c7, sub.availability_zone@, p);
        lemma_holds_left(c8, "\"\n"@, p);
        lemma_holds_left(c9, "  map_public_ip_on_launch = "@, p);
        lemma_holds_left(c10, bool_text(sub.map_public_ip), p);
        lemma_holds_left(c11, "\n"@, p);
        lemma_holds_left(c12, "  tags = { Name = \""@, p);
        lemma_holds_left(c13, sub.name@, p);
        lemma_holds_left(c14, "\" }\n"@, p);
        lemma_holds_left(c15, "}\n\n"@, p);
    }
    {
        let p = "  availability_zone = \""@ + sub.availability_zone@ + "\"\n"@;
        assert(c9 =~= c6 + p);
        lemma_holds_suffix(c6, p);
        lemma_holds_left(c9, "  map_public_ip_on_launch = "@, p);
        lemma_holds_left(c10, bool_text(sub.map_public_ip), p);
        lemma_holds_left(c11, "\n"@, p);
        lemma_holds_left(c12, "  tags = { Name = \""@, p);
        lemma_holds_left(c13, sub.name@, p);
        lemma_holds_left(c14, "\" }\n"@, p);
        lemma_holds_left(c15, "}\n\n"@, p);
    }
    {
        let p = "  map_public_ip_on_launch = "@ + bool_text(sub.map_public_ip) + "\n"@;
        assert(c12 =~= c9 + p);
        lemma_holds_suffix(c9, p);
        lemma_holds_left(c12, "  tags = { Name = \""@, p);
        lemma_holds_left(c13, sub.name@, p);
        lemma_holds_left(c14, "\" }\n"@, p);
        lemma_holds_left(c15, "}\n\n"@, p);
    }
    {
        let p = "  tags = { Name = \""@ + sub.name@ + "\" }\n"@;
        assert(c15 =~= c12 + p);
        lemma_holds_suffix(c12, p);
        lemma_holds_left(c15, "}\n\n"@, p);
    }
}


/// The VPC file holds the block of each VPC and, for each of its subnets,
/// the block of that subnet.
pub proof fn lemma_vpcs_text_parts(vpcs: Seq<VpcInfo>)
    ensures
        forall|i: int| 0 <= i < vpcs.len() ==> holds(vpcs_text(vpcs), vpc_text(#[trigger] vpcs[i])),
        forall|i: int, j: int|
            0 <= i < vpcs.len() && 0 <= j < vpcs[i].subnets@.len() ==> holds(
                vpcs_text(vpcs),
                subnet_text(vpcs[i], #[trigger] vpcs[i].subnets@[j]),
            ),
{
    let f = |v: VpcInfo| vpc_with_subnets_text(v);
    assert forall|i: int| 0 <= i < vpcs.len() implies holds(
        vpcs_text(vpcs),
        vpc_text(#[trigger] vpcs[i]),
    ) by {
        let v = vpcs[i];
        let subs = concat_map(v.subnets@, |s: Subnet| subnet_text(v, s));
        lemma_holds_concat_map(vpcs, f, i);
        lemma_holds_prefix(vpc_text(v), subs);
        lemma_holds_trans(vpcs_text(vpcs), vpc_with_subnets_text(v), vpc_text(v));
    }
    assert forall|i: int, j: int|
        0 <= i < vpcs.len() && 0 <= j < vpcs[i].subnets@.len() implies holds(
        vpcs_text(vpcs),
        subnet_text(vpcs[i], #[trigger] vpcs[i].subnets@[j]),
    ) by {
        let v = vpcs[i];
        let g = |s: Subnet| subnet_text(v, s);
        let subs = concat_map(v.subnets@, g);
        lemma_holds_concat_map(vpcs, f, i);
        lemma_holds_concat_map(v.subnets@, g, j);
        lemma_holds_suffix(vpc_text(v), subs);
        lemma_holds_trans(vpc_with_subnets_text(v), subs, subnet_text(v, v.subnets@[j]));
        lemma_holds_trans(vpcs_text(vpcs), vpc_with_subnets_text(v), subnet_text(v, v.subnets@[j]));
    }
}

} // verus!
