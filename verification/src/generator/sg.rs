//! Security group blocks and their ingress and egress rules.

use vstd::prelude::*;
use crate::scanner::sg::{Rule, SecurityGroup};
use crate::seqs::{
    concat_map, holds, lemma_concat_map_all, lemma_concat_map_append, lemma_concat_map_take,
    lemma_holds_concat_map, lemma_holds_left, lemma_holds_mid, lemma_holds_prefix, lemma_holds_self,
    lemma_holds_suffix, lemma_holds_trans,
};
use crate::text::{i32_text, int_text};
use super::{
    resource_header, tag_line, tag_lines, tf_name, tf_name_text, write_resource_header,
    write_tag_lines,
};

verus! {

/// One entry of a `cidr_blocks` list.
pub open spec fn cidr_line(cidr: String) -> Seq<char> {
    "    \""@ + cidr@ + "\",\n"@
}

/// The `cidr_blocks` list of a rule; nothing when it has no CIDR block.
pub open spec fn cidr_block_text(cidrs: Seq<String>) -> Seq<char> {
    if cidrs.len() == 0 {
        Seq::empty()
    } else {
        "  cidr_blocks       = [\n"@ + concat_map(cidrs, |c: String| cidr_line(c)) + "  ]\n"@
    }
}

/// What a rule allows traffic from: the source security group where
/// `with_source` is set and the rule has one, else its CIDR blocks.
pub open spec fn rule_target_text(rule: Rule, with_source: bool) -> Seq<char> {
    if with_source && rule.source_sg is Some {
        "  source_security_group_id = \""@ + rule.source_sg->0@ + "\"\n"@
    } else {
        cidr_block_text(rule.cidr_blocks@)
    }
}

/// The key of a rule: `prefix`, the direction, the protocol and the first
/// port, joined by `_`. With the group's Terraform name as prefix it names
/// the rule's block; with the group's id it is the rule's import id.
pub open spec fn rule_key(prefix: Seq<char>, direction: Seq<char>, rule: Rule) -> Seq<char> {
    prefix + "_"@ + direction + "_"@ + rule.protocol@ + "_"@ + int_text(rule.from_port as int)
}

/// The `aws_security_group_rule` block of a rule of the group whose Terraform
/// name is `sg_name`; `direction` is `ingress` or `egress`.
pub open spec fn rule_text(
    sg_name: Seq<char>,
    direction: Seq<char>,
    rule: Rule,
    with_source: bool,
) -> Seq<char> {
    resource_header("aws_security_group_rule"@, rule_key(sg_name, direction, rule))
        + "  type              = \""@ + direction + "\"\n"@
        + "  from_port         = "@ + int_text(rule.from_port as int) + "\n"@
        + "  to_port           = "@ + int_text(rule.to_port as int) + "\n"@
        + "  protocol          = \""@ + rule.protocol@ + "\"\n"@
        + "  security_group_id = aws_security_group."@ + sg_name + ".id\n"@ + rule_target_text(
        rule,
        with_source,
    ) + "}\n\n"@
}

/// The rule blocks of a list of rules of one direction, in order.
pub open spec fn rules_text(
    sg_name: Seq<char>,
    direction: Seq<char>,
    rules: Seq<Rule>,
    with_source: bool,
) -> Seq<char> {
    concat_map(rules, |r: Rule| rule_text(sg_name, direction, r, with_source))
}

/// The `aws_security_group` block of a group, without its rules.
pub open spec fn group_block_text(sg: SecurityGroup) -> Seq<char> {
    resource_header("aws_security_group"@, tf_name_text(sg.name@)) + "  name        = \""@ + sg.name@
        + "\"\n"@ + "  description = \""@ + sg.description@ + "\"\n"@ + "  vpc_id      = \""@
        + sg.vpc_id@ + "\"\n"@ + "  tags = {\n"@ + tag_lines(sg.tags@, false) + "  }\n"@
        + "}\n\n"@
}

/// The `aws_security_group` block of a group, followed by the blocks of its
/// ingress rules, those of its egress rules, and an empty line.
pub open spec fn security_group_text(sg: SecurityGroup, with_source: bool) -> Seq<char> {
    let name = tf_name_text(sg.name@);
    group_block_text(sg) + rules_text(name, "ingress"@, sg.ingress@, with_source) + rules_text(
        name,
        "egress"@,
        sg.egress@,
        with_source,
    ) + "\n"@
}

fn write_cidr_block(cidrs: &Vec<String>) -> (r: String)
    ensures
        r@ == cidr_block_text(cidrs@),
{
    if cidrs.len() == 0 {
        return String::new();
    }
    let ghost f = |c: String| cidr_line(c);
    let mut lines = String::new();
    let mut i: usize = 0;
    while i < cidrs.len()
        invariant
            i <= cidrs.len(),
            f == (|c: String| cidr_line(c)),
            lines@ == concat_map(cidrs@.take(i as int), f),
        decreases cidrs.len() - i,
    {
        proof {
            lemma_concat_map_take(cidrs@, f, i as int);
        }
        lines.append("    \"");
        lines.append(cidrs[i].as_str());
        lines.append("\",\n");
        assert(lines@ =~= concat_map(cidrs@.take(i + 1), f));
        i = i + 1;
    }
    proof {
        lemma_concat_map_all(cidrs@, f);
    }
    let mut r = String::from_str("  cidr_blocks       = [\n");
    r.append(lines.as_str());
    r.append("  ]\n");
    r
}

fn write_rule_target(rule: &Rule, with_source: bool) -> (r: String)
    ensures
        r@ == rule_target_text(*rule, with_source),
{
    if with_source {
        if let Some(src) = &rule.source_sg {
            let mut r = String::from_str("  source_security_group_id = \"");
            r.append(src.as_str());
            r.append("\"\n");
            return r;
        }
    }
    write_cidr_block(&rule.cidr_blocks)
}

/// The text of `rule_key(prefix, direction, rule)`.
pub(crate) fn write_rule_key(prefix: &str, direction: &str, rule: &Rule) -> (r: String)
    ensures
        r@ == rule_key(prefix@, direction@, *rule),
{
    let port = i32_text(rule.from_port);
    let mut r = String::from_str(prefix);
    r.append("_");
    r.append(direction);
    r.append("_");
    r.append(rule.protocol.as_str());
    r.append("_");
    r.append(port.as_str());
    r
}

fn write_rule(sg_name: &str, direction: &str, rule: &Rule, with_source: bool) -> (r: String)
    ensures
        r@ == rule_text(sg_name@, direction@, *rule, with_source),
{
    let from = i32_text(rule.from_port);
    let to = i32_text(rule.to_port);
    let target = write_rule_target(rule, with_source);
    let key = write_rule_key(sg_name, direction, rule);
    let mut r = write_resource_header("aws_security_group_rule", key.as_str());
    r.append("  type              = \"");
    r.append(direction);
    r.append("\"\n");
    r.append("  from_port         = ");
    r.append(from.as_str());
    r.append("\n");
    r.append("  to_port           = ");
    r.append(to.as_str());
    r.append("\n");
    r.append("  protocol          = \"");
    r.append(rule.protocol.as_str());
    r.append("\"\n");
    r.append("  security_group_id = aws_security_group.");
    r.append(sg_name);
    r.append(".id\n");
    r.append(target.as_str());
    r.append("}\n\n");
    r
}

fn write_rules(sg_name: &str, direction: &str, rules: &Vec<Rule>, with_source: bool) -> (r: String)
    ensures
        r@ == rules_text(sg_name@, direction@, rules@, with_source),
{
    let ghost f = |x: Rule| rule_text(sg_name@, direction@, x, with_source);
    let mut r = String::new();
    let mut i: usize = 0;
    while i < rules.len()
        invariant
            i <= rules.len(),
            f == (|x: Rule| rule_text(sg_name@, direction@, x, with_source)),
            r@ == concat_map(rules@.take(i as int), f),
        decreases rules.len() - i,
    {
        proof {
            lemma_concat_map_take(rules@, f, i as int);
        }
        let block = write_rule(sg_name, direction, &rules[i], with_source);
        r.append(block.as_str());
        i = i + 1;
    }
    proof {
        lemma_concat_map_all(rules@, f);
    }
    r
}

/// The text of `security_group_text(sg, with_source)`.
pub(crate) fn write_security_group(sg: &SecurityGroup, with_source: bool) -> (r: String)
    requires
        sg.well_formed(),
    ensures
        r@ == security_group_text(*sg, with_source),
{
    let name = tf_name(sg.name.as_str());
    let tags = write_tag_lines(&sg.tags, false);
    let ingress = write_rules(name.as_str(), "ingress", &sg.ingress, with_source);
    let egress = write_rules(name.as_str(), "egress", &sg.egress, with_source);
    let mut r = write_resource_header("aws_security_group", name.as_str());
    r.append("  name        = \"");
    r.append(sg.name.as_str());
    r.append("\"\n");
    r.append("  description = \"");
    r.append(sg.description.as_str());
    r.append("\"\n");
    r.append("  vpc_id      = \"");
    r.append(sg.vpc_id.as_str());
    r.append("\"\n");
    r.append("  tags = {\n");
    r.append(tags.as_str());
    r.append("  }\n");
    r.append("}\n\n");
    r.append(ingress.as_str());
    r.append(egress.as_str());
    r.append("\n");
    r
}

/// Generate one SG with its rules (for shared.tf): the group block, then one
/// `aws_security_group_rule` block per ingress rule and one per egress rule,
/// each naming its source group where it has one and its CIDR blocks
/// otherwise. The text is appended
/// to `output`.
pub fn generate_one(sg: &SecurityGroup, output: &mut String)
    requires
        sg.well_formed(),
    ensures
        final(output)@ == old(output)@ + security_group_text(*sg, true),
{
    let text = write_security_group(sg, true);
    output.append(text.as_str());
}

/// The text of every group of a list, each as `generate_one` writes it.
pub open spec fn security_groups_text(sgs: Seq<SecurityGroup>) -> Seq<char> {
    concat_map(sgs, |sg: SecurityGroup| security_group_text(sg, true))
}

/// Generate every SG with its rules, in order (the shared security group
/// file), appending the text to `output`.
#[verifier::spinoff_prover]
#[verifier::rlimit(40)]
pub fn generate(sgs: &[SecurityGroup], output: &mut String)
    requires
        forall|k: int| 0 <= k < sgs@.len() ==> (#[trigger] sgs@[k]).well_formed(),
    ensures
        final(output)@ == old(output)@ + security_groups_text(sgs@),
{
    let ghost f = |sg: SecurityGroup| security_group_text(sg, true);
    let mut text = String::new();
    let mut i: usize = 0;
    while i < sgs.len()
        invariant
            i <= sgs.len(),
            f == (|sg: SecurityGroup| security_group_text(sg, true)),
            text@ == concat_map(sgs@.take(i as int), f),
            forall|k: int| 0 <= k < sgs@.len() ==> (#[trigger] sgs@[k]).well_formed(),
        decreases sgs.len() - i,
    {
        proof {
            lemma_concat_map_take(sgs@, f, i as int);
        }
        let block = write_security_group(&sgs[i], true);
        text.append(block.as_str());
        i = i + 1;
    }
    proof {
        lemma_concat_map_all(sgs@, f);
    }
    output.append(text.as_str());
}

/// Generating two lists of groups one after the other into the same output
/// writes what generating their concatenation writes.
#[verifier::spinoff_prover]
pub proof fn lemma_generate_concat(out: Seq<char>, a: Seq<SecurityGroup>, b: Seq<SecurityGroup>)
    ensures
        out + security_groups_text(a + b) =~= out + security_groups_text(a) + security_groups_text(b),
{
    lemma_concat_map_append(a, b, |sg: SecurityGroup| security_group_text(sg, true));
}


/// The block of a rule names the rule after its group, direction, protocol
/// and first port, and carries the rule's direction, both of its ports, its
/// protocol, its group and what it allows traffic from.
#[verifier::spinoff_prover]
#[verifier::rlimit(40)]
pub proof fn lemma_rule_text_fields(sg_name: Seq<char>, direction: Seq<char>, rule: Rule, with_source: bool)
    ensures
        holds(rule_text(sg_name, direction, rule, with_source), resource_header("aws_security_group_rule"@, rule_key(sg_name, direction, rule))),
        holds(rule_text(sg_name, direction, rule, with_source), "  type              = \""@ + direction + "\"\n"@),
        holds(rule_text(sg_name, direction, rule, with_source), "  from_port         = "@ + int_text(rule.from_port as int) + "\n"@),
        holds(rule_text(sg_name, direction, rule, with_source), "  to_port           = "@ + int_text(rule.to_port as int) + "\n"@),
        holds(rule_text(sg_name, direction, rule, with_source), "  protocol          = \""@ + rule.protocol@ + "\"\n"@),
        holds(rule_text(sg_name, direction, rule, with_source), "  security_group_id = aws_security_group."@ + sg_name + ".id\n"@),
        holds(rule_text(sg_name, direction, rule, with_source), rule_target_text(rule, with_source)),
{
    let c0 = resource_header("aws_security_group_rule"@, rule_key(sg_name, direction, rule));
    let c1 = c0 + "  type              = \""@;
    let c2 = c1 + direction;
    let c3 = c2 + "\"\n"@;
    let c4 = c3 + "  from_port         = "@;
    let c5 = c4 + int_text(rule.from_port as int);
    let c6 = c5 + "\n"@;
    let c7 = c6 + "  to_port           = "@;
    let c8 = c7 + int_text(rule.to_port as int);
    let c9 = c8 + "\n"@;
    let c10 = c9 + "  protocol          = \""@;
    let c11 = c10 + rule.protocol@;
    let c12 = c11 + "\"\n"@;
    let c13 = c12 + "  security_group_id = aws_security_group."@;
    let c14 = c13 + sg_name;
    let c15 = c14 + ".id\n"@;
    let c16 = c15 + rule_target_text(rule, with_source);
    let c17 = c16 + "}\n\n"@;
    assert(rule_text(sg_name, direction, rule, with_source) == c17);
    {
        lemma_holds_prefix(c0, "  type              = \""@);
        lemma_holds_left(c1, direction, c0);
        lemma_holds_left(c2, "\"\n"@, c0);
        lemma_holds_left(c3, "  from_port         = "@, c0);
        lemma_holds_left(c4, int_text(rule.from_port as int), c0);
        lemma_holds_left(c5, "\n"@, c0);
        lemma_holds_left(c6, "  to_port           = "@, c0);
        lemma_holds_left(c7, int_text(rule.to_port as int), c0);
        lemma_holds_left(c8, "\n"@, c0);
        lemma_holds_left(c9, "  protocol          = \""@, c0);
        lemma_holds_left(c10, rule.protocol@, c0);
        lemma_holds_left(c11, "\"\n"@, c0);
        lemma_holds_left(c12, "  security_group_id = aws_security_group."@, c0);
        lemma_holds_left(c13, sg_name, c0);
        lemma_holds_left(c14, ".id\n"@, c0);
        lemma_holds_left(c15, rule_target_text(rule, with_source), c0);
        lemma_holds_left(c16, "}\n\n"@, c0);
    }
    {
        let p = "  type              = \""@ + direction + "\"\n"@;
        assert(c3 =~= c0 + p);
        lemma_holds_suffix(c0, p);
        lemma_holds_left(c3, "  from_port         = "@, p);
        lemma_holds_left(c4, int_text(rule.from_port as int), p);
        lemma_holds_left(c5, "\n"@, p);
        lemma_holds_left(c6, "  to_port           = "@, p);
        lemma_holds_left(c7, int_text(rule.to_port as int), p);
        lemma_holds_left(c8, "\n"@, p);
        lemma_holds_left(c9, "  protocol          = \""@, p);
        lemma_holds_left(c10, rule.protocol@, p);
        lemma_holds_left(c11, "\"\n"@, p);
        lemma_holds_left(c12, "  security_group_id = aws_security_group."@, p);
        lemma_holds_left(c13, sg_name, p);
        lemma_holds_left(c14, ".id\n"@, p);
        lemma_holds_left(c15, rule_target_text(rule, with_source), p);
        lemma_holds_left(c16, "}\n\n"@, p);
    }
    {
        let p = "  from_port         = "@ + int_text(rule.from_port as int) + "\n"@;
        assert(c6 =~= c3 + p);
        lemma_holds_suffix(c3, p);
        lemma_holds_left(c6, "  to_port           = "@, p);
        lemma_holds_left(c7, int_text(rule.to_port as int), p);
        lemma_holds_left(c8, "\n"@, p);
        lemma_holds_left(c9, "  protocol          = \""@, p);
        lemma_holds_left(c10, rule.protocol@, p);
        lemma_holds_left(c11, "\"\n"@, p);
        lemma_holds_left(c12, "  security_group_id = aws_security_group."@, p);
        lemma_holds_left(c13, sg_name, p);
        lemma_holds_left(c14, ".id\n"@, p);
        lemma_holds_left(c15, rule_target_text(rule, with_source), p);
        lemma_holds_left(c16, "}\n\n"@, p);
    }
    {
        let p = "  to_port           = "@ + int_text(rule.to_port as int) + "\n"@;
        assert(c9 =~= c6 + p);
        lemma_holds_suffix(c6, p);
        lemma_holds_left(c9, "  protocol          = \""@, p);
        lemma_holds_left(c10, rule.protocol@, p);
        lemma_holds_left(c11, "\"\n"@, p);
        lemma_holds_left(c12, "  security_group_id = aws_security_group."@, p);
        lemma_holds_left(c13, sg_name, p);
        lemma_holds_left(c14, ".id\n"@, p);
        lemma_holds_left(c15, rule_target_text(rule, with_source), p);
        lemma_holds_left(c16, "}\n\n"@, p);
    }
    {
        let p = "  protocol          = \""@ + rule.protocol@ + "\"\n"@;
        assert(c12 =~= c9 + p);
        lemma_holds_suffix(c9, p);
        lemma_holds_left(c12, "  security_group_id = aws_security_group."@, p);
        lemma_holds_left(c13, sg_name, p);
        lemma_holds_left(c14, ".id\n"@, p);
        lemma_holds_left(c15, rule_target_text(rule, with_source), p);
        lemma_holds_left(c16, "}\n\n"@, p);
    }
    {
        let p = "  security_group_id = aws_security_group."@ + sg_name + ".id\n"@;
        assert(c15 =~= c12 + p);
        lemma_holds_suffix(c12, p);
        lemma_holds_left(c15, rule_target_text(rule, with_source), p);
        lemma_holds_left(c16, "}\n\n"@, p);
    }
    {
        let p = rule_target_text(rule, with_source);
        assert(c16 =~= c15 + p);
        lemma_holds_suffix(c15, p);
        lemma_holds_left(c16, "}\n\n"@, p);
    }
}

/// The block of a group names it by its Terraform name and carries its name,
/// description and VPC id, and its tag lines.
#[verifier::spinoff_prover]
#[verifier::rlimit(40)]
pub proof fn lemma_group_block_fields(sg: SecurityGroup)
    ensures
        holds(group_block_text(sg), resource_header("aws_security_group"@, tf_name_text(sg.name@))),
        holds(group_block_text(sg), "  name        = \""@ + sg.name@ + "\"\n"@),
        holds(group_block_text(sg), "  description = \""@ + sg.description@ + "\"\n"@),
        holds(group_block_text(sg), "  vpc_id      = \""@ + sg.vpc_id@ + "\"\n"@),
        holds(group_block_text(sg), tag_lines(sg.tags@, false)),
{
    let c0 = resource_header("aws_security_group"@, tf_name_text(sg.name@));
    let c1 = c0 + "  name        = \""@;
    let c2 = c1 + sg.name@;
    let c3 = c2 + "\"\n"@;
    let c4 = c3 + "  description = \""@;
    let c5 = c4 + sg.description@;
    let c6 = c5 + "\"\n"@;
    let c7 = c6 + "  vpc_id      = \""@;
    let c8 = c7 + sg.vpc_id@;
    let c9 = c8 + "\"\n"@;
    let c10 = c9 + "  tags = {\n"@;
    let c11 = c10 + tag_lines(sg.tags@, false);
    let c12 = c11 + "  }\n"@;
    let c13 = c12 + "}\n\n"@;
    assert(group_block_text(sg) == c13);
    {
        lemma_holds_prefix(c0, "  name        = \""@);
        lemma_holds_left(c1, sg.name@, c0);
        lemma_holds_left(c2, "\"\n"@, c0);
        lemma_holds_left(c3, "  description = \""@, c0);
        lemma_holds_left(c4, sg.description@, c0);
        lemma_holds_left(c5, "\"\n"@, c0);
        lemma_holds_left(c6, "  vpc_id      = \""@, c0);
        lemma_holds_left(c7, sg.vpc_id@, c0);
        lemma_holds_left(c8, "\"\n"@, c0);
        lemma_holds_left(c9, "  tags = {\n"@, c0);
        lemma_holds_left(c10, tag_lines(sg.tags@, false), c0);
        lemma_holds_left(c11, "  }\n"@, c0);
        lemma_holds_left(c12, "}\n\n"@, c0);
    }
    {
        let p = "  name        = \""@ + sg.name@ + "\"\n"@;
        assert(c3 =~= c0 + p);
        lemma_holds_suffix(c0, p);
        lemma_holds_left(c3, "  description = \""@, p);
        lemma_holds_left(c4, sg.description@, p);
        lemma_holds_left(c5, "\"\n"@, p);
        lemma_holds_left(c6, "  vpc_id      = \""@, p);
        lemma_holds_left(c7, sg.vpc_id@, p);
        lemma_holds_left(c8, "\"\n"@, p);
        lemma_holds_left(c9, "  tags = {\n"@, p);
        lemma_holds_left(c10, tag_lines(sg.tags@, false), p);
        lemma_holds_left(c11, "  }\n"@, p);
        lemma_holds_left(c12, "}\n\n"@, p);
    }
    {
        let p = "  description = \""@ + sg.description@ + "\"\n"@;
        assert(c6 =~= c3 + p);
        lemma_holds_suffix(c3, p);
        lemma_holds_left(c6, "  vpc_id      = \""@, p);
        lemma_holds_left(c7, sg.vpc_id@, p);
        lemma_holds_left(c8, "\"\n"@, p);
        lemma_holds_left(c9, "  tags = {\n"@, p);
        lemma_holds_left(c10, tag_lines(sg.tags@, false), p);
        lemma_holds_left(c11, "  }\n"@, p);
        lemma_holds_left(c12, "}\n\n"@, p);
    }
    {
        let p = "  vpc_id      = \""@ + sg.vpc_id@ + "\"\n"@;
        assert(c9 =~= c6 + p);
        lemma_holds_suffix(c6, p);
        lemma_holds_left(c9, "  tags = {\n"@, p);
        lemma_holds_left(c10, tag_lines(sg.tags@, false), p);
        lemma_holds_left(c11, "  }\n"@, p);
        lemma_holds_left(c12, "}\n\n"@, p);
    }
    {
        let p = tag_lines(sg.tags@, false);
        assert(c11 =~= c10 + p);
        lemma_holds_suffix(c10, p);
        lemma_holds_left(c11, "  }\n"@, p);
        lemma_holds_left(c12, "}\n\n"@, p);
    }
}


/// The text of a group holds the group's own block and the block of each of
/// its ingress rules and of each of its egress rules, named after the
/// group's Terraform name.
pub proof fn lemma_group_rules(sg: SecurityGroup, with_source: bool)
    ensures
        holds(security_group_text(sg, with_source), group_block_text(sg)),
        forall|i: int|
            0 <= i < sg.ingress@.len() ==> holds(
                security_group_text(sg, with_source),
                rule_text(tf_name_text(sg.name@), "ingress"@, #[trigger] sg.ingress@[i], with_source),
            ),
        forall|i: int|
            0 <= i < sg.egress@.len() ==> holds(
                security_group_text(sg, with_source),
                rule_text(tf_name_text(sg.name@), "egress"@, #[trigger] sg.egress@[i], with_source),
            ),
{
    let sn = tf_name_text(sg.name@);
    let gb = group_block_text(sg);
    let ri = rules_text(sn, "ingress"@, sg.ingress@, with_source);
    let re = rules_text(sn, "egress"@, sg.egress@, with_source);
    let t = security_group_text(sg, with_source);
    assert(t == gb + ri + re + "\n"@);
    lemma_holds_prefix(gb, ri);
    lemma_holds_left(gb + ri, re, gb);
    lemma_holds_left(gb + ri + re, "\n"@, gb);
    lemma_holds_mid(gb, ri, re + "\n"@);
    assert(t =~= gb + ri + (re + "\n"@));
    lemma_holds_mid(gb + ri, re, "\n"@);
    assert forall|i: int| 0 <= i < sg.ingress@.len() implies holds(
        t,
        rule_text(sn, "ingress"@, #[trigger] sg.ingress@[i], with_source),
    ) by {
        lemma_holds_concat_map(sg.ingress@, |x: Rule| rule_text(sn, "ingress"@, x, with_source), i);
        lemma_holds_trans(t, ri, rule_text(sn, "ingress"@, sg.ingress@[i], with_source));
    }
    assert forall|i: int| 0 <= i < sg.egress@.len() implies holds(
        t,
        rule_text(sn, "egress"@, #[trigger] sg.egress@[i], with_source),
    ) by {
        lemma_holds_concat_map(sg.egress@, |x: Rule| rule_text(sn, "egress"@, x, with_source), i);
        lemma_holds_trans(t, re, rule_text(sn, "egress"@, sg.egress@[i], with_source));
    }
}


/// The security groups file holds the text of each of its groups.
pub proof fn lemma_security_groups_text_parts(sgs: Seq<SecurityGroup>)
    ensures
        forall|i: int|
            0 <= i < sgs.len() ==> holds(
                security_groups_text(sgs),
                security_group_text(#[trigger] sgs[i], true),
            ),
{
    assert forall|i: int| 0 <= i < sgs.len() implies holds(
        security_groups_text(sgs),
        security_group_text(#[trigger] sgs[i], true),
    ) by {
        lemma_holds_concat_map(sgs, |sg: SecurityGroup| security_group_text(sg, true), i);
    }
}


/// What a rule's block allows traffic from: its source group, where sources
/// are written and the rule has one; otherwise the quoted entry of each of
/// its CIDR blocks, and nothing when it has none.
pub proof fn lemma_rule_target(rule: Rule, with_source: bool)
    ensures
        with_source && rule.source_sg is Some ==> rule_target_text(rule, with_source)
            == "  source_security_group_id = \""@ + rule.source_sg->0@ + "\"\n"@,
        !(with_source && rule.source_sg is Some) ==> forall|i: int|
            0 <= i < rule.cidr_blocks@.len() ==> holds(
                rule_target_text(rule, with_source),
                "    \""@ + (#[trigger] rule.cidr_blocks@[i])@ + "\",\n"@,
            ),
        !(with_source && rule.source_sg is Some) && rule.cidr_blocks@.len() == 0
            ==> rule_target_text(rule, with_source).len() == 0,
{
    let cidrs = rule.cidr_blocks@;
    if !(with_source && rule.source_sg is Some) && cidrs.len() > 0 {
        let h = "  cidr_blocks       = [\n"@;
        let f = |c: String| cidr_line(c);
        let c = concat_map(cidrs, f);
        assert(rule_target_text(rule, with_source) == h + c + "  ]\n"@);
        lemma_holds_mid(h, c, "  ]\n"@);
        assert forall|i: int| 0 <= i < cidrs.len() implies holds(
            rule_target_text(rule, with_source),
            "    \""@ + (#[trigger] cidrs[i])@ + "\",\n"@,
        ) by {
            lemma_holds_concat_map(cidrs, f, i);
            lemma_holds_trans(rule_target_text(rule, with_source), c, f(cidrs[i]));
        }
    }
}


/// A rule key joins the prefix, the direction, the protocol and the first
/// port, each after the first preceded by `_`.
pub proof fn lemma_rule_key_format(prefix: Seq<char>, direction: Seq<char>, rule: Rule)
    ensures
        rule_key(prefix, direction, rule) == prefix + ("_"@ + direction) + ("_"@ + rule.protocol@) + (
        "_"@ + int_text(rule.from_port as int)),
{
    assert(rule_key(prefix, direction, rule) =~= prefix + ("_"@ + direction) + ("_"@
        + rule.protocol@) + ("_"@ + int_text(rule.from_port as int)));
}

} // verus!
