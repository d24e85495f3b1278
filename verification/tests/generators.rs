use dora2tf::generator::{
    ec2, generate_all, iam, quote_tag_key, sg, tf_name, tf_unique_name, vpc, Resources,
};
use dora2tf::scanner::ec2::{AttachedVolume, Ec2Instance};
use dora2tf::scanner::iam::{IamRole, InlinePolicy};
use dora2tf::scanner::sg::{Rule, SecurityGroup};
use dora2tf::scanner::vpc::{Subnet, VpcInfo};

fn s(x: &str) -> String {
    x.to_string()
}

fn tags(pairs: &[(&str, &str)]) -> Vec<(String, String)> {
    pairs.iter().map(|(k, v)| (s(k), s(v))).collect()
}

fn rule(protocol: &str, from: i32, to: i32, cidrs: &[&str], source: Option<&str>) -> Rule {
    Rule {
        protocol: s(protocol),
        from_port: from,
        to_port: to,
        cidr_blocks: cidrs.iter().map(|c| s(c)).collect(),
        source_sg: source.map(s),
        description: String::new(),
    }
}

fn sample_sg(id: &str, name: &str) -> SecurityGroup {
    SecurityGroup {
        id: s(id),
        name: s(name),
        description: s("web access"),
        vpc_id: s("vpc-0123456789"),
        ingress: vec![
            rule("tcp", 80, 80, &["0.0.0.0/0", "10.0.0.0/8"], None),
            rule("tcp", 22, 22, &[], Some("sg-0bastion")),
            rule("-1", -1, -1, &[], None),
        ],
        egress: vec![rule("-1", 0, 0, &["0.0.0.0/0"], None)],
        tags: tags(&[("Name", "web-sg"), ("env", ""), ("cost-center", "42")]),
    }
}

fn sample_vpc() -> VpcInfo {
    VpcInfo {
        id: s("vpc-0123456789"),
        name: s("main-vpc"),
        cidr: s("10.0.0.0/16"),
        subnets: vec![
            Subnet {
                id: s("subnet-0aaa"),
                name: s("public-a"),
                cidr: s("10.0.1.0/24"),
                availability_zone: s("eu-west-1a"),
                map_public_ip: true,
            },
            Subnet {
                id: s("subnet-0bbb"),
                name: s("private-b"),
                cidr: s("10.0.2.0/24"),
                availability_zone: s("eu-west-1b"),
                map_public_ip: false,
            },
        ],
        tags: tags(&[("Name", "main-vpc"), ("team", "infra")]),
    }
}

fn sample_instance() -> Ec2Instance {
    Ec2Instance {
        id: s("i-0abc123def456gh"),
        name: s("web-server"),
        instance_type: s("t3.small"),
        ami: s("ami-0123"),
        subnet_id: s("subnet-0bbb"),
        private_ip: s("10.0.2.15"),
        security_groups: vec![s("sg-0web"), s("sg-0unknown"), s("sg-0web")],
        key_name: Some(s("deploy")),
        volumes: vec![
            AttachedVolume {
                id: s("vol-0root"),
                device_name: s("/dev/xvda"),
                size_gb: 30,
                volume_type: s("gp3"),
                encrypted: true,
                delete_on_termination: false,
            },
            AttachedVolume {
                id: s("vol-0data"),
                device_name: s("/dev/xvdb"),
                size_gb: 100,
                volume_type: s("gp2"),
                encrypted: false,
                delete_on_termination: true,
            },
        ],
        tags: tags(&[("Name", "web-server"), ("aws:autoscaling", "asg-1"), ("empty", "")]),
    }
}

fn bare_instance() -> Ec2Instance {
    Ec2Instance {
        id: s("i-0ffff"),
        name: s("i-0ffff"),
        instance_type: s("t3.micro"),
        ami: s(""),
        subnet_id: s(""),
        private_ip: s(""),
        security_groups: vec![],
        key_name: None,
        volumes: vec![],
        tags: vec![],
    }
}

fn sample_role() -> IamRole {
    IamRole {
        name: s("app-role"),
        assume_role_policy: s("{\"Version\":\"2012-10-17\"}"),
        managed_policies: vec![
            s("arn:aws:iam::aws:policy/ReadOnlyAccess"),
            s("arn:aws:iam::123:policy/team/Custom.Policy"),
            s("no-slash"),
        ],
        inline_policies: vec![InlinePolicy { name: s("s3-read"), document: s("{}\n") }],
        tags: tags(&[("owner", "me")]),
    }
}

// Re-renderings of the documented templates, written the way a reader of the
// HCL layout would write them line by line.

fn line(out: &mut String, text: String) {
    out.push_str(&text);
    out.push('\n');
}

fn expect_tag_lines(out: &mut String, t: &[(String, String)], skip_name: bool) {
    for (k, v) in t {
        if (skip_name && k == "Name") || v.is_empty() {
            continue;
        }
        line(out, format!("    {} = \"{}\"", quote_tag_key(k), v));
    }
}

fn expect_sg(sg: &SecurityGroup, with_source: bool) -> String {
    let mut out = String::new();
    let name = tf_name(&sg.name);
    line(&mut out, format!("resource \"aws_security_group\" \"{}\" {{", name));
    line(&mut out, format!("  name        = \"{}\"", sg.name));
    line(&mut out, format!("  description = \"{}\"", sg.description));
    line(&mut out, format!("  vpc_id      = \"{}\"", sg.vpc_id));
    line(&mut out, format!("  tags = {{"));
    expect_tag_lines(&mut out, &sg.tags, false);
    line(&mut out, format!("  }}"));
    line(&mut out, format!("}}\n"));
    let rules = sg.ingress.iter().map(|r| ("ingress", r)).chain(sg.egress.iter().map(|r| ("egress", r)));
    for (dir, r) in rules {
        let rn = format!("{}_{}_{}_{}", name, dir, r.protocol, r.from_port);
        line(&mut out, format!("resource \"aws_security_group_rule\" \"{}\" {{", rn));
        line(&mut out, format!("  type              = \"{}\"", dir));
        line(&mut out, format!("  from_port         = {}", r.from_port));
        line(&mut out, format!("  to_port           = {}", r.to_port));
        line(&mut out, format!("  protocol          = \"{}\"", r.protocol));
        line(&mut out, format!("  security_group_id = aws_security_group.{}.id", name));
        if with_source && r.source_sg.is_some() {
            line(&mut out, format!("  source_security_group_id = \"{}\"", r.source_sg.as_ref().unwrap()));
        } else if !r.cidr_blocks.is_empty() {
            line(&mut out, format!("  cidr_blocks       = ["));
            for c in &r.cidr_blocks {
                line(&mut out, format!("    \"{}\",", c));
            }
            line(&mut out, format!("  ]"));
        }
        line(&mut out, format!("}}\n"));
    }
    out.push('\n');
    out
}

fn expect_vpc(v: &VpcInfo) -> String {
    let mut out = String::new();
    line(&mut out, format!("resource \"aws_vpc\" \"{}\" {{", tf_name(&v.name)));
    line(&mut out, format!("  cidr_block = \"{}\"", v.cidr));
    line(&mut out, format!("  enable_dns_hostnames = true"));
    line(&mut out, format!("  tags = {{"));
    expect_tag_lines(&mut out, &v.tags, false);
    line(&mut out, format!("  }}"));
    line(&mut out, format!("}}\n"));
    out
}

fn expect_subnet_only(v: &VpcInfo, sub: &Subnet) -> String {
    let mut out = String::new();
    line(&mut out, format!("resource \"aws_subnet\" \"{}\" {{", tf_name(&sub.name)));
    line(&mut out, format!("  vpc_id            = aws_vpc.{}.id", tf_name(&v.name)));
    line(&mut out, format!("  cidr_block        = \"{}\"", sub.cidr));
    line(&mut out, format!("  availability_zone = \"{}\"", sub.availability_zone));
    line(&mut out, format!("  map_public_ip_on_launch = {}", sub.map_public_ip));
    line(&mut out, format!("  tags = {{ Name = \"{}\" }}", sub.name));
    line(&mut out, format!("}}\n"));
    out
}

fn expect_root_volume(out: &mut String, inst: &Ec2Instance) {
    if let Some(vol) = inst.volumes.first() {
        line(out, format!("  root_block_device {{"));
        line(out, format!("    volume_type = \"{}\"", vol.volume_type));
        line(out, format!("    volume_size = {}", vol.size_gb));
        line(out, format!("    encrypted   = {}", vol.encrypted));
        line(out, format!("    delete_on_termination = {}", vol.delete_on_termination));
        line(out, format!("  }}"));
    }
}

fn expect_shared_instance(inst: &Ec2Instance) -> String {
    let mut out = String::new();
    line(&mut out, format!("resource \"aws_instance\" \"{}\" {{", tf_unique_name(&inst.name, &inst.id)));
    line(&mut out, format!("  ami           = \"{}\"", inst.ami));
    line(&mut out, format!("  instance_type = \"{}\"", inst.instance_type));
    if !inst.subnet_id.is_empty() {
        line(&mut out, format!("  subnet_id     = \"{}\"", inst.subnet_id));
    }
    if let Some(k) = &inst.key_name {
        line(&mut out, format!("  key_name      = \"{}\"", k));
    }
    if !inst.security_groups.is_empty() {
        line(&mut out, format!("  vpc_security_group_ids = ["));
        for g in &inst.security_groups {
            line(&mut out, format!("    \"{}\",", g));
        }
        line(&mut out, format!("  ]"));
    }
    expect_root_volume(&mut out, inst);
    line(&mut out, format!("  tags = {{"));
    line(&mut out, format!("    Name        = \"{}\"", inst.name));
    line(&mut out, format!("    ManagedBy   = \"dora2tf\""));
    expect_tag_lines(&mut out, &inst.tags, true);
    line(&mut out, format!("  }}"));
    line(&mut out, format!("}}\n"));
    out
}

#[test]
fn sg_generate_one_matches_template() {
    let g = sample_sg("sg-0web", "web-sg");
    let mut out = s("prefix\n");
    sg::generate_one(&g, &mut out);
    assert_eq!(out, format!("prefix\n{}", expect_sg(&g, true)));
    assert!(out.contains("  source_security_group_id = \"sg-0bastion\"\n"));
    assert!(out.contains("resource \"aws_security_group_rule\" \"web_sg_ingress_-1_-1\" {\n"));
    assert!(out.contains(
        "resource \"aws_security_group_rule\" \"web_sg_egress_-1_0\" {\n  type              = \"egress\"\n"
    ));
    assert!(out.contains("    \"cost-center\" = \"42\"\n"));
    assert!(!out.contains("env"));
}

#[test]
fn sg_generate_concatenates_groups() {
    let a = sample_sg("sg-0a", "a");
    let b = sample_sg("sg-0b", "b");
    let mut all = String::new();
    sg::generate(&[a.clone(), b.clone()], &mut all);
    let mut one_by_one = String::new();
    sg::generate_one(&a, &mut one_by_one);
    sg::generate_one(&b, &mut one_by_one);
    assert_eq!(all, one_by_one);
}

#[test]
fn vpc_only_and_subnet_only_match_template() {
    let v = sample_vpc();
    let mut out = String::new();
    vpc::generate_vpc_only(&v, &mut out);
    assert_eq!(out, expect_vpc(&v));
    let mut out = String::new();
    vpc::generate_subnet_only(&v, &v.subnets[0], &mut out);
    assert_eq!(out, expect_subnet_only(&v, &v.subnets[0]));
    assert!(out.contains("  map_public_ip_on_launch = true\n"));
    assert!(out.contains("  tags = { Name = \"public-a\" }\n"));
}

#[test]
fn vpc_generate_writes_vpc_then_subnets() {
    let v = sample_vpc();
    let mut out = String::new();
    vpc::generate(&[v.clone()], &mut out);
    let expected = expect_vpc(&v) + &expect_subnet_only(&v, &v.subnets[0]) + &expect_subnet_only(&v, &v.subnets[1]);
    assert_eq!(out, expected);
}

#[test]
fn ec2_generate_matches_template() {
    let insts = vec![sample_instance(), bare_instance()];
    let mut out = String::new();
    ec2::generate(&insts, &mut out);
    assert_eq!(out, expect_shared_instance(&insts[0]) + &expect_shared_instance(&insts[1]));
    assert!(out.starts_with("resource \"aws_instance\" \"web_server_i0abc123de\" {\n"));
    assert!(out.contains("    volume_size = 30\n"));
    assert!(out.contains("    \"aws:autoscaling\" = \"asg-1\"\n"));
    assert!(out.contains("resource \"aws_instance\" \"i_0ffff_i0ffff\" {\n"));
}

#[test]
fn ec2_generate_twice_equals_once() {
    let a = vec![sample_instance()];
    let b = vec![bare_instance()];
    let mut once = String::new();
    ec2::generate(&[a[0].clone(), b[0].clone()], &mut once);
    let mut twice = String::new();
    ec2::generate(&a, &mut twice);
    ec2::generate(&b, &mut twice);
    assert_eq!(once, twice);
}

#[test]
fn ec2_generate_one_inlines_related_resources() {
    let inst = sample_instance();
    let sgs = vec![sample_sg("sg-0other", "other"), sample_sg("sg-0web", "web-sg")];
    let vpcs = vec![sample_vpc()];
    let mut out = String::new();
    ec2::generate_one(&inst, &sgs, &vpcs, &mut out);

    let mut expected = String::new();
    line(&mut expected, format!("# ============================================================================"));
    line(&mut expected, format!("# Instance: web-server  (i-0abc123def456gh)"));
    line(&mut expected, format!("# Type: t3.small  |  AMI: ami-0123  |  Private IP: 10.0.2.15"));
    line(&mut expected, format!("# ============================================================================\n"));
    expected += &expect_sg(&sgs[1], false);
    expected += &expect_vpc(&vpcs[0]);
    let sub = &vpcs[0].subnets[1];
    line(&mut expected, format!("resource \"aws_subnet\" \"private_b\" {{"));
    line(&mut expected, format!("  vpc_id            = aws_vpc.main_vpc.id"));
    line(&mut expected, format!("  cidr_block        = \"{}\"", sub.cidr));
    line(&mut expected, format!("  availability_zone = \"{}\"", sub.availability_zone));
    line(&mut expected, format!("  map_public_ip_on_launch = false"));
    line(&mut expected, format!("  tags = {{"));
    line(&mut expected, format!("    Name = \"private-b\""));
    line(&mut expected, format!("  }}"));
    line(&mut expected, format!("}}\n"));
    line(&mut expected, format!("resource \"aws_instance\" \"web_server\" {{"));
    line(&mut expected, format!("  ami           = \"ami-0123\""));
    line(&mut expected, format!("  instance_type = \"t3.small\""));
    line(&mut expected, format!("  subnet_id     = aws_subnet.private_b.id"));
    line(&mut expected, format!("  key_name      = \"deploy\""));
    line(&mut expected, format!("  vpc_security_group_ids = ["));
    line(&mut expected, format!("    aws_security_group.web_sg.id,"));
    line(&mut expected, format!("    \"sg-0unknown\","));
    line(&mut expected, format!("    aws_security_group.web_sg.id,"));
    line(&mut expected, format!("  ]"));
    expect_root_volume(&mut expected, &inst);
    line(&mut expected, format!("  tags = {{"));
    line(&mut expected, format!("    Name = \"web-server\""));
    line(&mut expected, format!("    \"aws:autoscaling\" = \"asg-1\""));
    line(&mut expected, format!("  }}"));
    line(&mut expected, format!("}}\n"));
    assert_eq!(out, expected);
    assert_eq!(out.matches("resource \"aws_security_group\" ").count(), 1);
    assert!(!out.contains("source_security_group_id"));
}

#[test]
fn ec2_generate_one_unknown_subnet_uses_raw_id() {
    let mut inst = bare_instance();
    inst.subnet_id = s("subnet-0zzz");
    let mut out = String::new();
    ec2::generate_one(&inst, &[], &[sample_vpc()], &mut out);
    assert!(out.contains("  subnet_id     = \"subnet-0zzz\"\n"));
    assert!(!out.contains("resource \"aws_vpc\""));
}

#[test]
fn iam_generate_matches_template() {
    let role = sample_role();
    let mut out = String::new();
    iam::generate(&[role.clone()], &mut out);
    let mut expected = String::new();
    line(&mut expected, format!("resource \"aws_iam_role\" \"app_role\" {{"));
    line(&mut expected, format!("  name = \"app-role\""));
    line(&mut expected, format!("  assume_role_policy = <<EOF"));
    expected.push_str(&format!("{}", role.assume_role_policy));
    line(&mut expected, format!("EOF"));
    line(&mut expected, format!("  tags = {{"));
    line(&mut expected, format!("    ManagedBy = \"dora2tf\""));
    line(&mut expected, format!("  }}"));
    line(&mut expected, format!("}}\n"));
    for (arn, pol) in [
        ("arn:aws:iam::aws:policy/ReadOnlyAccess", "readonlyaccess"),
        ("arn:aws:iam::123:policy/team/Custom.Policy", "custom_policy"),
        ("no-slash", "no_slash"),
    ] {
        line(&mut expected, format!("resource \"aws_iam_role_policy_attachment\" \"app_role_{}\" {{", pol));
        line(&mut expected, format!("  role       = aws_iam_role.app_role.name"));
        line(&mut expected, format!("  policy_arn = \"{}\"", arn));
        line(&mut expected, format!("}}\n"));
    }
    line(&mut expected, format!("resource \"aws_iam_role_policy\" \"app_role_s3_read\" {{"));
    line(&mut expected, format!("  name   = \"s3-read\""));
    line(&mut expected, format!("  role   = aws_iam_role.app_role.name"));
    line(&mut expected, format!("  policy = <<EOF"));
    expected.push_str(&format!("{{}}\n"));
    line(&mut expected, format!("EOF"));
    line(&mut expected, format!("}}\n"));
    assert_eq!(out, expected);
}

#[test]
fn generate_all_skips_blank_files() {
    let empty = Resources::default();
    assert!(generate_all(&empty).is_empty());

    let mut res = Resources::default();
    res.security_groups.push(sample_sg("sg-0web", "web-sg"));
    res.roles.push(sample_role());
    let files = generate_all(&res);
    let names: Vec<&str> = files.iter().map(|f| f.filename.as_str()).collect();
    assert_eq!(names, vec!["security_groups.tf", "iam_roles.tf"]);
    let mut sg_text = String::new();
    sg::generate(&res.security_groups, &mut sg_text);
    assert_eq!(files[0].content, sg_text);
}

#[test]
fn generate_all_orders_all_four_files() {
    let res = Resources {
        instances: vec![sample_instance()],
        security_groups: vec![sample_sg("sg-0web", "web-sg")],
        vpcs: vec![sample_vpc()],
        roles: vec![sample_role()],
    };
    let files = generate_all(&res);
    let names: Vec<&str> = files.iter().map(|f| f.filename.as_str()).collect();
    assert_eq!(names, vec!["ec2_instances.tf", "security_groups.tf", "vpc.tf", "iam_roles.tf"]);
    let mut ec2_text = String::new();
    ec2::generate(&res.instances, &mut ec2_text);
    assert_eq!(files[0].content, ec2_text);
}

#[test]
fn is_blank_detects_whitespace_only() {
    assert!(dora2tf::generator::is_blank(""));
    assert!(dora2tf::generator::is_blank(" \n\t\r"));
    assert!(!dora2tf::generator::is_blank("  x "));
}
