use dora2tf::scanner::ec2::{instance_from_raw, instances_from_raw, RawBlockDevice, RawInstance};
use dora2tf::scanner::iam::role_from_parts;
use dora2tf::scanner::sg::{rule_from_raw, security_group_from_raw, RawIpRange, RawPermission, RawSecurityGroup};
use dora2tf::scanner::vpc::{vpc_from_raw, vpcs_from_raw, RawSubnet, RawVpc};
use dora2tf::scanner::{name_from_tags, tag_keys_distinct, tags_from_raw, RawTag};

fn s(x: &str) -> String {
    x.to_string()
}

fn tag(k: Option<&str>, v: Option<&str>) -> RawTag {
    RawTag { key: k.map(s), value: v.map(s) }
}

fn raw_instance() -> RawInstance {
    RawInstance {
        instance_id: Some(s("i-01")),
        instance_type: None,
        image_id: Some(s("ami-1")),
        subnet_id: None,
        private_ip_address: Some(s("10.0.0.5")),
        key_name: Some(s("k")),
        security_group_ids: vec![Some(s("sg-1")), None, Some(s("sg-2"))],
        block_devices: vec![
            RawBlockDevice { device_name: Some(s("/dev/xvda")), volume_id: Some(s("vol-1")), delete_on_termination: Some(false) },
            RawBlockDevice { device_name: None, volume_id: None, delete_on_termination: None },
        ],
        tags: vec![tag(Some("env"), Some("prod")), tag(None, Some("x")), tag(Some("Name"), Some("box")), tag(Some("env"), None)],
    }
}

#[test]
fn tags_keep_last_value_per_key() {
    let t = tags_from_raw(&vec![tag(Some("a"), Some("1")), tag(Some("b"), None), tag(None, Some("z")), tag(Some("a"), Some("2"))]);
    assert_eq!(t.len(), 2);
    let a = t.iter().find(|(k, _)| k == "a").unwrap();
    assert_eq!(a.1, "2");
    let b = t.iter().find(|(k, _)| k == "b").unwrap();
    assert_eq!(b.1, "");
}

#[test]
fn name_tag_first_match() {
    assert_eq!(name_from_tags(&vec![tag(Some("Name"), Some("x")), tag(Some("Name"), Some("y"))]), Some(s("x")));
    assert_eq!(name_from_tags(&vec![tag(Some("Name"), None), tag(Some("Name"), Some("y"))]), None);
    assert_eq!(name_from_tags(&vec![]), None);
}

#[test]
fn instance_defaults_and_fields() {
    let inst = instance_from_raw(&raw_instance());
    assert_eq!(inst.id, "i-01");
    assert_eq!(inst.name, "box");
    assert_eq!(inst.instance_type, "t3.micro");
    assert_eq!(inst.subnet_id, "");
    assert_eq!(inst.security_groups, vec![s("sg-1"), s("sg-2")]);
    assert_eq!(inst.key_name, Some(s("k")));
    assert_eq!(inst.volumes.len(), 2);
    assert_eq!(inst.volumes[0].id, "vol-1");
    assert!(!inst.volumes[0].delete_on_termination);
    assert_eq!(inst.volumes[1].device_name, "");
    assert!(inst.volumes[1].delete_on_termination);
    assert_eq!(inst.volumes[1].volume_type, "gp2");
    assert_eq!(inst.volumes[1].size_gb, 0);
    let env = inst.tags.iter().find(|(k, _)| k == "env").unwrap();
    assert_eq!(env.1, "");
}

#[test]
fn instance_name_fallbacks() {
    let mut raw = raw_instance();
    raw.tags = vec![];
    assert_eq!(instance_from_raw(&raw).name, "i-01");
    raw.instance_id = None;
    let inst = instance_from_raw(&raw);
    assert_eq!(inst.name, "unknown");
    assert_eq!(inst.id, "");
}

#[test]
fn reservations_flatten_in_order() {
    let mut a = raw_instance();
    a.instance_id = Some(s("i-a"));
    a.tags = vec![];
    let mut b = raw_instance();
    b.instance_id = Some(s("i-b"));
    b.tags = vec![];
    let mut c = raw_instance();
    c.instance_id = Some(s("i-c"));
    c.tags = vec![];
    let out = instances_from_raw(&vec![vec![a], vec![], vec![b, c]]);
    let ids: Vec<&str> = out.iter().map(|i| i.id.as_str()).collect();
    assert_eq!(ids, vec!["i-a", "i-b", "i-c"]);
}

fn perm() -> RawPermission {
    RawPermission {
        ip_protocol: None,
        from_port: None,
        to_port: None,
        ip_ranges: vec![
            RawIpRange { cidr_ip: Some(s("10.0.0.0/8")), description: None },
            RawIpRange { cidr_ip: None, description: Some(s("office")) },
        ],
        source_group_ids: vec![None, Some(s("sg-src"))],
    }
}

#[test]
fn ingress_rule_defaults() {
    let r = rule_from_raw(&perm(), true);
    assert_eq!(r.protocol, "tcp");
    assert_eq!(r.from_port, 0);
    assert_eq!(r.to_port, 65535);
    assert_eq!(r.cidr_blocks, vec![s("10.0.0.0/8"), s("")]);
    assert_eq!(r.source_sg, Some(s("sg-src")));
    assert_eq!(r.description, "office");
}

#[test]
fn egress_rule_has_no_source() {
    let r = rule_from_raw(&perm(), false);
    assert_eq!(r.source_sg, None);
    assert_eq!(r.description, "");
}

#[test]
fn security_group_defaults() {
    let raw = RawSecurityGroup {
        group_id: Some(s("sg-1")),
        group_name: None,
        description: None,
        vpc_id: Some(s("vpc-1")),
        ingress: vec![perm()],
        egress: vec![perm(), perm()],
        tags: vec![tag(Some("Name"), Some("web"))],
    };
    let g = security_group_from_raw(&raw);
    assert_eq!(g.name, "unnamed");
    assert_eq!(g.id, "sg-1");
    assert_eq!(g.description, "");
    assert_eq!(g.ingress.len(), 1);
    assert_eq!(g.egress.len(), 2);
    assert_eq!(g.tags, vec![(s("Name"), s("web"))]);
}

#[test]
fn vpcs_collect_their_subnets() {
    let vpcs = vec![
        RawVpc { vpc_id: Some(s("vpc-1")), cidr_block: Some(s("10.0.0.0/16")), tags: vec![tag(Some("Name"), Some("main"))] },
        RawVpc { vpc_id: Some(s("vpc-2")), cidr_block: None, tags: vec![] },
    ];
    let subnets = vec![
        RawSubnet { subnet_id: Some(s("subnet-a")), vpc_id: Some(s("vpc-1")), cidr_block: Some(s("10.0.1.0/24")), availability_zone: Some(s("az1")), map_public_ip_on_launch: Some(true), tags: vec![] },
        RawSubnet { subnet_id: Some(s("subnet-b")), vpc_id: Some(s("vpc-2")), cidr_block: None, availability_zone: None, map_public_ip_on_launch: None, tags: vec![tag(Some("Name"), Some("bee"))] },
        RawSubnet { subnet_id: Some(s("subnet-c")), vpc_id: None, cidr_block: None, availability_zone: None, map_public_ip_on_launch: None, tags: vec![] },
        RawSubnet { subnet_id: Some(s("subnet-d")), vpc_id: Some(s("vpc-1")), cidr_block: None, availability_zone: None, map_public_ip_on_launch: None, tags: vec![] },
    ];
    let out = vpcs_from_raw(&vpcs, &subnets);
    assert_eq!(out.len(), 2);
    assert_eq!(out[0].name, "main");
    let ids: Vec<&str> = out[0].subnets.iter().map(|x| x.id.as_str()).collect();
    assert_eq!(ids, vec!["subnet-a", "subnet-d"]);
    assert_eq!(out[0].subnets[0].name, "subnet-a");
    assert!(out[0].subnets[0].map_public_ip);
    assert!(!out[0].subnets[1].map_public_ip);
    assert_eq!(out[1].name, "vpc-2");
    assert_eq!(out[1].cidr, "");
    assert_eq!(out[1].subnets[0].name, "bee");
    let alone = vpc_from_raw(&RawVpc { vpc_id: None, cidr_block: None, tags: vec![] }, &subnets);
    assert_eq!(alone.id, "");
    assert!(alone.subnets.is_empty());
}

#[test]
fn role_assembly() {
    let role = role_from_parts(
        "app",
        &None,
        &Some(vec![Some(s("arn:a")), None, Some(s("arn:b"))]),
        &vec![(s("p1"), Some(s("{}"))), (s("p2"), None)],
        &vec![tag(Some("team"), Some("x"))],
    );
    assert_eq!(role.name, "app");
    assert_eq!(role.assume_role_policy, "{}");
    assert_eq!(role.managed_policies, vec![s("arn:a"), s("arn:b")]);
    assert_eq!(role.inline_policies.len(), 1);
    assert_eq!(role.inline_policies[0].name, "p1");
    let none = role_from_parts("r", &Some(s("doc")), &None, &vec![], &vec![]);
    assert_eq!(none.assume_role_policy, "doc");
    assert!(none.managed_policies.is_empty());
}

#[test]
fn tags_keep_first_occurrence_order() {
    let t = tags_from_raw(&vec![
        tag(Some("z"), Some("1")),
        tag(Some("a"), Some("2")),
        tag(Some("z"), Some("3")),
        tag(Some("m"), None),
    ]);
    assert_eq!(t, vec![(s("z"), s("3")), (s("a"), s("2")), (s("m"), s(""))]);
}

#[test]
fn tag_keys_distinct_detects_repeated_keys() {
    let ok = vec![(s("a"), s("1")), (s("b"), s("1")), (s("c"), s(""))];
    assert!(tag_keys_distinct(&ok));
    let twice = vec![(s("a"), s("1")), (s("b"), s("2")), (s("a"), s("3"))];
    assert!(!tag_keys_distinct(&twice));
    assert!(tag_keys_distinct(&vec![]));
    let raw = vec![tag(Some("k"), Some("1")), tag(Some("k"), Some("2")), tag(None, Some("x"))];
    assert!(tag_keys_distinct(&tags_from_raw(&raw)));
}
