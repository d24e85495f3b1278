use dora2tf::generator::imports::{generate, generate_per_instance, generate_shared, shared_between};
use dora2tf::generator::{ec2, Resources};
use dora2tf::scanner::ec2::Ec2Instance;
use dora2tf::scanner::iam::IamRole;
use dora2tf::scanner::sg::{Rule, SecurityGroup};
use dora2tf::scanner::vpc::{Subnet, VpcInfo};

fn s(x: &str) -> String {
    x.to_string()
}

fn sg(id: &str, name: &str, ports: &[i32]) -> SecurityGroup {
    SecurityGroup {
        id: s(id),
        name: s(name),
        description: s(""),
        vpc_id: s("vpc-01"),
        ingress: ports
            .iter()
            .map(|p| Rule {
                protocol: s("tcp"),
                from_port: *p,
                to_port: *p,
                cidr_blocks: vec![],
                source_sg: None,
                description: s(""),
            })
            .collect(),
        egress: vec![],
        tags: vec![],
    }
}

fn subnet(id: &str, name: &str) -> Subnet {
    Subnet { id: s(id), name: s(name), cidr: s("10.0.0.0/24"), availability_zone: s("a"), map_public_ip: false }
}

fn resources() -> Resources {
    Resources {
        instances: vec![],
        security_groups: vec![sg("sg-01", "web", &[80, 443]), sg("sg-02", "db", &[5432])],
        vpcs: vec![
            VpcInfo { id: s("vpc-01"), name: s("main"), cidr: s("10.0.0.0/16"), subnets: vec![subnet("subnet-01", "pub"), subnet("subnet-02", "priv")], tags: vec![] },
            VpcInfo { id: s("vpc-02"), name: s("other"), cidr: s("10.1.0.0/16"), subnets: vec![subnet("subnet-03", "x")], tags: vec![] },
        ],
        roles: vec![IamRole { name: s("app-role"), assume_role_policy: s("{}"), managed_policies: vec![], inline_policies: vec![], tags: vec![] }],
    }
}

fn instance(sgs: &[&str], subnet_id: &str) -> Ec2Instance {
    Ec2Instance {
        id: s("i-0abc"),
        name: s("Web Box"),
        instance_type: s("t3.micro"),
        ami: s("ami-1"),
        subnet_id: s(subnet_id),
        private_ip: s(""),
        security_groups: sgs.iter().map(|x| s(x)).collect(),
        key_name: None,
        volumes: vec![],
        tags: vec![],
    }
}

#[test]
fn shared_script_imports_shared_resources() {
    let res = resources();
    let script = generate_shared(&res, &[s("sg-01")], &[s("subnet-02")], &[s("vpc-01")]);
    assert_eq!(script.filename, "shared_import.sh");
    let expected = "#!/bin/bash\n\
# Import shared resources — run from terraform/\n\n\
terraform import aws_security_group.web sg-01\n\
terraform import aws_security_group_rule.web_ingress_tcp_80 sg-01_ingress_tcp_80\n\
terraform import aws_security_group_rule.web_ingress_tcp_443 sg-01_ingress_tcp_443\n\
terraform import aws_vpc.main vpc-01\n\
terraform import aws_subnet.priv subnet-02\n\
terraform import aws_iam_role.app_role app-role\n";
    assert_eq!(script.content, expected);
}

#[test]
fn shared_script_with_nothing_shared_imports_roles_only() {
    let res = resources();
    let script = generate_shared(&res, &[], &[], &[]);
    assert_eq!(
        script.content,
        "#!/bin/bash\n# Import shared resources — run from terraform/\n\nterraform import aws_iam_role.app_role app-role\n"
    );
}

#[test]
fn per_instance_script_imports_exclusive_resources() {
    let res = resources();
    let inst = instance(&["sg-01", "sg-02", "sg-09"], "subnet-02");
    let script = generate_per_instance(&inst, &res.security_groups, &res.vpcs, &[s("sg-01")], &[], &[s("vpc-01")]);
    assert_eq!(script.filename, "web_box_import.sh");
    let expected = "#!/bin/bash\n\
# Import for: Web Box (i-0abc)\n\
# Run from: terraform/instances/\n\
# Run shared_import.sh first if shared resources changed\n\n\
terraform import aws_security_group.db sg-02\n\
terraform import aws_security_group_rule.db_ingress_tcp_5432 sg-02_ingress_tcp_5432\n\
terraform import aws_subnet.priv subnet-02\n\
terraform import aws_instance.web_box i-0abc\n";
    assert_eq!(script.content, expected);
}

#[test]
fn per_instance_script_without_subnet() {
    let res = resources();
    let inst = instance(&[], "");
    let script = generate_per_instance(&inst, &res.security_groups, &res.vpcs, &[], &[], &[]);
    assert!(script.content.ends_with("\n\nterraform import aws_instance.web_box i-0abc\n"));
    assert!(!script.content.contains("aws_vpc"));
}

#[test]
fn each_group_is_imported_by_exactly_one_script() {
    let res = resources();
    let inst = instance(&["sg-01", "sg-02"], "subnet-01");
    for shared in [vec![], vec![s("sg-01")], vec![s("sg-01"), s("sg-02")]] {
        let a = generate_shared(&res, &shared, &[], &[]);
        let b = generate_per_instance(&inst, &res.security_groups, &res.vpcs, &shared, &[], &[]);
        for id in ["sg-01", "sg-02"] {
            let line = format!(" {}\n", id);
            let n = a.content.matches(&line).count() + b.content.matches(&line).count();
            assert_eq!(n, 1);
        }
    }
}

#[test]
fn shared_between_finds_ids_of_two_lists() {
    let lists = vec![
        vec![s("a"), s("b"), s("a")],
        vec![s("b"), s("c")],
        vec![s("c"), s("a")],
        vec![s("d")],
    ];
    let mut shared = shared_between(&lists);
    shared.sort();
    assert_eq!(shared, vec![s("a"), s("b"), s("c")]);
    assert!(shared_between(&vec![vec![s("x"), s("x")]]).is_empty());
}

#[test]
fn generate_finds_shared_resources() {
    let mut res = resources();
    let mut a = instance(&["sg-01", "sg-02"], "subnet-01");
    a.name = s("a");
    let mut b = instance(&["sg-01"], "subnet-02");
    b.name = s("b");
    let mut c = instance(&["sg-02", "sg-02"], "subnet-03");
    c.name = s("c");
    res.instances = vec![a, b, c];
    let scripts = generate(&res);
    let mut sgs = scripts.shared_sg_ids.clone();
    sgs.sort();
    assert_eq!(sgs, vec![s("sg-01"), s("sg-02")]);
    assert!(scripts.shared_subnet_ids.is_empty());
    assert_eq!(scripts.shared_vpc_ids, vec![s("vpc-01")]);
    assert_eq!(scripts.shared.filename, "shared_import.sh");
    assert!(scripts.shared.content.contains("terraform import aws_vpc.main vpc-01\n"));
    assert!(!scripts.shared.content.contains("aws_subnet."));
    let names: Vec<&str> = scripts.per_instance.iter().map(|x| x.filename.as_str()).collect();
    assert_eq!(names, vec!["a_import.sh", "b_import.sh", "c_import.sh"]);
    assert!(scripts.per_instance[0].content.contains("terraform import aws_subnet.pub subnet-01\n"));
    assert!(!scripts.per_instance[0].content.contains("aws_security_group."));
    assert!(scripts.per_instance[2].content.contains("terraform import aws_vpc.other vpc-02\n"));
}

#[test]
fn group_import_lists_egress_rules_after_ingress_rules() {
    let mut res = resources();
    res.security_groups[0].egress = vec![Rule {
        protocol: s("-1"),
        from_port: 0,
        to_port: 0,
        cidr_blocks: vec![s("0.0.0.0/0")],
        source_sg: None,
        description: s(""),
    }];
    let script = generate_shared(&res, &[s("sg-01")], &[], &[]);
    let expected = "#!/bin/bash\n\
# Import shared resources — run from terraform/\n\n\
terraform import aws_security_group.web sg-01\n\
terraform import aws_security_group_rule.web_ingress_tcp_80 sg-01_ingress_tcp_80\n\
terraform import aws_security_group_rule.web_ingress_tcp_443 sg-01_ingress_tcp_443\n\
terraform import aws_security_group_rule.web_egress_-1_0 sg-01_egress_-1_0\n\
terraform import aws_iam_role.app_role app-role\n";
    assert_eq!(script.content, expected);
}

#[test]
fn shared_between_lists_each_id_once() {
    let lists = vec![vec![s("a"), s("a"), s("b")], vec![s("a"), s("b")], vec![s("b"), s("a")]];
    let shared = shared_between(&lists);
    assert_eq!(shared, vec![s("a"), s("b")]);
}

#[test]
fn instance_imports_name_blocks_of_the_instance_file() {
    let mut res = resources();
    res.security_groups[1].egress = vec![Rule {
        protocol: s("-1"),
        from_port: 0,
        to_port: 0,
        cidr_blocks: vec![s("0.0.0.0/0")],
        source_sg: None,
        description: s(""),
    }];
    let inst = instance(&["sg-01", "sg-02", "sg-01", "sg-09"], "subnet-03");
    let script = generate_per_instance(&inst, &res.security_groups, &res.vpcs, &[], &[], &[]);
    let mut file = String::new();
    ec2::generate_one(&inst, &res.security_groups, &res.vpcs, &mut file);
    let mut imports = 0;
    for line in script.content.lines().filter(|l| l.starts_with("terraform import ")) {
        let address = line["terraform import ".len()..].split(' ').next().unwrap();
        let (kind, name) = address.split_once('.').unwrap();
        let header = format!("resource \"{}\" \"{}\" {{\n", kind, name);
        assert!(file.contains(&header), "{}", header);
        imports += 1;
    }
    assert_eq!(imports, 12);
}
