use dora2tf::plan::{plan_scan, ScanStep};

fn names(steps: &[ScanStep]) -> Vec<String> {
    steps
        .iter()
        .map(|s| match s {
            ScanStep::Ec2 => "ec2".to_string(),
            ScanStep::Sg => "sg".to_string(),
            ScanStep::Vpc => "vpc".to_string(),
            ScanStep::Iam => "iam".to_string(),
            ScanStep::Unknown(n) => format!("?{}", n),
        })
        .collect()
}

#[test]
fn all_means_every_kind_in_order() {
    assert_eq!(names(&plan_scan("all")), vec!["ec2", "sg", "vpc", "iam"]);
}

#[test]
fn comma_list_is_trimmed() {
    assert_eq!(names(&plan_scan(" vpc , ec2,iam ")), vec!["vpc", "ec2", "iam"]);
}

#[test]
fn unknown_names_are_kept() {
    assert_eq!(names(&plan_scan("ec2,s3,,ALL")), vec!["ec2", "?s3", "?", "?ALL"]);
    assert_eq!(names(&plan_scan("")), vec!["?"]);
}
