use pinger::try_host_from_cloud_region;

#[test]
fn test_host_from_aws() {
    assert_eq!(
        try_host_from_cloud_region("aws:eu-west-1"),
        Some("ec2.eu-west-1.amazonaws.com".to_string())
    );
}

#[test]
fn test_host_from_gcp() {
    assert_eq!(
        try_host_from_cloud_region("gcp:me-central2"),
        Some("storage.me-central2.rep.googleapis.com".to_string())
    );
    assert_eq!(
        try_host_from_cloud_region("gcp:"),
        Some("cloud.google.com".to_string())
    );
}

#[test]
fn test_host_from_foo() {
    assert_eq!(try_host_from_cloud_region("foo:bar"), None);
}

#[test]
fn test_invalid_input() {
    assert_eq!(try_host_from_cloud_region("foo"), None);
}

#[test]
fn region_splits_at_first_colon() {
    assert_eq!(
        try_host_from_cloud_region("aws:a:b"),
        Some("ec2.a:b.amazonaws.com".to_string())
    );
    assert_eq!(try_host_from_cloud_region("AWS:eu-west-1"), None);
}
