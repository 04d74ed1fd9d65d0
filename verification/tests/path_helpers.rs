use kubernetes_logs::kubernetes_logs::path_helpers::{
    build_pod_logs_directory, parse_pod_uid_from_logs_directory,
};

#[test]
fn test_build_pod_logs_directory() {
    let cases = [
        (("", "", ""), "/var/log/pods/__"),
        (
            ("sandbox0-ns", "sandbox0-name", "sandbox0-uid"),
            "/var/log/pods/sandbox0-ns_sandbox0-name_sandbox0-uid",
        ),
    ];

    for ((in_namespace, in_name, in_uid), expected) in cases {
        assert_eq!(
            build_pod_logs_directory(in_namespace, in_name, in_uid),
            expected.to_string()
        );
    }
}

#[test]
fn test_parse_pod_uid_from_logs_directory() {
    let cases = [
        (
            "/var/log/pods/sandbox0-ns_sandbox0-name_sandbox0-uid",
            "sandbox0-uid",
        ),
        ("/var/log/pods/other", "/var/log/pods/other"),
        ("qwe", ""),
        ("", ""),
    ];

    for (input, expected) in cases {
        assert_eq!(
            parse_pod_uid_from_logs_directory(input),
            expected.to_owned()
        );
    }
}

#[test]
fn build_then_parse_recovers_the_uid() {
    let dir = build_pod_logs_directory("kube-system", "coredns-abc", "uid-123");
    assert_eq!(dir, "/var/log/pods/kube-system_coredns-abc_uid-123");
    assert_eq!(parse_pod_uid_from_logs_directory(&dir), "uid-123");
}
