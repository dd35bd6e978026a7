use nerine::attach::AttachmentService;
use nerine::challenge::{default_archive_name, default_strategy, is_zero, DeploymentStrategy, Limits};

fn service(base: Option<&str>) -> AttachmentService {
    AttachmentService::new(base.map(|s| s.to_string()), None, "http://ctf.example")
}

#[test]
fn disabled_service_serves_nothing() {
    let s = service(None);
    assert!(!s.is_enabled());
    assert!(!s.check_path("anything"));
    assert!(!s.check_path_servable("anything"));
    assert!(s.get_attachment_path("anything").is_none());
    assert_eq!(s.attachments_serving_url, "http://ctf.example/api/attachments/download");
}

#[test]
fn serving_url_override_is_kept() {
    let s = AttachmentService::new(
        Some("/attachments".to_string()),
        Some("https://cdn.example/files".to_string()),
        "http://ctf.example",
    );
    assert_eq!(s.attachments_serving_url, "https://cdn.example/files");
}

#[test]
fn relative_paths_stay_under_the_base() {
    let s = service(Some("/attachments"));
    assert!(s.is_enabled());
    assert!(s.check_path("chall/file.tar.gz"));
    assert_eq!(
        s.get_attachment_path("chall/file.tar.gz"),
        Some("/attachments/chall/file.tar.gz".to_string())
    );
}

#[test]
fn absolute_paths_must_open_with_the_base() {
    let s = service(Some("/attachments"));
    assert!(s.check_path("/attachments/chall/file"));
    assert!(!s.check_path("/etc/passwd"));
    assert_eq!(s.get_attachment_path("/etc/passwd"), Some("/etc/passwd".to_string()));
    assert!(!s.check_path_servable("/etc/passwd-that-does-not-exist"));
}

#[test]
fn relative_base_rejects_absolute_requests() {
    // An absolute request replaces the base on joining, so it can never
    // open with a relative base.
    for base in [".", "files", "./files"] {
        let s = service(Some(base));
        assert!(s.check_path("anything/relative"));
        assert!(!s.check_path("/x"));
        assert!(!s.check_path(&format!("/{}/x", base)));
        assert!(!s.check_path_servable("/x"));
    }
}

#[test]
fn component_normalization_in_the_prefix_check() {
    let s = service(Some("/attachments/./"));
    assert!(s.check_path("/attachments//chall/./file"));
    assert!(!s.check_path("/attachments-other/file"));
}

#[test]
fn join_respects_a_trailing_separator() {
    let s = service(Some("/attachments/"));
    assert_eq!(s.get_attachment_path("x"), Some("/attachments/x".to_string()));
}

#[test]
fn servable_requires_presence_on_disk() {
    let s = service(Some("/attachments-test-dir-that-does-not-exist"));
    assert!(s.check_path("x"));
    assert!(!s.check_path_servable("x"));
}

#[test]
fn challenge_defaults() {
    assert!(matches!(default_strategy(), DeploymentStrategy::Static));
    assert_eq!(default_archive_name(), "chall");
    assert!(is_zero(&0));
    assert!(!is_zero(&5));
    let l = Limits::default();
    assert_eq!(l.cpu, Some(1_000_000_000));
    assert_eq!(l.mem, Some(104_857_600));
}
