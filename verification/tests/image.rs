use sentinel::policies::image_registry::{parse_image_ref, registry_matches, ImageRef};

#[test]
fn test_parse_image_ref() {
    let ImageRef { registry, tag, has_digest } = parse_image_ref("nginx");
    assert_eq!(registry, "docker.io/library");
    assert_eq!(tag, "");
    assert!(!has_digest);

    let ImageRef { registry, tag, has_digest } = parse_image_ref("nginx:latest");
    assert_eq!(registry, "docker.io/library");
    assert_eq!(tag, "latest");
    assert!(!has_digest);

    let ImageRef { registry, tag, has_digest } = parse_image_ref("nginx:1.25");
    assert_eq!(registry, "docker.io/library");
    assert_eq!(tag, "1.25");
    assert!(!has_digest);

    let ImageRef { registry, tag, has_digest } = parse_image_ref("myuser/myapp:v2");
    assert_eq!(registry, "docker.io/myuser");
    assert_eq!(tag, "v2");
    assert!(!has_digest);

    let ImageRef { registry, tag, has_digest } = parse_image_ref("gcr.io/my-project/my-image:v1.0");
    assert_eq!(registry, "gcr.io/my-project");
    assert_eq!(tag, "v1.0");
    assert!(!has_digest);

    let ImageRef { registry, tag, has_digest } =
        parse_image_ref("gcr.io/my-project/my-image@sha256:abcdef1234567890");
    assert_eq!(registry, "gcr.io/my-project");
    assert_eq!(tag, "");
    assert!(has_digest);

    let ImageRef { registry, tag, has_digest } = parse_image_ref("localhost:5000/myimage:v1");
    assert_eq!(registry, "localhost:5000");
    assert_eq!(tag, "v1");
    assert!(!has_digest);
}

#[test]
fn test_registry_matches() {
    assert!(registry_matches("gcr.io/project", "gcr.io"));
    assert!(registry_matches("gcr.io", "gcr.io"));
    assert!(!registry_matches("gcr.io.evil.com", "gcr.io"));
    assert!(registry_matches("docker.io/library", "docker.io"));
    assert!(!registry_matches("docker.io.fake", "docker.io"));
}
