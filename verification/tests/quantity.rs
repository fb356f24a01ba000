use sentinel::policies::resource_limits::{parse_cpu_millicores, parse_memory_bytes};

#[test]
fn test_parse_cpu_millicores() {
    assert_eq!(parse_cpu_millicores("100m"), Some(100));
    assert_eq!(parse_cpu_millicores("1"), Some(1000));
    assert_eq!(parse_cpu_millicores("0.5"), Some(500));
    assert_eq!(parse_cpu_millicores("1.5"), Some(1500));
    assert_eq!(parse_cpu_millicores("250m"), Some(250));
}

#[test]
fn test_parse_memory_bytes() {
    assert_eq!(parse_memory_bytes("128Mi"), Some(128 * 1024 * 1024));
    assert_eq!(parse_memory_bytes("1Gi"), Some(1024 * 1024 * 1024));
    assert_eq!(parse_memory_bytes("512Ki"), Some(512 * 1024));
    assert_eq!(parse_memory_bytes("1000"), Some(1000));
    assert_eq!(parse_memory_bytes("1G"), Some(1_000_000_000));
    assert_eq!(parse_memory_bytes("500M"), Some(500_000_000));
}

#[test]
fn cpu_equivalences() {
    assert_eq!(parse_cpu_millicores("1"), parse_cpu_millicores("1000m"));
    assert_eq!(parse_cpu_millicores("1"), Some(1000));
    assert_eq!(parse_cpu_millicores("0.5"), Some(500));
}

#[test]
fn memory_plain_bytes() {
    assert_eq!(parse_memory_bytes("1024"), Some(1024));
    assert_eq!(parse_memory_bytes("1Gi"), Some(1_073_741_824));
    assert_eq!(parse_memory_bytes("1G"), Some(1_000_000_000));
}

#[test]
fn unparseable_quantities() {
    assert_eq!(parse_cpu_millicores(""), None);
    assert_eq!(parse_cpu_millicores("abc"), None);
    assert_eq!(parse_cpu_millicores("1.2.3"), None);
    assert_eq!(parse_memory_bytes("12x"), None);
    assert_eq!(parse_memory_bytes("Gi"), None);
    assert_eq!(parse_memory_bytes(""), None);
}

#[test]
fn cpu_exponent_and_sign_forms() {
    assert_eq!(parse_cpu_millicores("2e0"), Some(2000));
    assert_eq!(parse_cpu_millicores("1.5e2"), Some(150000));
    assert_eq!(parse_cpu_millicores("5e-1"), Some(500));
    assert_eq!(parse_cpu_millicores("250e-3"), Some(250));
    assert_eq!(parse_cpu_millicores("2E3m"), Some(2000));
    assert_eq!(parse_cpu_millicores("1e+3"), Some(1000000));
    assert_eq!(parse_cpu_millicores("+0.5"), Some(500));
    assert_eq!(parse_cpu_millicores("-1"), Some(0));
    assert_eq!(parse_cpu_millicores("1e400"), Some(u64::MAX));
    assert_eq!(parse_cpu_millicores("1e-400"), Some(0));
    assert_eq!(parse_cpu_millicores("1e"), None);
    assert_eq!(parse_cpu_millicores("e2"), None);
    assert_eq!(parse_cpu_millicores("1e2.5"), None);
}

#[test]
fn cpu_fraction_truncation() {
    assert_eq!(parse_cpu_millicores("100.7m"), Some(100));
    assert_eq!(parse_cpu_millicores("0.0015"), Some(1));
    assert_eq!(parse_cpu_millicores("2.0009"), Some(2000));
    assert_eq!(parse_cpu_millicores(".5"), Some(500));
}
