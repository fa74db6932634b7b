use absurd_sdk::migrations::{bundled_migrations, resolve, resolve_with, Migration, TARGET_VERSION};
use absurd_sdk::versions::{compare_versions, parse_semver};
use absurd_sdk::AbsurdError;
use std::cmp::Ordering;

#[test]
fn resolves_from_recent() {
    // The bundled chain has a gap between 0.0.7 and 0.0.8 (that release
    // was skipped), so we start at 0.0.8 which has an unbroken path to
    // `main`.
    let path = resolve("0.0.8", "main").unwrap();
    assert!(path.first().map(|m| m.from) == Some("0.0.8"));
    assert!(path.last().map(|m| m.to) == Some("main"));
}

#[test]
fn no_op_when_at_target() {
    let path = resolve("main", "main").unwrap();
    assert!(path.is_empty());
}

#[test]
fn rejects_downgrade() {
    let err = resolve("0.1.0", "0.0.5").unwrap_err();
    let msg = err.message();
    assert!(msg.contains("refusing to downgrade"), "{msg}");
}

#[test]
fn resolved_path_is_a_chain() {
    let path = resolve("0.0.8", TARGET_VERSION).unwrap();
    let files: Vec<&str> = path.iter().map(|m| m.filename).collect();
    assert_eq!(
        files,
        vec![
            "0.0.8-0.1.0.sql",
            "0.1.0-0.1.1.sql",
            "0.1.1-0.2.0.sql",
            "0.2.0-0.3.0.sql",
            "0.3.0-main.sql"
        ]
    );
    for pair in path.windows(2) {
        assert_eq!(pair[0].to, pair[1].from);
    }
}

#[test]
fn gap_in_chain_is_reported() {
    let err = resolve("0.0.3", "main").unwrap_err();
    match err {
        AbsurdError::Other(m) => assert_eq!(m, "no bundled migration path from 0.0.7 to main"),
        other => panic!("unexpected error {:?}", other),
    }
}

#[test]
fn downgrade_message_is_exact() {
    match resolve("main", "0.3.0").unwrap_err() {
        AbsurdError::Other(m) => assert_eq!(
            m,
            "current schema main is newer than target 0.3.0; refusing to downgrade"
        ),
        other => panic!("unexpected error {:?}", other),
    }
}

#[test]
fn cycle_is_detected() {
    let table = vec![
        Migration { from: "1.0.0", to: "1.1.0", filename: "a.sql" },
        Migration { from: "1.1.0", to: "1.0.0", filename: "b.sql" },
    ];
    match resolve_with(&table, "1.0.0", "2.0.0").unwrap_err() {
        AbsurdError::Other(m) => {
            assert_eq!(m, "cycle detected while resolving migrations from 1.0.0 to 2.0.0")
        }
        other => panic!("unexpected error {:?}", other),
    }
}

#[test]
fn first_matching_step_is_taken() {
    let table = vec![
        Migration { from: "1.0.0", to: "1.2.0", filename: "first.sql" },
        Migration { from: "1.0.0", to: "1.1.0", filename: "second.sql" },
    ];
    let path = resolve_with(&table, "1.0.0", "1.2.0").unwrap();
    assert_eq!(path.len(), 1);
    assert_eq!(path[0].filename, "first.sql");
}

#[test]
fn bundled_table_has_nine_steps() {
    let t = bundled_migrations();
    assert_eq!(t.len(), 9);
    assert_eq!(t[8].to, "main");
}

#[test]
fn semver_parsing() {
    assert_eq!(parse_semver("0.1.2"), Some((0, 1, 2)));
    assert_eq!(parse_semver("1.2.3-rc1"), Some((1, 2, 3)));
    assert_eq!(parse_semver("1.2.3.4"), Some((1, 2, 3)));
    assert_eq!(parse_semver("+1.2.3"), Some((1, 2, 3)));
    assert_eq!(parse_semver("1.2"), None);
    assert_eq!(parse_semver("1..3"), None);
    assert_eq!(parse_semver("a.b.c"), None);
    assert_eq!(parse_semver("1.2.x"), None);
    assert_eq!(parse_semver("4294967296.0.0"), None);
    assert_eq!(parse_semver("4294967295.0.0"), Some((4294967295, 0, 0)));
}

#[test]
fn version_ordering() {
    assert_eq!(compare_versions("main", "main"), Ordering::Equal);
    assert_eq!(compare_versions("main", "9.9.9"), Ordering::Greater);
    assert_eq!(compare_versions("0.3.0", "main"), Ordering::Less);
    assert_eq!(compare_versions("0.10.0", "0.9.0"), Ordering::Greater);
    assert_eq!(compare_versions("0.1.0", "0.1.0"), Ordering::Equal);
    assert_eq!(compare_versions("abc", "abd"), Ordering::Less);
    assert_eq!(compare_versions("ab", "a"), Ordering::Greater);
}

#[test]
fn resolved_path_leaves_each_version_once() {
    let path = resolve("0.0.8", TARGET_VERSION).unwrap();
    let mut froms: Vec<&str> = path.iter().map(|m| m.from).collect();
    let n = froms.len();
    for m in &path[..n - 1] {
        assert_ne!(m.to, TARGET_VERSION);
    }
    assert_eq!(path[n - 1].to, TARGET_VERSION);
    froms.sort();
    froms.dedup();
    assert_eq!(froms.len(), n);
}

#[test]
fn missing_path_is_not_a_downgrade_refusal() {
    let err = resolve("0.0.7", TARGET_VERSION).unwrap_err();
    assert_eq!(err.message(), "no bundled migration path from 0.0.7 to main");
}
