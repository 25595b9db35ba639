use buildcache::bob::{ElixirBuild, ErlangBuild};
use buildcache::error::Error;
use buildcache::extract::{plan_entry, plan_extraction, ArchiveEntry, EntryKind};
use buildcache::layer::{decide, CacheLayer, LayerDecision, Metadata, PersistedMetadata};
use buildcache::manifest::parse_manifest;
use buildcache::resolve::{resolve_elixir, resolve_erlang};

#[test]
fn bob_elixir_build_url() {
    let build = ElixirBuild {
        version: "v1.16.0-rc.1-otp-26".to_string(),
        reference: "abcdefg".to_string(),
    };

    assert_eq!(
        build.url(),
        "https://builds.hex.pm/builds/elixir/v1.16.0-rc.1-otp-26.zip"
    );
}

#[test]
fn bob_erlang_build_url() {
    let build = ErlangBuild {
        arch: "arm64".to_string(),
        distro: "ubuntu".to_string(),
        distro_version: "22.04".to_string(),
        checksum: "abcdefg".to_string(),
        version: "OTP-26.0".to_string(),
    };

    assert_eq!(
        build.url(),
        "https://builds.hex.pm/builds/otp/arm64/ubuntu-22.04/OTP-26.0.tar.gz"
    );
}

#[test]
fn elixir_manifest_endpoint() {
    assert_eq!(
        ElixirBuild::manifest_url(),
        "https://builds.hex.pm/builds/elixir/builds.txt"
    );
}

#[test]
fn erlang_manifest_endpoint() {
    assert_eq!(
        ErlangBuild::manifest_url("amd64", "ubuntu", "22.04"),
        "https://builds.hex.pm/builds/otp/amd64/ubuntu-22.04/builds.txt"
    );
}

#[test]
fn parse_keeps_order_and_skips_blank_lines() {
    let body = "v1.0.0 aaa extra tokens ignored\n\nv1.1.0 bbb\nv2.0.0\tccc\n";
    let entries = parse_manifest(body).expect("well-formed manifest");
    assert_eq!(entries.len(), 3);
    assert_eq!(entries[0].identifier, "v1.0.0");
    assert_eq!(entries[0].reference, "aaa");
    assert_eq!(entries[1].identifier, "v1.1.0");
    assert_eq!(entries[1].reference, "bbb");
    assert_eq!(entries[2].identifier, "v2.0.0");
    assert_eq!(entries[2].reference, "ccc");
}

#[test]
fn parse_handles_crlf_and_missing_final_newline() {
    let body = "v1 a\r\nv2 b";
    let entries = parse_manifest(body).expect("well-formed manifest");
    assert_eq!(entries.len(), 2);
    assert_eq!(entries[0].identifier, "v1");
    assert_eq!(entries[0].reference, "a");
    assert_eq!(entries[1].identifier, "v2");
    assert_eq!(entries[1].reference, "b");
}

#[test]
fn parse_skips_blank_crlf_lines() {
    let body = "a b\r\n\r\n";
    let entries = parse_manifest(body).expect("a blank CRLF line is skipped");
    assert_eq!(entries.len(), 1);
    assert_eq!(entries[0].identifier, "a");
    assert_eq!(entries[0].reference, "b");
}

#[test]
fn parse_accepts_unicode_field_whitespace() {
    // A form feed is white space, so it separates fields like a space does.
    let body = "v1\u{c}a\n";
    let entries = parse_manifest(body).expect("form feed separates fields");
    assert_eq!(entries.len(), 1);
    assert_eq!(entries[0].identifier, "v1");
    assert_eq!(entries[0].reference, "a");
}

#[test]
fn parse_rejects_one_token_line() {
    let body = "v1.0.0 aaa\nv1.1.0\nv2.0.0 ccc\n";
    assert_eq!(parse_manifest(body).unwrap_err(), Error::ManifestParse);
}

#[test]
fn parse_rejects_whitespace_only_line() {
    let body = "v1.0.0 aaa\n   \n";
    assert_eq!(parse_manifest(body).unwrap_err(), Error::ManifestParse);
}

#[test]
fn parse_of_empty_body_lists_nothing() {
    let entries = parse_manifest("").expect("empty manifest is well formed");
    assert_eq!(entries.len(), 0);
}

#[test]
fn url_is_deterministic() {
    let a = ElixirBuild {
        version: "v1.17.1".to_string(),
        reference: "aaa".to_string(),
    };
    let b = ElixirBuild {
        version: "v1.17.1".to_string(),
        reference: "bbb".to_string(),
    };
    assert_eq!(a.url(), a.url());
    assert_eq!(a.url(), b.url());
}

#[test]
fn resolve_picks_first_substring_match() {
    let body = "v1.17.1 abcdef\nv1.17.0 ghijkl\n";
    let builds = ElixirBuild::list(body).expect("well-formed manifest");
    assert_eq!(builds.len(), 2);
    let i = resolve_elixir(&builds, "v1.17.1").expect("version is listed");
    assert_eq!(builds[i].version, "v1.17.1");
    assert_eq!(builds[i].reference, "abcdef");
    assert_eq!(
        builds[i].url(),
        "https://builds.hex.pm/builds/elixir/v1.17.1.zip"
    );
}

#[test]
fn resolve_substring_policy_matches_longer_labels() {
    let body = "v1.17.10 aaa\nv1.17.1 bbb\n";
    let builds = ElixirBuild::list(body).expect("well-formed manifest");
    // Substring matching on purpose: "v1.17.1" already matches "v1.17.10",
    // and the first match in manifest order wins.
    let i = resolve_elixir(&builds, "v1.17.1").expect("version is listed");
    assert_eq!(builds[i].version, "v1.17.10");
}

#[test]
fn resolve_unlisted_version_fails() {
    let body = "v1.17.1 abcdef\n";
    let builds = ElixirBuild::list(body).expect("well-formed manifest");
    assert_eq!(
        resolve_elixir(&builds, "v9.9.9").unwrap_err(),
        Error::VersionNotFound
    );
}

#[test]
fn erlang_list_stamps_coordinates() {
    let body = "OTP-26.0 aaa\nmaster bbb\n";
    let builds =
        ErlangBuild::list("amd64", "ubuntu", "22.04", body).expect("well-formed manifest");
    assert_eq!(builds.len(), 2);
    assert_eq!(builds[0].version, "OTP-26.0");
    assert_eq!(builds[0].checksum, "aaa");
    assert_eq!(builds[0].arch, "amd64");
    assert_eq!(builds[0].distro, "ubuntu");
    assert_eq!(builds[0].distro_version, "22.04");
    let i = resolve_erlang(&builds, "OTP").expect("version is listed");
    assert_eq!(i, 0);
    assert_eq!(
        builds[i].url(),
        "https://builds.hex.pm/builds/otp/amd64/ubuntu-22.04/OTP-26.0.tar.gz"
    );
}

#[test]
fn extraction_strips_one_leading_component() {
    let entries = vec![
        ArchiveEntry {
            path: "X/".to_string(),
            kind: EntryKind::Directory,
        },
        ArchiveEntry {
            path: "X/README".to_string(),
            kind: EntryKind::File,
        },
    ];
    let writes = plan_extraction(&entries).expect("safe archive");
    assert_eq!(writes, vec!["README".to_string()]);
    assert!(!writes.iter().any(|w| w == "X" || w.starts_with("X/")));
}

#[test]
fn extraction_keeps_nested_structure() {
    let entries = vec![
        ArchiveEntry {
            path: "./pkg-1.0/".to_string(),
            kind: EntryKind::Directory,
        },
        ArchiveEntry {
            path: "./pkg-1.0/bin/run".to_string(),
            kind: EntryKind::File,
        },
        ArchiveEntry {
            path: "pkg-1.0/lib//core.ex".to_string(),
            kind: EntryKind::File,
        },
    ];
    let writes = plan_extraction(&entries).expect("safe archive");
    assert_eq!(writes, vec!["bin/run".to_string(), "lib/core.ex".to_string()]);
}

#[test]
fn extraction_refuses_path_traversal() {
    assert_eq!(
        plan_entry("pkg/../../etc/passwd", EntryKind::File).unwrap_err(),
        Error::UnsafePath
    );
}

#[test]
fn extraction_refuses_links() {
    assert_eq!(
        plan_entry("pkg/bin/erl", EntryKind::Link).unwrap_err(),
        Error::UnsupportedEntry
    );
}

#[test]
fn extraction_skips_the_wrapper_itself() {
    assert_eq!(plan_entry("pkg/", EntryKind::Directory).unwrap(), None);
    assert_eq!(
        plan_entry("pkg/README", EntryKind::File).unwrap(),
        Some("README".to_string())
    );
}

#[test]
fn extraction_treats_absolute_paths_as_relative() {
    // A leading '/' is an empty segment and is discarded, so the wrapper of
    // "/pkg/README" is "pkg" and the write stays under the destination.
    assert_eq!(
        plan_entry("/pkg/README", EntryKind::File).unwrap(),
        Some("README".to_string())
    );
}

#[test]
fn archive_of_only_the_wrapper_writes_nothing() {
    let entries = vec![ArchiveEntry {
        path: "pkg/".to_string(),
        kind: EntryKind::Directory,
    }];
    assert_eq!(plan_extraction(&entries).unwrap(), Vec::<String>::new());
}

#[test]
fn layer_populates_once_then_keeps() {
    let desired = Metadata {
        version: "1.0".to_string(),
    };
    let mut layer = CacheLayer {
        persisted: PersistedMetadata::Absent,
        contents: Vec::new(),
    };

    let first = layer.begin(&desired);
    assert_eq!(first, LayerDecision::Populate);
    layer.add_content("bin/elixir".to_string());
    layer.commit(&desired);

    let second = layer.begin(&desired);
    assert_eq!(second, LayerDecision::Keep);
    assert_eq!(layer.contents, vec!["bin/elixir".to_string()]);
}

#[test]
fn layer_invalidates_on_changed_metadata() {
    let mut layer = CacheLayer {
        persisted: PersistedMetadata::Restored(Metadata {
            version: "1.0".to_string(),
        }),
        contents: vec!["bin/old".to_string()],
    };
    let desired = Metadata {
        version: "1.1".to_string(),
    };

    let d = layer.begin(&desired);
    assert_eq!(d, LayerDecision::Invalidate);
    assert!(layer.contents.is_empty());
    layer.add_content("bin/new".to_string());
    layer.commit(&desired);

    match &layer.persisted {
        PersistedMetadata::Restored(m) => assert_eq!(m.version, "1.1"),
        _ => panic!("metadata was not committed"),
    }
    assert_eq!(layer.contents, vec!["bin/new".to_string()]);
}

#[test]
fn unreadable_metadata_invalidates() {
    let desired = Metadata {
        version: "1.0".to_string(),
    };
    assert_eq!(
        decide(&PersistedMetadata::Invalid, &desired),
        LayerDecision::Invalidate
    );
    assert_eq!(
        decide(&PersistedMetadata::Absent, &desired),
        LayerDecision::Populate
    );
    assert_eq!(
        decide(
            &PersistedMetadata::Restored(Metadata {
                version: "1.0".to_string()
            }),
            &desired
        ),
        LayerDecision::Keep
    );
}
