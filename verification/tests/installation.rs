use applejuicecli::installation::{
    check_package_manifest, deployment_cdn, download_cache_folder, download_cache_path, extraction_chunk_size, extraction_chunks,
    fetch_latest_version, get_binary_type, package_download_url, package_extraction, package_manifest_url,
    package_target, parse_package_manifest, Binary, ExactVersion, LatestVersion, ManifestError, PackageExtraction,
    Version, VersionLookup,
};

#[test]
fn exact_version_is_ready() {
    match Version::exact("LIVE".to_string(), "version-abc".to_string()).fetch_latest() {
        Ok(VersionLookup::Ready(e)) => {
            assert_eq!(e.channel, "LIVE");
            assert_eq!(e.hash, "version-abc");
        }
        _ => panic!("expected a ready version"),
    }
}

#[test]
fn latest_version_needs_lookup() {
    match Version::latest("LIVE".to_string(), "PLAYER".to_string()).fetch_latest() {
        Ok(VersionLookup::Query(q)) => {
            assert_eq!(q.binary, Binary::Player);
            assert_eq!(q.channel, "LIVE");
            let e = q.resolve("version-1".to_string());
            assert_eq!(e.hash, "version-1");
            assert_eq!(e.channel, "LIVE");
        }
        _ => panic!("expected a lookup"),
    }
    match fetch_latest_version(LatestVersion::new("zflag".to_string(), "Studio".to_string())) {
        Ok(q) => assert_eq!(q.binary, Binary::Studio),
        Err(_) => panic!("expected Studio"),
    }
}

#[test]
fn unknown_binary_is_refused() {
    match Version::latest("LIVE".to_string(), "client".to_string()).fetch_latest() {
        Err(name) => assert_eq!(name, "client"),
        _ => panic!("expected an error"),
    }
}

#[test]
fn exact_version_new() {
    let e = ExactVersion::new("c".to_string(), "h".to_string());
    assert_eq!((e.channel.as_str(), e.hash.as_str()), ("c", "h"));
}

#[test]
fn binary_type_from_manifest() {
    let lines = parse_package_manifest("v0\nRobloxApp.zip\nabc\n123\n");
    assert_eq!(lines, vec!["v0", "RobloxApp.zip", "abc", "123"]);
    assert_eq!(get_binary_type(&lines), Some(Binary::Player));
    let lines = parse_package_manifest("v0\nRobloxStudio.zip\nRobloxApp.zip\n");
    assert_eq!(get_binary_type(&lines), Some(Binary::Studio));
    let lines = parse_package_manifest("v0\ncontent-fonts.zip\n");
    assert_eq!(get_binary_type(&lines), None);
    assert_eq!(Binary::Studio.name(), "Studio");
}

#[test]
fn manifest_and_download_addresses() {
    assert_eq!(package_manifest_url("version-1", "LIVE"), "https://setup.rbxcdn.com/version-1-rbxPkgManifest.txt");
    assert_eq!(
        package_manifest_url("version-1", "zbeta"),
        "https://setup.rbxcdn.com/channel/zbeta/version-1-rbxPkgManifest.txt"
    );
    assert_eq!(deployment_cdn("LIVE"), "https://setup.rbxcdn.com/");
    assert_eq!(deployment_cdn("zbeta"), "https://roblox-setup.cachefly.net/channel/zbeta/");
    assert_eq!(
        package_download_url("https://setup.rbxcdn.com/", "version-1", "RobloxApp.zip"),
        "https://setup.rbxcdn.com/version-1-RobloxApp.zip"
    );
}

#[test]
fn manifest_responses_are_checked() {
    assert_eq!(check_package_manifest("<Error><Code>AccessDenied</Code></Error>"), Err(ManifestError::AccessDenied));
    assert_eq!(check_package_manifest("<Error>NoSuchKey</Error>"), Err(ManifestError::ServerError));
    assert_eq!(check_package_manifest("v0\nRobloxApp.zip\n"), Ok(()));
}

#[test]
fn chunk_sizes_round_up() {
    assert_eq!(extraction_chunk_size(10, 4), 3);
    assert_eq!(extraction_chunk_size(8, 4), 2);
    assert_eq!(extraction_chunk_size(0, 4), 0);
    assert_eq!(extraction_chunk_size(3, 8), 1);
}

#[test]
fn binary_lookup_ignores_case_and_channel() {
    let a = fetch_latest_version(LatestVersion::new("LIVE".to_string(), "PLAYER".to_string())).ok().unwrap();
    let b = fetch_latest_version(LatestVersion::new("zbeta".to_string(), "pLaYeR".to_string())).ok().unwrap();
    assert_eq!(a.binary, b.binary);
    assert_eq!(a.binary, Binary::Player);
    assert_eq!(b.channel, "zbeta");
    let c = fetch_latest_version(LatestVersion::new("LIVE".to_string(), "Studio".to_string())).ok().unwrap();
    assert_eq!(c.binary, Binary::Studio);
}

#[test]
fn download_cache_paths() {
    assert_eq!(download_cache_folder("version-1"), "cache/version-1-download");
    assert_eq!(download_cache_path("/d", "version-1"), "/d/cache/version-1-download");
    assert_eq!(package_target("/x/y", "content/sky"), "/x/y/content/sky");
    assert_eq!(package_target("/x/y", ""), "/x/y/");
}

#[test]
fn packages_already_unpacked_are_skipped() {
    assert!(matches!(package_extraction("content/sky", true), PackageExtraction::Skip));
    assert!(matches!(package_extraction("content/sky", false), PackageExtraction::Extract { create_folder: true }));
    assert!(matches!(package_extraction("", true), PackageExtraction::Extract { create_folder: false }));
    assert!(matches!(package_extraction("", false), PackageExtraction::Extract { create_folder: false }));
}

#[test]
fn extraction_chunks_cover_each_package_once() {
    assert_eq!(extraction_chunks(10, 3), vec![(0, 4), (4, 8), (8, 10)]);
    assert_eq!(extraction_chunks(12, 4), vec![(0, 3), (3, 6), (6, 9), (9, 12)]);
    assert_eq!(extraction_chunks(3, 8), vec![(0, 1), (1, 2), (2, 3)]);
    assert_eq!(extraction_chunks(0, 4), vec![]);
    for (n, t) in [(29usize, 6usize), (7, 7), (1, 16), (100, 9)] {
        let indices: Vec<usize> = extraction_chunks(n, t).into_iter().flat_map(|(a, b)| a..b).collect();
        assert_eq!(indices, (0..n).collect::<Vec<usize>>());
    }
}
