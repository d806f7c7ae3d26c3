//! Deployment versions, the package manifest, and where deployments are downloaded from.
use vstd::prelude::*;
use crate::text::{
    ascii_lower, concat, contains, contains_spec, eq_ignore_ascii_case, eq_ignore_ascii_case_spec,
    str_eq, views,
};

verus! {

/// The CDN that serves the live deployments.
pub open spec fn live_deployment_cdn() -> Seq<char> {
    "https://setup.rbxcdn.com/"@
}

/// The CDN that serves the deployments of other channels.
pub open spec fn channel_deployment_cdn() -> Seq<char> {
    "https://roblox-setup.cachefly.net/channel/"@
}

/// The channel of the live deployments.
pub open spec fn live_channel() -> Seq<char> {
    "LIVE"@
}

/// A deployment named by its channel and version hash.
pub struct ExactVersion {
    pub channel: String,
    pub hash: String,
}

impl ExactVersion {
    pub fn new(channel: String, hash: String) -> (res: Self)
        ensures
            res.channel == channel,
            res.hash == hash,
    {
        Self { channel, hash }
    }
}

/// The newest deployment of a binary (`Player` or `Studio`) on a channel.
pub struct LatestVersion {
    pub channel: String,
    pub binary: String,
}

impl LatestVersion {
    pub fn new(channel: String, binary: String) -> (res: Self)
        ensures
            res.channel == channel,
            res.binary == binary,
    {
        Self { channel, binary }
    }
}

/// A deployment to install: a given one, or the newest one.
pub enum Version {
    Exact(ExactVersion),
    Latest(LatestVersion),
}

/// The two Roblox binaries.
#[derive(PartialEq, Eq, Structural, Clone, Copy, Debug)]
pub enum Binary {
    Player,
    Studio,
}

/// The binary that a name gives, whatever the case of its letters: `player` or `studio`.
pub open spec fn binary_named(name: Seq<char>) -> Option<Binary> {
    if eq_ignore_ascii_case_spec(name, "player"@) {
        Some(Binary::Player)
    } else if eq_ignore_ascii_case_spec(name, "studio"@) {
        Some(Binary::Studio)
    } else {
        None
    }
}

/// Texts equal up to the case of their ASCII letters to a third are equal so to each other.
proof fn lemma_ignore_case_transitive(a: Seq<char>, b: Seq<char>, c: Seq<char>)
    requires
        eq_ignore_ascii_case_spec(a, b),
        eq_ignore_ascii_case_spec(b, c),
    ensures
        eq_ignore_ascii_case_spec(a, c),
{
    assert forall|i: int| 0 <= i < a.len() implies ascii_lower(#[trigger] a[i]) == ascii_lower(c[i]) by {
        assert(ascii_lower(a[i]) == ascii_lower(b[i]));
        assert(ascii_lower(b[i]) == ascii_lower(c[i]));
    }
}

/// Names that differ only in the case of their letters name the same binary, so two lookups
/// of the newest deployment with such names ask the CDN for the same binary, whatever
/// channels they carry (the channel is not part of what is asked).
pub proof fn binary_lookup_ignores_case(a: Seq<char>, b: Seq<char>)
    requires
        eq_ignore_ascii_case_spec(a, b),
    ensures
        binary_named(a) == binary_named(b),
{
    assert(eq_ignore_ascii_case_spec(b, a)) by {
        assert forall|i: int| 0 <= i < b.len() implies ascii_lower(#[trigger] b[i]) == ascii_lower(a[i]) by {
            assert(ascii_lower(a[i]) == ascii_lower(b[i]));
        }
    }
    let p = "player"@;
    let q = "studio"@;
    if eq_ignore_ascii_case_spec(a, p) {
        lemma_ignore_case_transitive(b, a, p);
    } else if eq_ignore_ascii_case_spec(b, p) {
        lemma_ignore_case_transitive(a, b, p);
    } else if eq_ignore_ascii_case_spec(a, q) {
        lemma_ignore_case_transitive(b, a, q);
    } else if eq_ignore_ascii_case_spec(b, q) {
        lemma_ignore_case_transitive(a, b, q);
    }
}

/// The name of a binary as the configuration and the install paths write it.
pub open spec fn binary_name(b: Binary) -> Seq<char> {
    match b {
        Binary::Player => "Player"@,
        Binary::Studio => "Studio"@,
    }
}

impl Binary {
    /// `Player` or `Studio`.
    pub fn name(&self) -> (res: String)
        ensures
            res@ == binary_name(*self),
    {
        match self {
            Binary::Player => String::from_str("Player"),
            Binary::Studio => String::from_str("Studio"),
        }
    }
}

/// The lookup that resolves the newest deployment of `binary` on `channel`.
pub struct VersionQuery {
    pub channel: String,
    pub binary: Binary,
}

impl VersionQuery {
    /// The deployment found for this lookup: its channel with the version hash `hash`.
    pub fn resolve(self, hash: String) -> (res: ExactVersion)
        ensures
            res.channel == self.channel,
            res.hash == hash,
    {
        ExactVersion { channel: self.channel, hash }
    }
}

/// What remains to be done to know the deployment to install.
pub enum VersionLookup {
    /// The deployment is known.
    Ready(ExactVersion),
    /// The newest deployment must be looked up.
    Query(VersionQuery),
}

/// The lookup for the newest deployment of `version`'s binary on its channel, or the binary's
/// name where it names neither `Player` nor `Studio` (in any case of letters).
pub fn fetch_latest_version(version: LatestVersion) -> (res: Result<VersionQuery, String>)
    ensures
        match res {
            Ok(q) => binary_named(version.binary@) == Some(q.binary) && q.channel == version.channel,
            Err(name) => binary_named(version.binary@) is None && name == version.binary,
        },
{
    let LatestVersion { channel, binary } = version;
    if eq_ignore_ascii_case(binary.as_str(), "player") {
        Ok(VersionQuery { channel, binary: Binary::Player })
    } else if eq_ignore_ascii_case(binary.as_str(), "studio") {
        Ok(VersionQuery { channel, binary: Binary::Studio })
    } else {
        Err(binary)
    }
}

impl Version {
    pub fn exact(channel: String, hash: String) -> (res: Self)
        ensures
            res == Version::Exact(ExactVersion { channel, hash }),
    {
        Version::Exact(ExactVersion::new(channel, hash))
    }

    pub fn latest(channel: String, binary: String) -> (res: Self)
        ensures
            res == Version::Latest(LatestVersion { channel, binary }),
    {
        Version::Latest(LatestVersion::new(channel, binary))
    }

    /// A given deployment is ready as it is; the newest one is to be looked up, unless its
    /// binary is unknown, in which case its name comes back as the error.
    pub fn fetch_latest(self) -> (res: Result<VersionLookup, String>)
        ensures
            match self {
                Version::Exact(e) => res == Ok::<VersionLookup, String>(VersionLookup::Ready(e)),
                Version::Latest(l) => match res {
                    Ok(VersionLookup::Query(q)) => binary_named(l.binary@) == Some(q.binary) && q.channel == l.channel,
                    Ok(VersionLookup::Ready(_)) => false,
                    Err(name) => binary_named(l.binary@) is None && name == l.binary,
                },
            },
    {
        match self {
            Version::Latest(latest) => match fetch_latest_version(latest) {
                Ok(q) => Ok(VersionLookup::Query(q)),
                Err(name) => Err(name),
            },
            Version::Exact(exact) => Ok(VersionLookup::Ready(exact)),
        }
    }
}

/// The binary that a package manifest installs: the first package that is the Player's
/// archive (`RobloxApp.zip`) or Studio's (`RobloxStudio.zip`) decides.
pub open spec fn manifest_binary(packages: Seq<Seq<char>>) -> Option<Binary>
    decreases packages.len(),
{
    if packages.len() == 0 {
        None
    } else if contains_spec(packages[0], "RobloxApp.zip"@) {
        Some(Binary::Player)
    } else if contains_spec(packages[0], "RobloxStudio.zip"@) {
        Some(Binary::Studio)
    } else {
        manifest_binary(packages.drop_first())
    }
}

/// The binary that the lines of a package manifest install, if any line names its archive.
pub fn get_binary_type(package_manifest: &Vec<String>) -> (res: Option<Binary>)
    ensures
        res == manifest_binary(views(package_manifest@)),
{
    let ghost ps = views(package_manifest@);
    assert(ps.skip(0) =~= ps);
    for i in 0..package_manifest.len()
        invariant
            ps == views(package_manifest@),
            manifest_binary(ps) == manifest_binary(ps.skip(i as int)),
    {
        let ghost rest = ps.skip(i as int);
        assert(rest[0] == package_manifest@[i as int]@);
        assert(rest.drop_first() =~= ps.skip(i + 1));
        let package = package_manifest[i].as_str();
        if contains(package, "RobloxApp.zip") {
            return Some(Binary::Player);
        } else if contains(package, "RobloxStudio.zip") {
            return Some(Binary::Studio);
        }
    }
    None
}

/// The lines of a package manifest as served: split at line breaks, without the empty
/// text after the final break.
pub open spec fn manifest_lines(manifest: Seq<char>) -> Seq<Seq<char>> {
    crate::text::split_spec(manifest, '\n').drop_last()
}

/// The lines of the package manifest `manifest` (the text after its last line break is dropped).
pub fn parse_package_manifest(manifest: &str) -> (res: Vec<String>)
    ensures
        views(res@) == manifest_lines(manifest@),
{
    let mut lines = crate::text::split_char(manifest, '\n');
    proof {
        crate::text::lemma_split_nonempty(manifest@, '\n');
    }
    let ghost before = lines@;
    lines.pop();
    assert(views(lines@) =~= views(before).drop_last());
    lines
}

/// The CDN that serves the deployments of `channel`.
pub open spec fn deployment_cdn_spec(channel: Seq<char>) -> Seq<char> {
    if channel == live_channel() {
        live_deployment_cdn()
    } else {
        channel_deployment_cdn() + channel + "/"@
    }
}

/// The address of the CDN that serves the deployments of `channel`.
pub fn deployment_cdn(channel: &str) -> (res: String)
    ensures
        res@ == deployment_cdn_spec(channel@),
{
    if str_eq(channel, "LIVE") {
        String::from_str("https://setup.rbxcdn.com/")
    } else {
        let base = concat("https://roblox-setup.cachefly.net/channel/", channel);
        concat(base.as_str(), "/")
    }
}

/// The address of one package of the deployment `version_hash`: the CDN's address, the
/// hash, a dash and the package's name.
pub fn package_download_url(cdn: &str, version_hash: &str, package: &str) -> (res: String)
    ensures
        res@ == cdn@ + version_hash@ + "-"@ + package@,
{
    let a = concat(cdn, version_hash);
    let b = concat(a.as_str(), "-");
    concat(b.as_str(), package)
}

/// The address of the package manifest of the deployment `version_hash` on `channel`.
pub open spec fn package_manifest_url_spec(version_hash: Seq<char>, channel: Seq<char>) -> Seq<char> {
    let channel_part = if channel == live_channel() {
        Seq::<char>::empty()
    } else {
        "channel/"@ + channel + "/"@
    };
    live_deployment_cdn() + channel_part + version_hash + "-rbxPkgManifest.txt"@
}

/// The address of the package manifest of the deployment `version_hash` on `channel`.
pub fn package_manifest_url(version_hash: &str, channel: &str) -> (res: String)
    ensures
        res@ == package_manifest_url_spec(version_hash@, channel@),
{
    let channel_part = if str_eq(channel, "LIVE") {
        String::new()
    } else {
        let a = concat("channel/", channel);
        concat(a.as_str(), "/")
    };
    let a = concat("https://setup.rbxcdn.com/", channel_part.as_str());
    let b = concat(a.as_str(), version_hash);
    concat(b.as_str(), "-rbxPkgManifest.txt")
}

/// How the server refused a package manifest.
#[derive(PartialEq, Eq, Structural, Clone, Copy, Debug)]
pub enum ManifestError {
    /// The response says `AccessDenied`: the version hash is probably invalid.
    AccessDenied,
    /// The response holds some other `Error`.
    ServerError,
}

/// Whether the server's response to a package manifest request is a manifest.
pub fn check_package_manifest(output: &str) -> (res: Result<(), ManifestError>)
    ensures
        res == if contains_spec(output@, "AccessDenied"@) {
            Err(ManifestError::AccessDenied)
        } else if contains_spec(output@, "Error"@) {
            Err(ManifestError::ServerError)
        } else {
            Ok::<(), ManifestError>(())
        },
{
    if contains(output, "AccessDenied") {
        Err(ManifestError::AccessDenied)
    } else if contains(output, "Error") {
        Err(ManifestError::ServerError)
    } else {
        Ok(())
    }
}

/// The cache folder that the deployment `version_hash` is downloaded to, named relative to
/// the data folder: `cache/<hash>-download`.
pub fn download_cache_folder(version_hash: &str) -> (res: String)
    ensures
        res@ == "cache/"@ + version_hash@ + "-download"@,
{
    let a = concat("cache/", version_hash);
    concat(a.as_str(), "-download")
}

/// The full path of that cache folder inside the data folder `applejuice_dir`.
pub fn download_cache_path(applejuice_dir: &str, version_hash: &str) -> (res: String)
    ensures
        res@ == applejuice_dir@ + "/"@ + ("cache/"@ + version_hash@ + "-download"@),
{
    let folder = download_cache_folder(version_hash);
    let a = concat(applejuice_dir, "/");
    concat(a.as_str(), folder.as_str())
}

/// Where a package whose folder in the installation is `path` is unpacked:
/// `<extraction_path>/<path>`.
pub fn package_target(extraction_path: &str, path: &str) -> (res: String)
    ensures
        res@ == extraction_path@ + "/"@ + path@,
{
    let a = concat(extraction_path, "/");
    concat(a.as_str(), path)
}

/// What is done with one package of a deployment.
pub enum PackageExtraction {
    /// Its folder is already there: it was unpacked before.
    Skip,
    /// It is unpacked, after its folder is made where it has one of its own.
    Extract { create_folder: bool },
}

/// What is done with a package whose folder in the installation is `path` (empty for the
/// installation's root), given whether its target already exists: a package with a folder of
/// its own whose target exists is skipped; the others are unpacked.
pub fn package_extraction(path: &str, target_exists: bool) -> (res: PackageExtraction)
    ensures
        target_exists && path@.len() > 0 ==> res is Skip,
        !(target_exists && path@.len() > 0) ==> res == (PackageExtraction::Extract { create_folder: path@.len() > 0 }),
{
    let has_folder = !path.is_empty();
    if target_exists && has_folder {
        PackageExtraction::Skip
    } else {
        PackageExtraction::Extract { create_folder: has_folder }
    }
}

/// How many packages each extraction thread takes: the packages shared out evenly over
/// the threads, rounded up.
pub fn extraction_chunk_size(packages: usize, threads: usize) -> (res: usize)
    requires
        threads > 0,
    ensures
        res as int == (packages + threads - 1) / (threads as int),
{
    if packages == 0 {
        proof {
            assert((threads - 1) / (threads as int) == 0) by (nonlinear_arith)
                requires
                    threads > 0,
            ;
        }
        return 0;
    }
    let q = packages / threads;
    if packages % threads == 0 {
        proof {
            assert((packages + threads - 1) / (threads as int) == q) by (nonlinear_arith)
                requires
                    packages % threads == 0,
                    q == packages / threads,
                    threads > 0,
            ;
        }
        q
    } else {
        proof {
            assert((packages + threads - 1) / (threads as int) == q + 1) by (nonlinear_arith)
                requires
                    packages % threads != 0,
                    q == packages / threads,
                    threads > 0,
            ;
            assert(q < packages) by (nonlinear_arith)
                requires
                    packages % threads != 0,
                    q == packages / threads,
                    threads > 0,
                    packages > 0,
            ;
        }
        q + 1
    }
}

/// `ranges` hand out the package indices `0..n` in consecutive, non-empty runs, in order:
/// each run `(start, end)` holds the indices from `start` up to, not including, `end`.
pub open spec fn runs_cover(ranges: Seq<(usize, usize)>, n: int) -> bool {
    &&& forall|i: int| 0 <= i < ranges.len() ==> (#[trigger] ranges[i]).0 < ranges[i].1
    &&& forall|i: int, j: int| #![trigger ranges[i], ranges[j]] 0 <= i && j == i + 1 && j < ranges.len() ==> ranges[j].0 == ranges[i].1
    &&& if ranges.len() == 0 {
        n == 0
    } else {
        ranges[0].0 == 0 && ranges.last().1 == n
    }
}

/// The runs of packages that the extraction threads take: runs of
/// `extraction_chunk_size(packages, threads)` packages, in order, the last one shorter where
/// that size does not divide the number of packages.
pub fn extraction_chunks(packages: usize, threads: usize) -> (res: Vec<(usize, usize)>)
    requires
        threads > 0,
    ensures
        runs_cover(res@, packages as int),
        forall|i: int| 0 <= i < res@.len() ==> (#[trigger] res@[i]).1 - res@[i].0 <= (packages + threads - 1) / (threads as int),
        forall|i: int| 0 <= i < res@.len() - 1 ==> (#[trigger] res@[i]).1 - res@[i].0 == (packages + threads - 1) / (threads as int),
{
    let size = extraction_chunk_size(packages, threads);
    if packages > 0 {
        assert((packages + threads - 1) / (threads as int) >= 1) by (nonlinear_arith)
            requires
                packages >= 1,
                threads >= 1,
        ;
    }
    let mut res: Vec<(usize, usize)> = Vec::new();
    let mut start: usize = 0;
    while start < packages
        invariant
            size as int == (packages + threads - 1) / (threads as int),
            packages > 0 ==> size > 0,
            start <= packages,
            runs_cover(res@, start as int),
            forall|i: int| 0 <= i < res@.len() ==> (#[trigger] res@[i]).1 - res@[i].0 == size,
        decreases packages - start,
    {
        let end = if packages - start > size { start + size } else { packages };
        res.push((start, end));
        assert(res@[res@.len() - 1] == (start, end));
        if end < packages {
            assert(end - start == size);
        } else {
            start = end;
            assert(runs_cover(res@, start as int));
            return res;
        }
        start = end;
    }
    res
}

/// Runs that cover the packages are ordered: a run ends no later than any later run starts.
proof fn lemma_runs_ordered(ranges: Seq<(usize, usize)>, n: int, i: int, j: int)
    requires
        runs_cover(ranges, n),
        0 <= i < j < ranges.len(),
    ensures
        ranges[i].1 <= ranges[j].0,
    decreases j - i,
{
    if j > i + 1 {
        lemma_runs_ordered(ranges, n, i, j - 1);
        assert(ranges[j - 1].0 < ranges[j - 1].1);
        assert(ranges[j].0 == ranges[j - 1].1);
    }
}

/// A package below where the first `m` runs end lies in one of them.
proof fn lemma_runs_reach(ranges: Seq<(usize, usize)>, n: int, m: int, p: int)
    requires
        runs_cover(ranges, n),
        0 < m <= ranges.len(),
        0 <= p < ranges[m - 1].1,
    ensures
        exists|i: int| 0 <= i < m && (#[trigger] ranges[i]).0 <= p < ranges[i].1,
    decreases m,
{
    if p >= ranges[m - 1].0 {
        assert(ranges[m - 1].0 <= p < ranges[m - 1].1);
    } else {
        assert(ranges[m - 1].0 == ranges[m - 2].1);
        lemma_runs_reach(ranges, n, m - 1, p);
        let i = choose|i: int| 0 <= i < m - 1 && (#[trigger] ranges[i]).0 <= p < ranges[i].1;
        assert(ranges[i].0 <= p < ranges[i].1);
    }
}

/// Every package lies in exactly one run, so the extraction threads that take the runs of
/// `extraction_chunks` together extract each package once, as the extraction in one thread
/// does: the same work, in another order.
pub proof fn each_package_in_one_run(ranges: Seq<(usize, usize)>, n: int, p: int)
    requires
        runs_cover(ranges, n),
        0 <= p < n,
    ensures
        exists|i: int| 0 <= i < ranges.len() && (#[trigger] ranges[i]).0 <= p < ranges[i].1,
        forall|i: int, j: int|
            #![trigger ranges[i], ranges[j]]
            0 <= i < ranges.len() && 0 <= j < ranges.len() && ranges[i].0 <= p < ranges[i].1
                && ranges[j].0 <= p < ranges[j].1 ==> i == j,
{
    lemma_runs_reach(ranges, n, ranges.len() as int, p);
    assert forall|i: int, j: int|
        #![trigger ranges[i], ranges[j]]
        0 <= i < ranges.len() && 0 <= j < ranges.len() && ranges[i].0 <= p < ranges[i].1
            && ranges[j].0 <= p < ranges[j].1 implies i == j by {
        if i < j {
            lemma_runs_ordered(ranges, n, i, j);
        } else if j < i {
            lemma_runs_ordered(ranges, n, j, i);
        }
    }
}

} // verus!
