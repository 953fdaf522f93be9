//! Finding the LSP proxy binary: release asset names and the resolution
//! procedure, written as a state machine whose actions the host performs.

use vstd::prelude::*;
use crate::config::CheckUpdates;
use crate::text::str_is;
use crate::util::{Architecture, Os};

verus! {

/// How a downloaded release asset is packed.
#[derive(Clone, Copy, Debug, PartialEq, Eq, Structural)]
pub enum DownloadedFileType {
    Gzip,
    GzipTar,
    Zip,
    Uncompressed,
}

/// The directory that holds downloaded proxy versions.
pub open spec fn proxy_install_path() -> Seq<char> {
    "proxy-bin"@
}

/// The repository whose releases carry the proxy.
pub open spec fn github_repo() -> Seq<char> {
    "Goway_Hui/CangjieTreeSitter"@
}

/// The name of the release asset for a platform, and how it is packed.
pub open spec fn spec_asset_name(os: Os, arch: Architecture) -> Result<
    (Seq<char>, DownloadedFileType),
    Seq<char>,
> {
    let os_str = match os {
        Os::Mac => "darwin"@,
        Os::Linux => "linux"@,
        Os::Windows => "windows"@,
    };
    let file_type = match os {
        Os::Windows => DownloadedFileType::Zip,
        _ => DownloadedFileType::GzipTar,
    };
    match arch {
        Architecture::X86 => Err("Unsupported architecture"@),
        _ => {
            let arch_str = if arch == Architecture::Aarch64 {
                "aarch64"@
            } else {
                "x86_64"@
            };
            let ext = if file_type == DownloadedFileType::Zip {
                "zip"@
            } else {
                "tar.gz"@
            };
            Ok(
                (
                    "cangjie-lsp-proxy-"@ + os_str + "-"@ + arch_str + "."@ + ext,
                    file_type,
                ),
            )
        },
    }
}

/// The release asset to download on a platform.
pub fn asset_name(os: Os, arch: Architecture) -> (r: Result<(String, DownloadedFileType), String>)
    ensures
        r matches Ok(p) ==> spec_asset_name(os, arch) == Ok::<
            (Seq<char>, DownloadedFileType),
            Seq<char>,
        >((p.0@, p.1)),
        r matches Err(e) ==> spec_asset_name(os, arch) == Err::<
            (Seq<char>, DownloadedFileType),
            Seq<char>,
        >(e@),
{
    let (os_str, file_type) = match os {
        Os::Mac => ("darwin", DownloadedFileType::GzipTar),
        Os::Linux => ("linux", DownloadedFileType::GzipTar),
        Os::Windows => ("windows", DownloadedFileType::Zip),
    };
    let arch_str = match arch {
        Architecture::Aarch64 => "aarch64",
        Architecture::X8664 => "x86_64",
        Architecture::X86 => {
            return Err(String::from_str("Unsupported architecture"));
        },
    };
    let ext = if file_type == DownloadedFileType::Zip {
        "zip"
    } else {
        "tar.gz"
    };
    let name = String::from_str("cangjie-lsp-proxy-").concat(os_str).concat("-").concat(
        arch_str,
    ).concat(".").concat(ext);
    Ok((name, file_type))
}

/// The file name of the proxy binary on a platform.
pub open spec fn spec_proxy_exec(os: Os) -> Seq<char> {
    match os {
        Os::Windows => "cangjie-lsp-proxy.exe"@,
        _ => "cangjie-lsp-proxy"@,
    }
}

/// The file name of the proxy binary on a platform.
pub fn proxy_exec(os: Os) -> (r: String)
    ensures
        r@ == spec_proxy_exec(os),
{
    match os {
        Os::Windows => String::from_str("cangjie-lsp-proxy.exe"),
        _ => String::from_str("cangjie-lsp-proxy"),
    }
}

/// One asset of a release.
pub struct ReleaseAsset {
    pub name: String,
    pub download_url: String,
}

/// The latest release of the proxy.
pub struct Release {
    pub version: String,
    pub assets: Vec<ReleaseAsset>,
}

/// What the host reports back after performing an action.
pub enum ProxyEvent {
    /// The path found, if any (after `FindBeside`, `FindLocal`, `Which`).
    Path(Option<String>),
    /// The latest release, if it could be fetched (after `FetchLatestRelease`).
    Release(Option<Release>),
    /// Whether the check or download succeeded (after `CheckExists`, `Download`).
    Success(bool),
    /// The installation steps are done (after `Install`).
    Completed,
}

/// What the host is asked to do next.
pub enum ProxyAction {
    /// Look for a file with this name in the current directory.
    FindBeside(String),
    /// Look for the newest installed proxy under the install directory.
    FindLocal,
    /// Fetch the latest release of this repository.
    FetchLatestRelease(String),
    /// Check whether this path exists.
    CheckExists(String),
    /// Report downloading, then download `url` into `dir` as `file_type`.
    Download { url: String, dir: String, file_type: DownloadedFileType },
    /// Make `bin_path` executable, report the download finished, remove every
    /// other version under the install directory and mark the check of `version`.
    Install { bin_path: String, version: String },
    /// Look up a binary of this name on `PATH`.
    Which(String),
    /// Resolution is over, with this outcome.
    Finish(Result<String, String>),
}

/// Where the resolution stands.
#[derive(Clone, Copy, Debug, PartialEq, Eq, Structural)]
pub enum ProxyStage {
    CheckCwd,
    LocalByPolicy,
    FetchRelease,
    ReleaseBinary,
    Download,
    Install,
    LocalFallback,
    OnPath,
    StaleCache,
    Done,
}

/// The state of a resolution of the proxy binary.
pub struct ProxyResolver {
    pub exe: String,
    pub policy: CheckUpdates,
    pub asset: Option<(String, DownloadedFileType)>,
    pub cached: Option<String>,
    pub stage: ProxyStage,
    pub version: String,
    pub bin_path: String,
    pub asset_url: Option<String>,
}

/// The mathematical value of an event.
pub enum EventView {
    Path(Option<Seq<char>>),
    Release(Option<(Seq<char>, Seq<(Seq<char>, Seq<char>)>)>),
    Success(bool),
    Completed,
}

/// The mathematical value of an action.
pub enum ActionView {
    FindBeside(Seq<char>),
    FindLocal,
    FetchLatestRelease(Seq<char>),
    CheckExists(Seq<char>),
    Download(Seq<char>, Seq<char>, DownloadedFileType),
    Install(Seq<char>, Seq<char>),
    Which(Seq<char>),
    Finish(Result<Seq<char>, Seq<char>>),
}

/// The mathematical value of a resolver.
pub struct ResolverView {
    pub exe: Seq<char>,
    pub policy: CheckUpdates,
    pub asset: Option<(Seq<char>, DownloadedFileType)>,
    pub cached: Option<Seq<char>>,
    pub stage: ProxyStage,
    pub version: Seq<char>,
    pub bin_path: Seq<char>,
    pub asset_url: Option<Seq<char>>,
}

impl ResolverView {
    /// The release stages have an asset to look for, and the stale-cache
    /// stage has a remembered path to check.
    pub open spec fn wf(self) -> bool {
        &&& (self.stage == ProxyStage::FetchRelease || self.stage == ProxyStage::ReleaseBinary
            || self.stage == ProxyStage::Download || self.stage == ProxyStage::Install)
            ==> self.asset is Some
        &&& self.stage == ProxyStage::StaleCache ==> self.cached is Some
    }
}

/// The views of the assets of a release.
pub open spec fn asset_views(a: Seq<ReleaseAsset>) -> Seq<(Seq<char>, Seq<char>)> {
    a.map_values(|x: ReleaseAsset| (x.name@, x.download_url@))
}

impl View for ProxyEvent {
    type V = EventView;

    open spec fn view(&self) -> EventView {
        match self {
            ProxyEvent::Path(p) => EventView::Path(
                match p {
                    Some(s) => Some(s@),
                    None => None,
                },
            ),
            ProxyEvent::Release(r) => EventView::Release(
                match r {
                    Some(rel) => Some((rel.version@, asset_views(rel.assets@))),
                    None => None,
                },
            ),
            ProxyEvent::Success(b) => EventView::Success(*b),
            ProxyEvent::Completed => EventView::Completed,
        }
    }
}

impl View for ProxyAction {
    type V = ActionView;

    open spec fn view(&self) -> ActionView {
        match self {
            ProxyAction::FindBeside(e) => ActionView::FindBeside(e@),
            ProxyAction::FindLocal => ActionView::FindLocal,
            ProxyAction::FetchLatestRelease(r) => ActionView::FetchLatestRelease(r@),
            ProxyAction::CheckExists(p) => ActionView::CheckExists(p@),
            ProxyAction::Download { url, dir, file_type } => ActionView::Download(
                url@,
                dir@,
                *file_type,
            ),
            ProxyAction::Install { bin_path, version } => ActionView::Install(bin_path@, version@),
            ProxyAction::Which(e) => ActionView::Which(e@),
            ProxyAction::Finish(r) => ActionView::Finish(
                match r {
                    Ok(p) => Ok(p@),
                    Err(e) => Err(e@),
                },
            ),
        }
    }
}

impl View for ProxyResolver {
    type V = ResolverView;

    open spec fn view(&self) -> ResolverView {
        ResolverView {
            exe: self.exe@,
            policy: self.policy,
            asset: match self.asset {
                Some(a) => Some((a.0@, a.1)),
                None => None,
            },
            cached: match self.cached {
                Some(c) => Some(c@),
                None => None,
            },
            stage: self.stage,
            version: self.version@,
            bin_path: self.bin_path@,
            asset_url: match self.asset_url {
                Some(u) => Some(u@),
                None => None,
            },
        }
    }
}

/// The message given when the proxy is found nowhere.
pub open spec fn proxy_not_found(exe: Seq<char>) -> Seq<char> {
    "'"@ + exe + "' not found in extension directory, proxy-bin, or PATH"@
}

/// The URL of the first asset with the given name.
pub open spec fn find_asset_url(assets: Seq<(Seq<char>, Seq<char>)>, name: Seq<char>) -> Option<
    Seq<char>,
>
    decreases assets.len(),
{
    if assets.len() == 0 {
        None
    } else if assets[0].0 == name {
        Some(assets[0].1)
    } else {
        find_asset_url(assets.drop_first(), name)
    }
}

/// Finishing with a found path, which is remembered.
pub open spec fn found(s: ResolverView, p: Seq<char>) -> (ResolverView, ActionView) {
    (
        ResolverView { cached: Some(p), stage: ProxyStage::Done, ..s },
        ActionView::Finish(Ok(p)),
    )
}

/// After the downloads: look in the install directory.
pub open spec fn local_fallback(s: ResolverView) -> (ResolverView, ActionView) {
    (ResolverView { stage: ProxyStage::LocalFallback, ..s }, ActionView::FindLocal)
}

/// Ask for the latest release when an asset exists for this platform.
pub open spec fn start_release(s: ResolverView) -> (ResolverView, ActionView) {
    if s.asset is Some {
        (
            ResolverView { stage: ProxyStage::FetchRelease, ..s },
            ActionView::FetchLatestRelease(github_repo()),
        )
    } else {
        local_fallback(s)
    }
}

/// One step of the resolution: the next state and action after `e`.
///
/// In order: a binary beside the extension; under the `Never` and `Once`
/// policies an installed one; the latest release (already installed, or
/// downloaded and installed); an installed one; one on `PATH`; the
/// remembered path if it still exists; otherwise an error.
pub open spec fn spec_step(s: ResolverView, e: EventView) -> (ResolverView, ActionView) {
    match s.stage {
        ProxyStage::CheckCwd => match e {
            EventView::Path(Some(p)) => found(s, p),
            _ => if s.policy == CheckUpdates::Always {
                start_release(s)
            } else {
                (ResolverView { stage: ProxyStage::LocalByPolicy, ..s }, ActionView::FindLocal)
            },
        },
        ProxyStage::LocalByPolicy => match e {
            EventView::Path(Some(p)) => found(s, p),
            _ => start_release(s),
        },
        ProxyStage::FetchRelease => match e {
            EventView::Release(Some(rel)) => {
                let bin_path = proxy_install_path() + "/"@ + rel.0 + "/"@ + s.exe;
                (
                    ResolverView {
                        stage: ProxyStage::ReleaseBinary,
                        version: rel.0,
                        bin_path: bin_path,
                        asset_url: match s.asset {
                            Some(a) => find_asset_url(rel.1, a.0),
                            None => None,
                        },
                        ..s
                    },
                    ActionView::CheckExists(bin_path),
                )
            },
            _ => local_fallback(s),
        },
        ProxyStage::ReleaseBinary => match e {
            EventView::Success(true) => found(s, s.bin_path),
            _ => match (s.asset_url, s.asset) {
                (Some(url), Some(a)) => (
                    ResolverView { stage: ProxyStage::Download, ..s },
                    ActionView::Download(url, proxy_install_path() + "/"@ + s.version, a.1),
                ),
                _ => local_fallback(s),
            },
        },
        ProxyStage::Download => match e {
            EventView::Success(true) => (
                ResolverView { stage: ProxyStage::Install, ..s },
                ActionView::Install(s.bin_path, s.version),
            ),
            _ => local_fallback(s),
        },
        ProxyStage::Install => found(s, s.bin_path),
        ProxyStage::LocalFallback => match e {
            EventView::Path(Some(p)) => found(s, p),
            _ => (ResolverView { stage: ProxyStage::OnPath, ..s }, ActionView::Which(s.exe)),
        },
        ProxyStage::OnPath => match e {
            EventView::Path(Some(p)) => (
                ResolverView { stage: ProxyStage::Done, ..s },
                ActionView::Finish(Ok(p)),
            ),
            _ => match s.cached {
                Some(c) => (
                    ResolverView { stage: ProxyStage::StaleCache, ..s },
                    ActionView::CheckExists(c),
                ),
                None => (
                    ResolverView { stage: ProxyStage::Done, ..s },
                    ActionView::Finish(Err(proxy_not_found(s.exe))),
                ),
            },
        },
        ProxyStage::StaleCache => match e {
            EventView::Success(true) => (
                ResolverView { stage: ProxyStage::Done, ..s },
                ActionView::Finish(
                    match s.cached {
                        Some(c) => Ok(c),
                        None => Err(proxy_not_found(s.exe)),
                    },
                ),
            ),
            _ => (
                ResolverView { stage: ProxyStage::Done, ..s },
                ActionView::Finish(Err(proxy_not_found(s.exe))),
            ),
        },
        ProxyStage::Done => (s, ActionView::Finish(Err(proxy_not_found(s.exe)))),
    }
}

fn find_asset_url_exec(assets: &Vec<ReleaseAsset>, name: &str) -> (r: Option<String>)
    ensures
        r matches Some(u) ==> find_asset_url(asset_views(assets@), name@) == Some(u@),
        r is None ==> find_asset_url(asset_views(assets@), name@) is None,
{
    let ghost av = asset_views(assets@);
    let mut i: usize = 0;
    assert(av.skip(0) =~= av);
    while i < assets.len()
        invariant
            i <= assets@.len(),
            av == asset_views(assets@),
            find_asset_url(av, name@) == find_asset_url(av.skip(i as int), name@),
        decreases assets.len() - i,
    {
        assert(av.skip(i as int).drop_first() =~= av.skip(i + 1));
        assert(av.skip(i as int)[0] == (assets@[i as int].name@, assets@[i as int].download_url@));
        if str_is(assets[i].name.as_str(), name) {
            return Some(assets[i].download_url.clone());
        }
        i = i + 1;
    }
    None
}

impl ProxyResolver {
    /// The state before any step.
    pub open spec fn initial(
        os: Os,
        arch: Architecture,
        policy: CheckUpdates,
        cached: Option<Seq<char>>,
    ) -> ResolverView {
        ResolverView {
            exe: spec_proxy_exec(os),
            policy: policy,
            asset: match spec_asset_name(os, arch) {
                Ok(a) => Some(a),
                Err(_) => None,
            },
            cached: cached,
            stage: ProxyStage::CheckCwd,
            version: Seq::empty(),
            bin_path: Seq::empty(),
            asset_url: None,
        }
    }

    /// Starts a resolution; the first action looks beside the extension.
    pub fn new(os: Os, arch: Architecture, policy: CheckUpdates, cached: Option<String>) -> (r: (
        ProxyResolver,
        ProxyAction,
    ))
        ensures
            r.0@ == Self::initial(
                os,
                arch,
                policy,
                match cached {
                    Some(c) => Some(c@),
                    None => None,
                },
            ),
            r.1@ == ActionView::FindBeside(spec_proxy_exec(os)),
            r.0@.wf(),
    {
        let exe = proxy_exec(os);
        let asset = match asset_name(os, arch) {
            Ok(a) => Some(a),
            Err(_) => None,
        };
        let action = ProxyAction::FindBeside(exe.clone());
        let res = ProxyResolver {
            exe,
            policy,
            asset,
            cached,
            stage: ProxyStage::CheckCwd,
            version: String::new(),
            bin_path: String::new(),
            asset_url: None,
        };
        (res, action)
    }

    fn found_path(&mut self, p: String) -> (r: ProxyAction)
        ensures
            (final(self)@, r@) == found(old(self)@, p@),
    {
        self.cached = Some(p.clone());
        self.stage = ProxyStage::Done;
        ProxyAction::Finish(Ok(p))
    }

    fn local_fallback(&mut self) -> (r: ProxyAction)
        ensures
            (final(self)@, r@) == local_fallback(old(self)@),
    {
        self.stage = ProxyStage::LocalFallback;
        ProxyAction::FindLocal
    }

    fn start_release(&mut self) -> (r: ProxyAction)
        ensures
            (final(self)@, r@) == start_release(old(self)@),
    {
        if self.asset.is_some() {
            self.stage = ProxyStage::FetchRelease;
            ProxyAction::FetchLatestRelease(String::from_str("Goway_Hui/CangjieTreeSitter"))
        } else {
            self.local_fallback()
        }
    }

    fn not_found(&self) -> (r: String)
        ensures
            r@ == proxy_not_found(self.exe@),
    {
        String::from_str("'").concat(self.exe.as_str()).concat(
            "' not found in extension directory, proxy-bin, or PATH",
        )
    }

    /// Advances the resolution with the outcome of the last action.
    pub fn step(&mut self, event: ProxyEvent) -> (r: ProxyAction)
        ensures
            (final(self)@, r@) == spec_step(old(self)@, event@),
            old(self)@.wf() ==> final(self)@.wf(),
    {
        match self.stage {
            ProxyStage::CheckCwd => match event {
                ProxyEvent::Path(Some(p)) => self.found_path(p),
                _ => if self.policy == CheckUpdates::Always {
                    self.start_release()
                } else {
                    self.stage = ProxyStage::LocalByPolicy;
                    ProxyAction::FindLocal
                },
            },
            ProxyStage::LocalByPolicy => match event {
                ProxyEvent::Path(Some(p)) => self.found_path(p),
                _ => self.start_release(),
            },
            ProxyStage::FetchRelease => match event {
                ProxyEvent::Release(Some(rel)) => {
                    let bin_path = String::from_str("proxy-bin").concat("/").concat(rel.version.as_str()).concat(
                        "/",
                    ).concat(self.exe.as_str());
                    let url = match &self.asset {
                        Some(a) => find_asset_url_exec(&rel.assets, a.0.as_str()),
                        None => None,
                    };
                    self.version = rel.version;
                    self.bin_path = bin_path.clone();
                    self.asset_url = url;
                    self.stage = ProxyStage::ReleaseBinary;
                    ProxyAction::CheckExists(bin_path)
                },
                _ => self.local_fallback(),
            },
            ProxyStage::ReleaseBinary => match event {
                ProxyEvent::Success(true) => {
                    let p = self.bin_path.clone();
                    self.found_path(p)
                },
                _ => match (&self.asset_url, &self.asset) {
                    (Some(url), Some(a)) => {
                        let action = ProxyAction::Download {
                            url: url.clone(),
                            dir: String::from_str("proxy-bin").concat("/").concat(self.version.as_str()),
                            file_type: a.1,
                        };
                        self.stage = ProxyStage::Download;
                        action
                    },
                    _ => self.local_fallback(),
                },
            },
            ProxyStage::Download => match event {
                ProxyEvent::Success(true) => {
                    self.stage = ProxyStage::Install;
                    ProxyAction::Install {
                        bin_path: self.bin_path.clone(),
                        version: self.version.clone(),
                    }
                },
                _ => self.local_fallback(),
            },
            ProxyStage::Install => {
                let p = self.bin_path.clone();
                self.found_path(p)
            },
            ProxyStage::LocalFallback => match event {
                ProxyEvent::Path(Some(p)) => self.found_path(p),
                _ => {
                    self.stage = ProxyStage::OnPath;
                    ProxyAction::Which(self.exe.clone())
                },
            },
            ProxyStage::OnPath => match event {
                ProxyEvent::Path(Some(p)) => {
                    self.stage = ProxyStage::Done;
                    ProxyAction::Finish(Ok(p))
                },
                _ => match &self.cached {
                    Some(c) => {
                        let c = c.clone();
                        self.stage = ProxyStage::StaleCache;
                        ProxyAction::CheckExists(c)
                    },
                    None => {
                        self.stage = ProxyStage::Done;
                        ProxyAction::Finish(Err(self.not_found()))
                    },
                },
            },
            ProxyStage::StaleCache => match event {
                ProxyEvent::Success(true) => {
                    self.stage = ProxyStage::Done;
                    match &self.cached {
                        Some(c) => ProxyAction::Finish(Ok(c.clone())),
                        None => ProxyAction::Finish(Err(self.not_found())),
                    }
                },
                _ => {
                    self.stage = ProxyStage::Done;
                    ProxyAction::Finish(Err(self.not_found()))
                },
            },
            ProxyStage::Done => ProxyAction::Finish(Err(self.not_found())),
        }
    }
}

/// How many steps at most remain from a stage.
pub open spec fn stage_rank(stage: ProxyStage) -> nat {
    match stage {
        ProxyStage::CheckCwd => 9,
        ProxyStage::LocalByPolicy => 8,
        ProxyStage::FetchRelease => 7,
        ProxyStage::ReleaseBinary => 6,
        ProxyStage::Download => 5,
        ProxyStage::Install => 4,
        ProxyStage::LocalFallback => 3,
        ProxyStage::OnPath => 2,
        ProxyStage::StaleCache => 1,
        ProxyStage::Done => 0,
    }
}

/// Every step moves on, whatever the host reports: a resolution finishes
/// after at most nine steps, and it asks to finish exactly when it is done.
pub proof fn law_resolution_terminates(s: ResolverView, e: EventView)
    requires
        s.stage != ProxyStage::Done,
    ensures
        stage_rank(spec_step(s, e).0.stage) < stage_rank(s.stage),
        (spec_step(s, e).1 is Finish) <==> spec_step(s, e).0.stage == ProxyStage::Done,
{
}

/// A path found beside the extension, in the install directory or by a
/// download is remembered for next time; a path found on `PATH` or a
/// remembered one still present is returned without changing the memory.
pub proof fn law_found_path_is_remembered(s: ResolverView, e: EventView)
    requires
        s.wf(),
        s.stage != ProxyStage::Done,
    ensures
        spec_step(s, e).1 matches ActionView::Finish(Ok(p)) ==> if s.stage == ProxyStage::OnPath
            || s.stage == ProxyStage::StaleCache {
            spec_step(s, e).0.cached == s.cached && (s.stage == ProxyStage::StaleCache ==> s.cached
                == Some(p))
        } else {
            spec_step(s, e).0.cached == Some(p)
        },
{
}

/// A resolution fails only after the proxy was looked for on `PATH` and any
/// remembered path was found missing.
pub proof fn law_failure_only_after_all_lookups(s: ResolverView, e: EventView)
    requires
        s.wf(),
        s.stage != ProxyStage::Done,
        spec_step(s, e).1 is Finish,
        spec_step(s, e).1->Finish_0 is Err,
    ensures
        (s.stage == ProxyStage::OnPath && s.cached is None) || s.stage == ProxyStage::StaleCache,
{
}

/// A path found by a lookup ends the resolution with that path: whenever the
/// resolver asks the host to look beside the extension, in the install
/// directory or on `PATH`, and the host reports a path, the next action
/// finishes with it; a path found beside the extension or in the install
/// directory is remembered.
pub proof fn law_found_lookup_finishes(s: ResolverView, e: EventView, p: Seq<char>)
    ensures
        ({
            let (s1, a) = spec_step(s, e);
            (a is FindBeside || a is FindLocal || a is Which) ==> {
                let (s2, b) = spec_step(s1, EventView::Path(Some(p)));
                &&& b == ActionView::Finish(Ok::<Seq<char>, Seq<char>>(p))
                &&& !(a is Which) ==> s2.cached == Some(p)
            }
        }),
{
}

/// The first action of a resolution looks beside the extension, and a path
/// found there is returned and remembered.
pub proof fn law_found_beside_extension(
    os: Os,
    arch: Architecture,
    policy: CheckUpdates,
    cached: Option<Seq<char>>,
    p: Seq<char>,
)
    ensures
        ({
            let (s1, b) = spec_step(ProxyResolver::initial(os, arch, policy, cached), EventView::Path(Some(p)));
            b == ActionView::Finish(Ok::<Seq<char>, Seq<char>>(p)) && s1.cached == Some(p)
        }),
{
}

/// `PATH` is searched only after the install directory was searched and
/// nothing was found there.
pub proof fn law_path_searched_after_local_miss(s: ResolverView, e: EventView)
    ensures
        spec_step(s, e).1 is Which ==> s.stage == ProxyStage::LocalFallback && !(e matches EventView::Path(Some(_))),
{
}

/// Under the `Always` policy a platform with a release asset asks for the
/// latest release as soon as nothing was found beside the extension; under
/// `Once` and `Never` the install directory is searched first.
pub proof fn law_policy_orders_lookups(
    os: Os,
    arch: Architecture,
    policy: CheckUpdates,
    cached: Option<Seq<char>>,
)
    ensures
        ({
            let s0 = ProxyResolver::initial(os, arch, policy, cached);
            let a = spec_step(s0, EventView::Path(None)).1;
            if policy == CheckUpdates::Always && spec_asset_name(os, arch) is Ok {
                a == ActionView::FetchLatestRelease(github_repo())
            } else {
                a == ActionView::FindLocal
            }
        }),
{
}

/// A fetched release is looked for at `proxy-bin/<version>/<exe>`; when it is
/// there it is the result; when it is not and the release has the
/// platform's asset, that asset is downloaded into `proxy-bin/<version>`,
/// installed, and then the result; the result is remembered either way.
pub proof fn law_release_is_installed_and_used(
    s: ResolverView,
    e: EventView,
    version: Seq<char>,
    assets: Seq<(Seq<char>, Seq<char>)>,
    done: EventView,
)
    requires
        spec_step(s, e).1 is FetchLatestRelease,
    ensures
        ({
            let s1 = spec_step(s, e).0;
            let bin = proxy_install_path() + "/"@ + version + "/"@ + s.exe;
            let (s2, a2) = spec_step(s1, EventView::Release(Some((version, assets))));
            let asset = s1.asset->Some_0;
            &&& a2 == ActionView::CheckExists(bin)
            &&& spec_step(s2, EventView::Success(true)).1 == ActionView::Finish(
                Ok::<Seq<char>, Seq<char>>(bin),
            )
            &&& spec_step(s2, EventView::Success(true)).0.cached == Some(bin)
            &&& find_asset_url(assets, asset.0) matches Some(url) ==> {
                let (s3, a3) = spec_step(s2, EventView::Success(false));
                let (s4, a4) = spec_step(s3, EventView::Success(true));
                let (s5, a5) = spec_step(s4, done);
                &&& a3 == ActionView::Download(url, proxy_install_path() + "/"@ + version, asset.1)
                &&& a4 == ActionView::Install(bin, version)
                &&& a5 == ActionView::Finish(Ok::<Seq<char>, Seq<char>>(bin))
                &&& s5.cached == Some(bin)
            }
        }),
{
}

/// When nothing is found on `PATH`, a remembered path is checked, and used
/// when it still exists.
pub proof fn law_remembered_path_is_last_resort(s: ResolverView, c: Seq<char>)
    requires
        s.stage == ProxyStage::OnPath,
        s.cached == Some(c),
    ensures
        ({
            let (s1, a1) = spec_step(s, EventView::Path(None));
            &&& a1 == ActionView::CheckExists(c)
            &&& spec_step(s1, EventView::Success(true)).1 == ActionView::Finish(
                Ok::<Seq<char>, Seq<char>>(c),
            )
            &&& spec_step(s1, EventView::Success(false)).1 == ActionView::Finish(
                Err::<Seq<char>, Seq<char>>(proxy_not_found(s.exe)),
            )
        }),
{
}

} // verus!
