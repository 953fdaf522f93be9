use cangjie_zed::config::CheckUpdates;
use cangjie_zed::proxy::{
    asset_name, proxy_exec, DownloadedFileType, ProxyAction, ProxyEvent, ProxyResolver, ProxyStage,
    Release, ReleaseAsset,
};
use cangjie_zed::util::{Architecture, Os};

#[test]
fn asset_names() {
    assert_eq!(
        asset_name(Os::Linux, Architecture::X8664),
        Ok(("cangjie-lsp-proxy-linux-x86_64.tar.gz".to_string(), DownloadedFileType::GzipTar))
    );
    assert_eq!(
        asset_name(Os::Mac, Architecture::Aarch64),
        Ok(("cangjie-lsp-proxy-darwin-aarch64.tar.gz".to_string(), DownloadedFileType::GzipTar))
    );
    assert_eq!(
        asset_name(Os::Windows, Architecture::X8664),
        Ok(("cangjie-lsp-proxy-windows-x86_64.zip".to_string(), DownloadedFileType::Zip))
    );
    assert_eq!(asset_name(Os::Linux, Architecture::X86), Err("Unsupported architecture".to_string()));
    assert_eq!(proxy_exec(Os::Windows), "cangjie-lsp-proxy.exe");
    assert_eq!(proxy_exec(Os::Mac), "cangjie-lsp-proxy");
}

fn finish(a: ProxyAction) -> Result<String, String> {
    match a {
        ProxyAction::Finish(r) => r,
        _ => panic!("expected the end of the resolution"),
    }
}

#[test]
fn found_beside_extension() {
    let (mut r, a) = ProxyResolver::new(Os::Linux, Architecture::X8664, CheckUpdates::Always, None);
    assert!(matches!(a, ProxyAction::FindBeside(ref e) if e == "cangjie-lsp-proxy"));
    let a = r.step(ProxyEvent::Path(Some("/ext/cangjie-lsp-proxy".to_string())));
    assert_eq!(finish(a), Ok("/ext/cangjie-lsp-proxy".to_string()));
    assert_eq!(r.cached, Some("/ext/cangjie-lsp-proxy".to_string()));
    assert_eq!(r.stage, ProxyStage::Done);
}

#[test]
fn downloads_latest_release() {
    let (mut r, _) = ProxyResolver::new(Os::Linux, Architecture::X8664, CheckUpdates::Always, None);
    let a = r.step(ProxyEvent::Path(None));
    assert!(matches!(a, ProxyAction::FetchLatestRelease(ref repo) if repo == "Goway_Hui/CangjieTreeSitter"));
    let rel = Release {
        version: "v1.2".to_string(),
        assets: vec![
            ReleaseAsset { name: "other".to_string(), download_url: "u0".to_string() },
            ReleaseAsset {
                name: "cangjie-lsp-proxy-linux-x86_64.tar.gz".to_string(),
                download_url: "https://dl/x".to_string(),
            },
        ],
    };
    let a = r.step(ProxyEvent::Release(Some(rel)));
    assert!(matches!(a, ProxyAction::CheckExists(ref p) if p == "proxy-bin/v1.2/cangjie-lsp-proxy"));
    let a = r.step(ProxyEvent::Success(false));
    match a {
        ProxyAction::Download { url, dir, file_type } => {
            assert_eq!(url, "https://dl/x");
            assert_eq!(dir, "proxy-bin/v1.2");
            assert_eq!(file_type, DownloadedFileType::GzipTar);
        }
        _ => panic!("expected a download"),
    }
    let a = r.step(ProxyEvent::Success(true));
    match a {
        ProxyAction::Install { bin_path, version } => {
            assert_eq!(bin_path, "proxy-bin/v1.2/cangjie-lsp-proxy");
            assert_eq!(version, "v1.2");
        }
        _ => panic!("expected the install steps"),
    }
    let a = r.step(ProxyEvent::Completed);
    assert_eq!(finish(a), Ok("proxy-bin/v1.2/cangjie-lsp-proxy".to_string()));
    assert_eq!(r.cached, Some("proxy-bin/v1.2/cangjie-lsp-proxy".to_string()));
}

#[test]
fn never_policy_uses_installed_copy() {
    let (mut r, _) = ProxyResolver::new(Os::Windows, Architecture::X8664, CheckUpdates::Never, None);
    let a = r.step(ProxyEvent::Path(None));
    assert!(matches!(a, ProxyAction::FindLocal));
    let a = r.step(ProxyEvent::Path(Some("proxy-bin/v1/cangjie-lsp-proxy.exe".to_string())));
    assert_eq!(finish(a), Ok("proxy-bin/v1/cangjie-lsp-proxy.exe".to_string()));
}

#[test]
fn falls_back_to_path_then_stale_cache() {
    let (mut r, _) = ProxyResolver::new(
        Os::Linux,
        Architecture::X86,
        CheckUpdates::Always,
        Some("/old/proxy".to_string()),
    );
    // No asset for this architecture: straight to the installed copies.
    let a = r.step(ProxyEvent::Path(None));
    assert!(matches!(a, ProxyAction::FindLocal));
    let a = r.step(ProxyEvent::Path(None));
    assert!(matches!(a, ProxyAction::Which(ref e) if e == "cangjie-lsp-proxy"));
    let a = r.step(ProxyEvent::Path(None));
    assert!(matches!(a, ProxyAction::CheckExists(ref p) if p == "/old/proxy"));
    let a = r.step(ProxyEvent::Success(true));
    assert_eq!(finish(a), Ok("/old/proxy".to_string()));
}

#[test]
fn reports_when_nothing_found() {
    let (mut r, _) = ProxyResolver::new(Os::Linux, Architecture::X8664, CheckUpdates::Once, None);
    let _ = r.step(ProxyEvent::Path(None));
    let a = r.step(ProxyEvent::Path(None));
    assert!(matches!(a, ProxyAction::FetchLatestRelease(_)));
    let a = r.step(ProxyEvent::Release(None));
    assert!(matches!(a, ProxyAction::FindLocal));
    let _ = r.step(ProxyEvent::Path(None));
    let a = r.step(ProxyEvent::Path(Some("/usr/bin/cangjie-lsp-proxy".to_string())));
    assert_eq!(finish(a), Ok("/usr/bin/cangjie-lsp-proxy".to_string()));
    assert_eq!(r.cached, None);

    let (mut r, _) = ProxyResolver::new(Os::Linux, Architecture::X86, CheckUpdates::Always, None);
    let _ = r.step(ProxyEvent::Path(None));
    let _ = r.step(ProxyEvent::Path(None));
    let a = r.step(ProxyEvent::Path(None));
    assert_eq!(
        finish(a),
        Err("'cangjie-lsp-proxy' not found in extension directory, proxy-bin, or PATH".to_string())
    );
}

#[test]
fn release_without_matching_asset() {
    let (mut r, _) = ProxyResolver::new(Os::Linux, Architecture::Aarch64, CheckUpdates::Always, None);
    let _ = r.step(ProxyEvent::Path(None));
    let rel = Release { version: "v2".to_string(), assets: Vec::new() };
    let _ = r.step(ProxyEvent::Release(Some(rel)));
    let a = r.step(ProxyEvent::Success(true));
    assert_eq!(finish(a), Ok("proxy-bin/v2/cangjie-lsp-proxy".to_string()));
    let (mut r, _) = ProxyResolver::new(Os::Linux, Architecture::Aarch64, CheckUpdates::Always, None);
    let _ = r.step(ProxyEvent::Path(None));
    let _ = r.step(ProxyEvent::Release(Some(Release { version: "v2".to_string(), assets: Vec::new() })));
    let a = r.step(ProxyEvent::Success(false));
    assert!(matches!(a, ProxyAction::FindLocal));
}
