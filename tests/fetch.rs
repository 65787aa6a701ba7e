use gst::config::{pick_head, Config, From};
use gst::fetcher::{prepare_target, DlAction, FetchError, Fetcher, TargetStep};

fn strs(v: &[&str]) -> Vec<String> {
    v.iter().map(|s| s.to_string()).collect()
}

#[test]
fn identifier_without_subdir() {
    let c = Config::with_site(From::GH);
    let f = Fetcher::new(&c, "org/name").unwrap();
    assert_eq!(f.repo_org, "org");
    assert_eq!(f.repo_name, "name");
    assert_eq!(f.repo, "org/name");
    assert_eq!(f.maybe_subdir, None);
    assert_eq!(f.target_name(None), "name");
}

#[test]
fn identifier_with_subdir() {
    let c = Config::with_site(From::GH);
    let f = Fetcher::new(&c, "org/name/a/b").unwrap();
    assert_eq!(f.maybe_subdir, Some("a/b".to_string()));
    assert_eq!(f.target_name(None), "b");
    assert_eq!(f.target_name(Some("dest".to_string())), "dest");
}

#[test]
fn invalid_identifiers() {
    let c = Config::with_site(From::GH);
    for s in ["", "org", "org/", "/name", "/"] {
        assert!(matches!(Fetcher::new(&c, s), Err(FetchError::InvalidIdentifier)), "{}", s);
    }
}

#[test]
fn site_urls() {
    assert_eq!(
        From::GH.get_archive_url("o/n", "abc"),
        "https://codeload.github.com/o/n/tar.gz/abc"
    );
    assert_eq!(From::GH.get_host_url(), "https://github.com");
    assert_eq!(From::GH.get_dl_dir("o"), "github.com/o");
}

#[test]
fn update_hash_persists_once() {
    let mut c = Config::with_site(From::GH);
    assert_eq!(c.get_hash("o/n"), None);
    assert!(c.needs_update("o/n", false));
    assert!(c.update_hash("o/n", "C"));
    assert_eq!(c.get_hash("o/n"), Some("C".to_string()));
    assert!(!c.needs_update("o/n", false));
    assert!(c.needs_update("o/n", true));
    assert!(!c.update_hash("o/n", "C"));
    assert!(c.update_hash("o/n", "D"));
    assert_eq!(c.get_hash("o/n"), Some("D".to_string()));
    assert_eq!(c.get_hash("o/m"), None);
}

#[test]
fn download_only_on_miss() {
    let mut c = Config::with_site(From::GH);
    {
        let f = Fetcher::new(&c, "o/n").unwrap();
        assert_eq!(f.dl_action(false).err(), Some(FetchError::UnknownCommit));
    }
    c.update_hash("o/n", "abc");
    let f = Fetcher::new(&c, "o/n").unwrap();
    assert_eq!(f.archive_path().unwrap(), "github.com/o/n-abc.tar.gz");
    match f.dl_action(false).unwrap() {
        DlAction::Download { url, path } => {
            assert_eq!(url, "https://codeload.github.com/o/n/tar.gz/abc");
            assert_eq!(path, "github.com/o/n-abc.tar.gz");
        }
        DlAction::UseCache { .. } => panic!("expected a download"),
    }
    for _ in 0..3 {
        match f.dl_action(true).unwrap() {
            DlAction::UseCache { path } => assert_eq!(path, "github.com/o/n-abc.tar.gz"),
            DlAction::Download { .. } => panic!("expected the cached archive"),
        }
    }
}

#[test]
fn extract_paths_without_subdir() {
    let c = Config::with_site(From::GH);
    let f = Fetcher::new(&c, "o/repo").unwrap();
    assert_eq!(f.adopt_path("repo-abcdef/src/a.txt"), Some(strs(&["src", "a.txt"])));
    assert_eq!(f.adopt_path("repo-abcdef/README.md"), Some(strs(&["README.md"])));
    assert_eq!(f.adopt_path("repo-abcdef/"), None);
}

#[test]
fn extract_paths_with_subdir() {
    let c = Config::with_site(From::GH);
    let f = Fetcher::new(&c, "o/repo/src").unwrap();
    assert_eq!(f.adopt_path("repo-abcdef/src/a.txt"), Some(strs(&["a.txt"])));
    assert_eq!(f.adopt_path("repo-abcdef/README.md"), None);
    assert_eq!(f.adopt_path("repo-abcdef/src/"), None);
    assert_eq!(f.adopt_path("repo-abcdef/srcx/a.txt"), None);
}

#[test]
fn traversal_entries_are_skipped() {
    let c = Config::with_site(From::GH);
    let f = Fetcher::new(&c, "o/repo").unwrap();
    assert_eq!(f.adopt_path("repo-abcdef/../evil"), None);
    assert_eq!(f.adopt_path("repo-abcdef/a/../../evil"), None);
    assert_eq!(f.adopt_path("/etc/passwd"), None);
    assert_eq!(f.adopt_path("repo-abcdef/./a//b"), Some(strs(&["a", "b"])));
}

#[test]
fn declined_overwrite_leaves_target() {
    assert_eq!(prepare_target(false, false, None), TargetStep::Extract);
    assert_eq!(prepare_target(true, true, None), TargetStep::Clear);
    assert_eq!(prepare_target(true, false, None), TargetStep::Ask);
    assert_eq!(prepare_target(true, false, Some(true)), TargetStep::Clear);
    assert_eq!(prepare_target(true, false, Some(false)), TargetStep::Abort);
}

#[test]
fn identifier_subdir_keeps_slashes() {
    let c = Config::with_site(From::GH);
    let f = Fetcher::new(&c, "a/b/c/d/e").unwrap();
    assert_eq!(f.repo, "a/b");
    assert_eq!(f.maybe_subdir, Some("c/d/e".to_string()));
    assert_eq!(f.target_name(None), "e");
    let g = Fetcher::new(&c, "a/b/c/").unwrap();
    assert_eq!(g.target_name(None), "");
}

#[test]
fn store_keeps_sites_and_repos_apart() {
    let mut c = Config::with_site(From::GH);
    c.set_hash(From::GH, "x/y", "1");
    c.set_hash(From::GH, "x/z", "2");
    c.set_hash(From::GH, "x/y", "3");
    assert_eq!(c.hash_on(From::GH, "x/y"), Some("3".to_string()));
    assert_eq!(c.hash_on(From::GH, "x/z"), Some("2".to_string()));
    assert_eq!(c.records().len(), 3);
}

#[test]
fn top_directory_and_mixed_entries() {
    let c = Config::with_site(From::GH);
    let f = Fetcher::new(&c, "o/repo").unwrap();
    assert_eq!(f.adopt_path("repo-abcdef"), None);
    assert_eq!(f.adopt_path("repo-abcdef/x/../../../evil"), None);
    assert_eq!(f.adopt_path("repo-abcdef/ok.txt"), Some(strs(&["ok.txt"])));
    let g = Fetcher::new(&c, "o/repo/src").unwrap();
    assert_eq!(g.adopt_path("repo-abcdef/src"), None);
    assert_eq!(g.adopt_path("repo-abcdef/src/b.txt"), Some(strs(&["b.txt"])));
    assert_eq!(g.adopt_path("repo-abcdef/src/../b.txt"), None);
    let h = Fetcher::new(&c, "o/repo/a/b/").unwrap();
    assert_eq!(h.adopt_path("r-1/a/b/c/d"), Some(strs(&["c", "d"])));
    assert_eq!(h.adopt_path("r-1/a/c/d"), None);
}

#[test]
fn head_is_picked_from_reference_list() {
    let names = strs(&["refs/heads/main", "HEAD", "HEAD"]);
    let oids = strs(&["1", "2", "3"]);
    assert_eq!(pick_head(&names, &oids), Some("2".to_string()));
    assert_eq!(pick_head(&strs(&["refs/heads/main"]), &strs(&["1"])), None);
    assert_eq!(pick_head(&Vec::new(), &Vec::new()), None);
}

#[test]
fn resolver_failure_falls_back_to_recorded_commit() {
    let mut c = Config::with_site(From::GH);
    assert_eq!(c.remote_url("o/n"), "https://github.com/o/n");
    assert_eq!(c.apply_head("o/n", None), Err(FetchError::HeadUnresolved));
    assert_eq!(c.apply_head("o/n", Some("C".to_string())), Ok(true));
    assert_eq!(c.apply_head("o/n", Some("C".to_string())), Ok(false));
    assert_eq!(c.apply_head("o/n", None), Ok(false));
    assert_eq!(c.get_hash("o/n"), Some("C".to_string()));
}
