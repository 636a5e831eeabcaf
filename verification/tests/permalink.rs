use gitcomet::permalink::{
    build_base, commit_permalink, encode_path, file_permalink, origin_remote, parse_remote_url,
    ForgeKind, Remote,
};

fn remote(name: &str, url: &str) -> Remote {
    Remote {
        name: name.to_string(),
        url: Some(url.to_string()),
    }
}

#[test]
fn origin_is_preferred_over_other_remotes() {
    let remotes = [
        remote("upstream", "https://github.com/other/repo.git"),
        remote("origin", "git@github.com:Auto-Explore/GitComet.git"),
    ];
    assert_eq!(
        origin_remote(&remotes).map(|r| r.name.as_str()),
        Some("origin")
    );
}

#[test]
fn falls_back_to_first_remote_with_url_when_origin_is_missing() {
    let remotes = [
        remote("upstream", "git@github.com:other/repo.git"),
        remote("mirror", "https://example.com/mirror.git"),
    ];
    assert_eq!(
        origin_remote(&remotes).map(|r| r.name.as_str()),
        Some("upstream")
    );
    assert_eq!(origin_remote(&[]), None);
}

#[test]
fn commit_permalink_for_ssh_github_remote() {
    let remotes = [remote("origin", "git@github.com:Auto-Explore/GitComet.git")];
    assert_eq!(
        commit_permalink(&remotes, "abc123").as_deref(),
        Some("https://github.com/Auto-Explore/GitComet/commit/abc123")
    );
}

#[test]
fn commit_permalink_for_https_github_remote_without_git_suffix() {
    let remotes = [remote("origin", "https://github.com/Auto-Explore/GitComet")];
    assert_eq!(
        commit_permalink(&remotes, "abc123").as_deref(),
        Some("https://github.com/Auto-Explore/GitComet/commit/abc123")
    );
}

#[test]
fn commit_permalink_for_gitlab_uses_dash_dash_paths() {
    let remotes = [remote("origin", "git@gitlab.com:group/subgroup/repo.git")];
    assert_eq!(
        commit_permalink(&remotes, "abc123").as_deref(),
        Some("https://gitlab.com/group/subgroup/repo/-/commit/abc123")
    );
}

#[test]
fn commit_permalink_for_bitbucket_uses_commits_path() {
    let remotes = [remote("origin", "https://bitbucket.org/team/repo.git")];
    assert_eq!(
        commit_permalink(&remotes, "abc123").as_deref(),
        Some("https://bitbucket.org/team/repo/commits/abc123")
    );
}

#[test]
fn commit_permalink_for_self_hosted_forge_uses_github_paths() {
    let remotes = [remote("origin", "ssh://git@git.example.com:2222/org/repo.git")];
    assert_eq!(
        commit_permalink(&remotes, "abc123").as_deref(),
        Some("https://git.example.com/org/repo/commit/abc123")
    );
}

#[test]
fn commit_permalink_keeps_http_scheme() {
    let remotes = [remote("origin", "http://github.com/org/repo.git")];
    assert_eq!(
        commit_permalink(&remotes, "abc123").as_deref(),
        Some("http://github.com/org/repo/commit/abc123")
    );
}

#[test]
fn file_permalink_encodes_path_and_uses_blob_path() {
    let remotes = [remote("origin", "git@github.com:Auto-Explore/GitComet.git")];
    assert_eq!(
        file_permalink(&remotes, "main", "src/my file#1.rs").as_deref(),
        Some("https://github.com/Auto-Explore/GitComet/blob/main/src/my%20file%231.rs")
    );
}

#[test]
fn file_permalink_normalizes_backslashes_to_forward_slashes() {
    let remotes = [remote("origin", "git@github.com:org/repo.git")];
    assert_eq!(
        file_permalink(&remotes, "abc123", r"crates\gitcomet\src\lib.rs").as_deref(),
        Some("https://github.com/org/repo/blob/abc123/crates/gitcomet/src/lib.rs")
    );
}

#[test]
fn file_permalink_for_gitlab_and_bitbucket() {
    let gitlab = [remote("origin", "git@gitlab.com:group/repo.git")];
    assert_eq!(
        file_permalink(&gitlab, "main", "a/b.txt").as_deref(),
        Some("https://gitlab.com/group/repo/-/blob/main/a/b.txt")
    );
    let bitbucket = [remote("origin", "git@bitbucket.org:team/repo.git")];
    assert_eq!(
        file_permalink(&bitbucket, "main", "a/b.txt").as_deref(),
        Some("https://bitbucket.org/team/repo/src/main/a/b.txt")
    );
}

#[test]
fn permalinks_reject_local_paths_and_unsupported_remotes() {
    assert_eq!(commit_permalink(&[], "abc123"), None);
    let local = [remote("origin", "/srv/git/repo.git")];
    assert_eq!(commit_permalink(&local, "abc123"), None);
    let windows_drive = [remote("origin", "C:/git/repo.git")];
    assert_eq!(commit_permalink(&windows_drive, "abc123"), None);
    let no_path = [remote("origin", "https://github.com/owner")];
    assert_eq!(commit_permalink(&no_path, "abc123"), None);
    let no_url = [Remote {
        name: "origin".to_string(),
        url: None,
    }];
    assert_eq!(commit_permalink(&no_url, "abc123"), None);
}

#[test]
fn permalinks_reject_empty_arguments() {
    let remotes = [remote("origin", "git@github.com:org/repo.git")];
    assert_eq!(commit_permalink(&remotes, "  "), None);
    assert_eq!(file_permalink(&remotes, "", "a.txt"), None);
    assert_eq!(file_permalink(&remotes, "main", " "), None);
}

#[test]
fn parse_remote_url_recognizes_forges() {
    let base = parse_remote_url("git@gitlab.com:group/repo.git").expect("gitlab");
    assert_eq!(base.kind, ForgeKind::GitLab);
    assert_eq!(base.web_root, "https://gitlab.com/group/repo");
    let base = build_base("codeberg.org", "/org/repo/", "https").expect("generic");
    assert_eq!(base.kind, ForgeKind::Generic);
    assert_eq!(base.web_root, "https://codeberg.org/org/repo");
    assert_eq!(encode_path("a b/c%d"), "a%20b/c%25d");
}

#[test]
fn encoded_paths_decode_back_with_slashes() {
    assert_eq!(encode_path("src/my file#1.rs"), "src/my%20file%231.rs");
    assert_eq!(encode_path(r"a\b.rs"), "a/b.rs");
    assert_eq!(encode_path("é"), "%C3%A9");
    assert_eq!(encode_path("-_.~"), "-_.~");
}
