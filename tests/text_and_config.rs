use moonstone::cache::repo::RepoCache;
use moonstone::config::file::{command_parts, Config as FileConfig};
use moonstone::config::Config;
use moonstone::dotfiles::config::GlobalConfig;
use moonstone::project::file::Project;
use moonstone::text::{same_text, split_on, to_decimal, trim, trim_start};

#[test]
fn trim_matches_std() {
    for s in ["", "   ", " a ", "\t\nab c\r\n", "\u{3000}x\u{a0}", "abc"] {
        assert_eq!(trim(s), s.trim());
        assert_eq!(trim_start(s), s.trim_start());
    }
}

#[test]
fn split_matches_std() {
    for s in ["", "g++ main.cpp -o main", "a  b", " x "] {
        let want: Vec<String> = s.split(' ').map(|x| x.to_string()).collect();
        assert_eq!(split_on(s, ' '), want);
    }
}

#[test]
fn decimal_digits() {
    assert_eq!(to_decimal(0), "0");
    assert_eq!(to_decimal(9), "9");
    assert_eq!(to_decimal(10), "10");
    assert_eq!(to_decimal(u128::MAX), u128::MAX.to_string());
}

#[test]
fn text_equality() {
    assert!(same_text("abc", "abc"));
    assert!(!same_text("abc", "abd"));
    assert!(!same_text("ab", "abc"));
}

#[test]
fn command_line_parts() {
    assert_eq!(command_parts("g++ gen.cpp -o gen"), vec!["g++", "gen.cpp", "-o", "gen"]);
    assert_eq!(command_parts(""), vec![""]);
}

#[test]
fn file_config_defaults() {
    let c = FileConfig::new();
    assert_eq!(c.repo_link, "https://github.com/peonii/mst-defaults.git");
    assert_eq!(c.repo_branch, "main");
    assert_eq!(c.gen_compile_command, "g++ gen.cpp -o gen");
    assert_eq!(c.brute_compile_command, "g++ brute.cpp -o brute");
    assert_eq!(c.main_compile_command, "g++ main.cpp -o main");
}

#[test]
fn command_config_needs_two_arguments() {
    let args = vec!["mst".to_string()];
    assert_eq!(Config::new(&args).err(), Some("not enough arguments"));
    let args = vec!["mst".to_string(), "test".to_string()];
    assert_eq!(Config::new(&args).ok().map(|c| c.command), Some("test".to_string()));
}

#[test]
fn global_config_defaults() {
    let c = GlobalConfig::new();
    assert_eq!(c.template_repo, "peonii/oisuite-files");
    assert_eq!(c.template_branch, "main");
}

#[test]
fn project_path() {
    assert_eq!(Project::new("/tmp/p").path(), "/tmp/p");
}

#[test]
fn repo_hash_is_sha256_hex() {
    assert_eq!(
        RepoCache::repo_hash("https://github.com/peonii/mst-defaults.git", "main"),
        "b38e5c312cb4680d37310d60c4cb241d20f6d57ed9156e6a5673da15e076a897"
    );
    assert_eq!(
        RepoCache::repo_hash("", ""),
        "e3b0c44298fc1c149afbf4c8996fb92427ae41e4649b934ca495991b7852b855"
    );
}

#[test]
fn repo_cache_lookup() {
    let mut cache = RepoCache::new();
    assert!(!cache.contains("link", &"main".to_string()));
    cache.record_clone("link".to_string(), "main".to_string(), "h".to_string());
    assert!(cache.contains("link", &"main".to_string()));
    assert!(!cache.contains("link", &"dev".to_string()));
    assert_eq!(cache.repos[0].hash, "h");
}
