use std::collections::BTreeMap;
use std::path::PathBuf;

use riven::deps::{already_listed_error, dependency_from_args, describe_dep_source};
use riven::manifest::{
    validate_package_name, BuildConfig, Dependency, DependencyDetail, Manifest, Package,
};
use riven::module_discovery::{
    is_entry_point, is_hidden, package_to_import_name, to_upper_camel_case, ModuleNode, ModuleTree,
};
use riven::resolve_deps::{
    checkout_dir_name, dependency_source, effective_git_ref, topological_sort, DepSource, ResolvedDep,
};
use riven::rlib::{check_compatible, format_digest, hash_bytes, is_hashed_dir};

fn package(name: &str, version: &str) -> Package {
    Package {
        name: name.to_string(),
        version: version.to_string(),
        edition: None,
        riven: None,
        authors: vec![],
        license: None,
        description: None,
        repository: None,
        homepage: None,
        readme: None,
        keywords: vec![],
    }
}

fn manifest(name: &str, version: &str, build: Option<BuildConfig>) -> Manifest {
    Manifest {
        package: package(name, version),
        dependencies: BTreeMap::new(),
        dev_dependencies: BTreeMap::new(),
        build,
        bin: vec![],
        profile: None,
    }
}

fn build(build_type: Option<&str>, entry: Option<&str>) -> BuildConfig {
    BuildConfig {
        build_type: build_type.map(|s| s.to_string()),
        entry: entry.map(|s| s.to_string()),
        link: vec![],
        link_search: vec![],
    }
}

#[test]
fn test_describe_dep_source() {
    assert_eq!(
        describe_dep_source(&Dependency::Version("1.0.0".to_string())),
        "registry: 1.0.0"
    );
    assert_eq!(
        describe_dep_source(&Dependency::Detailed(DependencyDetail {
            path: Some("../lib".to_string()),
            ..Default::default()
        })),
        "path: ../lib"
    );
    assert_eq!(
        describe_dep_source(&Dependency::Detailed(DependencyDetail {
            git: Some("https://github.com/user/repo.git".to_string()),
            tag: Some("v1.0".to_string()),
            ..Default::default()
        })),
        "git: https://github.com/user/repo.git tag=v1.0"
    );
}

#[test]
fn describe_dep_source_other_kinds() {
    assert_eq!(
        describe_dep_source(&Dependency::Detailed(DependencyDetail {
            git: Some("g".to_string()),
            branch: Some("main".to_string()),
            rev: Some("abc".to_string()),
            ..Default::default()
        })),
        "git: g branch=main"
    );
    assert_eq!(
        describe_dep_source(&Dependency::Detailed(DependencyDetail {
            git: Some("g".to_string()),
            rev: Some("abc".to_string()),
            ..Default::default()
        })),
        "git: g rev=abc"
    );
    assert_eq!(
        describe_dep_source(&Dependency::Detailed(DependencyDetail {
            git: Some("g".to_string()),
            ..Default::default()
        })),
        "git: g"
    );
    assert_eq!(
        describe_dep_source(&Dependency::Detailed(DependencyDetail {
            version: Some("2.0".to_string()),
            ..Default::default()
        })),
        "registry: 2.0"
    );
    assert_eq!(describe_dep_source(&Dependency::Detailed(DependencyDetail::default())), "unknown");
}

#[test]
fn test_validate_package_name() {
    assert!(validate_package_name("my-project").is_ok());
    assert!(validate_package_name("http").is_ok());
    assert!(validate_package_name("a").is_ok());
    assert!(validate_package_name("my_lib_2").is_ok());

    assert!(validate_package_name("").is_err());
    assert!(validate_package_name("My-Project").is_err());
    assert!(validate_package_name("1foo").is_err());
    assert!(validate_package_name("foo bar").is_err());
    assert!(validate_package_name("foo.bar").is_err());

    let long_name = "a".repeat(65);
    assert!(validate_package_name(&long_name).is_err());
}

#[test]
fn package_name_error_messages() {
    assert_eq!(validate_package_name("").unwrap_err(), "package name cannot be empty");
    assert_eq!(
        validate_package_name(&"a".repeat(65)).unwrap_err(),
        format!("package name '{}' is too long (max 64 characters)", "a".repeat(65))
    );
    assert!(validate_package_name(&"a".repeat(64)).is_ok());
    assert_eq!(
        validate_package_name("Foo").unwrap_err(),
        "package name 'Foo' must start with a lowercase letter"
    );
    assert_eq!(
        validate_package_name("foo.bar").unwrap_err(),
        "package name 'foo.bar' contains invalid character '.' (allowed: a-z, 0-9, _, -)"
    );
    // Multi-byte characters count by bytes: 33 two-byte characters exceed 64 bytes.
    let wide = format!("a{}", "é".repeat(32));
    assert!(validate_package_name(&wide).unwrap_err().contains("too long"));
}

#[test]
fn manifest_validation_rules() {
    assert!(manifest("ok", "0.1.0", None).validate().is_ok());
    assert_eq!(
        manifest("ok", "one", None).validate().unwrap_err(),
        "invalid package version: 'one'"
    );
    assert_eq!(
        manifest("Bad", "0.1.0", None).validate().unwrap_err(),
        "package name 'Bad' must start with a lowercase letter"
    );
    let mut m = manifest("ok", "0.1.0", None);
    m.package.keywords = (0..6).map(|i| format!("k{}", i)).collect();
    assert_eq!(m.validate().unwrap_err(), "too many keywords (max 5)");
    m.package.keywords.pop();
    assert!(m.validate().is_ok());
}

#[test]
fn build_type_and_entry_point() {
    let m = manifest("bin-project", "0.1.0", None);
    assert_eq!(m.build_type(), "binary");
    assert_eq!(m.entry_point(), "src/main.rvn");

    let m = manifest("lib-project", "0.1.0", Some(build(Some("library"), None)));
    assert_eq!(m.build_type(), "library");
    assert_eq!(m.entry_point(), "src/lib.rvn");

    let m = manifest("x", "0.1.0", Some(build(Some("library"), Some("src/x.rvn"))));
    assert_eq!(m.entry_point(), "src/x.rvn");

    let m = manifest("x", "0.1.0", Some(build(None, None)));
    assert_eq!(m.build_type(), "binary");
    assert_eq!(m.entry_point(), "src/main.rvn");
}

#[test]
fn dependency_accessors() {
    let v = Dependency::Version("1.2.0".to_string());
    assert_eq!(v.version_str(), Some("1.2.0"));
    assert!(!v.is_git());
    assert!(!v.is_path());
    assert_eq!(v.git_url(), None);
    assert_eq!(v.dep_path(), None);

    let g = Dependency::Detailed(DependencyDetail {
        git: Some("https://github.com/user/http.git".to_string()),
        tag: Some("v1.0.0".to_string()),
        ..Default::default()
    });
    assert!(g.is_git());
    assert!(!g.is_path());
    assert_eq!(g.git_url(), Some("https://github.com/user/http.git"));
    assert_eq!(g.version_str(), None);

    let p = Dependency::Detailed(DependencyDetail {
        path: Some("../utils".to_string()),
        version: Some("0.3.0".to_string()),
        ..Default::default()
    });
    assert!(p.is_path());
    assert_eq!(p.dep_path(), Some("../utils"));
    assert_eq!(p.version_str(), Some("0.3.0"));
}

#[test]
fn test_to_upper_camel_case() {
    assert_eq!(to_upper_camel_case("http"), "Http");
    assert_eq!(to_upper_camel_case("http_client"), "HttpClient");
    assert_eq!(to_upper_camel_case("my-utils"), "MyUtils");
    assert_eq!(to_upper_camel_case("main"), "Main");
    assert_eq!(to_upper_camel_case("a"), "A");
    assert_eq!(to_upper_camel_case("HTTP"), "HTTP");
}

#[test]
fn upper_camel_case_edges() {
    assert_eq!(to_upper_camel_case(""), "");
    assert_eq!(to_upper_camel_case("__a__b"), "AB");
    assert_eq!(to_upper_camel_case("straße"), "Straße");
    assert_eq!(to_upper_camel_case("ß"), "SS");
}

#[test]
fn test_package_to_import_name() {
    assert_eq!(package_to_import_name("my-utils"), "my_utils");
    assert_eq!(package_to_import_name("http"), "http");
    assert_eq!(package_to_import_name("a-b-c"), "a_b_c");
}

#[test]
fn test_module_path_for_file() {
    assert_eq!(ModuleTree::module_path_for_file("utils"), "Utils");
    assert_eq!(ModuleTree::module_path_for_file("http/client"), "Http.Client");
    assert_eq!(ModuleTree::module_path_for_file("http/client/pool"), "Http.Client.Pool");
}

#[test]
fn test_module_path_mapping() {
    assert_eq!(ModuleTree::module_path_for_file("utils"), "Utils");
    assert_eq!(ModuleTree::module_path_for_file("http/client"), "Http.Client");
    assert_eq!(ModuleTree::module_path_for_file("http/client/pool"), "Http.Client.Pool");
}

#[test]
fn module_path_strips_the_extension() {
    assert_eq!(ModuleTree::module_path_for_file("http/client.rvn"), "Http.Client");
    assert_eq!(ModuleTree::module_path_for_file("my_lib/tls-config.rvn"), "MyLib.TlsConfig");
    assert_eq!(ModuleTree::module_path_for_file("a//b/./c"), "A.B.C");
    assert_eq!(ModuleTree::module_path_for_file(".hidden"), ".hidden");
    assert_eq!(ModuleTree::module_path_for_file(""), "");
}

fn tree() -> ModuleTree {
    let mut root = ModuleNode::new(String::new());
    root.file = Some(PathBuf::from("src/main.rvn"));
    let k = root.ensure_child("Http");
    root.children[k].file = Some(PathBuf::from("src/http.rvn"));
    let c = root.children[k].ensure_child("Client");
    root.children[k].children[c].file = Some(PathBuf::from("src/http/client.rvn"));
    let u = root.ensure_child("Utils");
    root.children[u].file = Some(PathBuf::from("src/utils.rvn"));
    ModuleTree {
        root,
        files: vec![
            (String::new(), PathBuf::from("src/main.rvn")),
            ("Http".to_string(), PathBuf::from("src/http.rvn")),
            ("Http.Client".to_string(), PathBuf::from("src/http/client.rvn")),
            ("Utils".to_string(), PathBuf::from("src/utils.rvn")),
        ],
    }
}

#[test]
fn find_walks_dotted_paths() {
    let t = tree();
    assert_eq!(t.find("").unwrap().name, "");
    assert_eq!(t.find("Utils").unwrap().name, "Utils");
    assert!(t.find("Http").unwrap().file.is_some());
    assert_eq!(t.find("Http.Client").unwrap().name, "Client");
    assert!(t.find("Http.Server").is_none());
    assert!(t.find("Client").is_none());
    assert!(t.find("Http.").is_none());
}

#[test]
fn ensure_child_reuses_an_existing_child() {
    let mut root = ModuleNode::new(String::new());
    let a = root.ensure_child("A");
    let b = root.ensure_child("B");
    let a2 = root.ensure_child("A");
    assert_eq!(a, a2);
    assert_ne!(a, b);
    assert_eq!(root.children.len(), 2);
}

#[test]
fn module_files_skip_the_entry_point() {
    let t = tree();
    let files = t.module_files();
    let names: Vec<&str> = files.iter().map(|(n, _)| *n).collect();
    assert_eq!(names, vec!["Http", "Http.Client", "Utils"]);
    assert_eq!(files[2].1, &PathBuf::from("src/utils.rvn"));
}

fn dep(name: &str, version: &str, deps: Vec<&str>) -> ResolvedDep {
    ResolvedDep {
        name: name.to_string(),
        version: version.to_string(),
        source_dir: PathBuf::from(format!("/tmp/{}", name)),
        is_path: true,
        checksum: None,
        dependencies: deps.into_iter().map(|s| s.to_string()).collect(),
    }
}

#[test]
fn test_topological_sort() {
    let mut deps = BTreeMap::new();
    deps.insert(
        "app".to_string(),
        ResolvedDep {
            name: "app".to_string(),
            version: "0.1.0".to_string(),
            source_dir: PathBuf::from("/tmp/app"),
            is_path: true,
            checksum: None,
            dependencies: vec!["http".to_string(), "json".to_string()],
        },
    );
    deps.insert(
        "http".to_string(),
        ResolvedDep {
            name: "http".to_string(),
            version: "1.0.0".to_string(),
            source_dir: PathBuf::from("/tmp/http"),
            is_path: true,
            checksum: None,
            dependencies: vec!["tls".to_string()],
        },
    );
    deps.insert(
        "json".to_string(),
        ResolvedDep {
            name: "json".to_string(),
            version: "2.0.0".to_string(),
            source_dir: PathBuf::from("/tmp/json"),
            is_path: true,
            checksum: None,
            dependencies: vec![],
        },
    );
    deps.insert(
        "tls".to_string(),
        ResolvedDep {
            name: "tls".to_string(),
            version: "1.0.0".to_string(),
            source_dir: PathBuf::from("/tmp/tls"),
            is_path: true,
            checksum: None,
            dependencies: vec![],
        },
    );
    let deps: Vec<ResolvedDep> = deps.into_values().collect();

    let sorted = topological_sort(&deps).unwrap();
    let names: Vec<&str> = sorted.iter().map(|d| d.name.as_str()).collect();

    // Leaves (tls, json) must come before their dependents (http, app)
    let tls_idx = names.iter().position(|&n| n == "tls").unwrap();
    let http_idx = names.iter().position(|&n| n == "http").unwrap();
    let json_idx = names.iter().position(|&n| n == "json").unwrap();
    let app_idx = names.iter().position(|&n| n == "app").unwrap();

    assert!(tls_idx < http_idx);
    assert!(http_idx < app_idx);
    assert!(json_idx < app_idx);
}

#[test]
fn test_topological_sort_single() {
    let mut deps = BTreeMap::new();
    deps.insert(
        "only".to_string(),
        ResolvedDep {
            name: "only".to_string(),
            version: "1.0.0".to_string(),
            source_dir: PathBuf::from("/tmp/only"),
            is_path: true,
            checksum: None,
            dependencies: vec![],
        },
    );
    let deps: Vec<ResolvedDep> = deps.into_values().collect();

    let sorted = topological_sort(&deps).unwrap();
    assert_eq!(sorted.len(), 1);
    assert_eq!(sorted[0].name, "only");
}

#[test]
fn topological_sort_visits_depth_first_in_order() {
    let deps = vec![
        dep("app", "0.1.0", vec!["http", "json"]),
        dep("http", "1.0.0", vec!["tls", "missing"]),
        dep("json", "2.0.0", vec![]),
        dep("tls", "1.0.0", vec![]),
    ];
    let sorted = topological_sort(&deps).unwrap();
    let names: Vec<&str> = sorted.iter().map(|d| d.name.as_str()).collect();
    assert_eq!(names, vec!["tls", "http", "json", "app"]);
    assert_eq!(sorted[3].dependencies, vec!["http".to_string(), "json".to_string()]);
    assert_eq!(sorted[1].source_dir, PathBuf::from("/tmp/http"));
}

#[test]
fn topological_sort_keeps_every_dep_once_in_a_cycle() {
    let deps = vec![dep("a", "1.0.0", vec!["b"]), dep("b", "1.0.0", vec!["a"])];
    let sorted = topological_sort(&deps).unwrap();
    let names: Vec<&str> = sorted.iter().map(|d| d.name.as_str()).collect();
    assert_eq!(names, vec!["b", "a"]);
    assert!(topological_sort(&vec![]).unwrap().is_empty());
}

#[test]
fn test_hash_bytes() {
    let h1 = hash_bytes(b"hello");
    let h2 = hash_bytes(b"hello");
    let h3 = hash_bytes(b"world");
    assert_eq!(h1, h2);
    assert_ne!(h1, h3);
    assert!(h1.starts_with("sha256:"));
}

#[test]
fn hash_bytes_known_digest() {
    assert_eq!(
        hash_bytes(b""),
        "sha256:e3b0c44298fc1c149afbf4c8996fb92427ae41e4649b934ca495991b7852b855"
    );
    assert_eq!(
        hash_bytes(b"abc"),
        "sha256:ba7816bf8f01cfea414140de5dae2223b00361a396177a9cb410ff61f20015ad"
    );
}

#[test]
fn format_digest_is_lower_hex() {
    assert_eq!(format_digest(&[0x00, 0x0a, 0xff, 0x10]), "sha256:000aff10");
    assert_eq!(format_digest(&[]), "sha256:");
}

#[test]
fn dependency_sources() {
    let registry = "registry dependencies are not yet supported. Use `--git` or `--path` for piece `http`";
    match dependency_source("http", &Dependency::Version("1.0".to_string())) {
        Err(e) => assert_eq!(e, registry),
        Ok(_) => panic!("expected an error"),
    }
    let path = Dependency::Detailed(DependencyDetail {
        path: Some("../http".to_string()),
        git: Some("g".to_string()),
        ..Default::default()
    });
    assert!(matches!(dependency_source("http", &path), Ok(DepSource::Path(p)) if p == "../http"));
    let git = Dependency::Detailed(DependencyDetail { git: Some("g".to_string()), ..Default::default() });
    assert!(matches!(dependency_source("http", &git), Ok(DepSource::Git(g)) if g == "g"));
    let version = Dependency::Detailed(DependencyDetail { version: Some("1.0".to_string()), ..Default::default() });
    match dependency_source("http", &version) {
        Err(e) => assert_eq!(e, registry),
        Ok(_) => panic!("expected an error"),
    }
    match dependency_source("http", &Dependency::Detailed(DependencyDetail::default())) {
        Err(e) => assert_eq!(e, "dependency `http` has no source (specify `path`, `git`, or `version`)"),
        Ok(_) => panic!("expected an error"),
    }
}

#[test]
fn git_refs_to_check_out() {
    let d = |rev: Option<&str>, tag: Option<&str>, branch: Option<&str>| DependencyDetail {
        git: Some("g".to_string()),
        rev: rev.map(|s| s.to_string()),
        tag: tag.map(|s| s.to_string()),
        branch: branch.map(|s| s.to_string()),
        ..Default::default()
    };
    assert_eq!(effective_git_ref(&d(Some("abc"), Some("v1"), None), Some("locked")), "abc");
    assert_eq!(effective_git_ref(&d(None, Some("v1"), Some("main")), Some("locked")), "v1");
    assert_eq!(effective_git_ref(&d(None, None, Some("main")), Some("locked")), "locked");
    assert_eq!(effective_git_ref(&d(None, None, Some("main")), None), "main");
    assert_eq!(effective_git_ref(&d(None, None, None), None), "HEAD");
}

#[test]
fn git_checkout_directory_names() {
    let hash = hash_bytes(b"https://example.com/http.git:HEAD");
    assert_eq!(
        checkout_dir_name("http", "https://example.com/http.git", "HEAD"),
        format!("http-{}", &hash[7..15])
    );
    assert_ne!(
        checkout_dir_name("http", "https://example.com/http.git", "HEAD"),
        checkout_dir_name("http", "https://example.com/http.git", "v1")
    );
    assert_eq!(checkout_dir_name("x", "u", "r").len(), 10);
}

#[test]
fn directory_and_file_rules() {
    assert!(is_entry_point("main"));
    assert!(is_entry_point("lib"));
    assert!(!is_entry_point("mainly"));
    assert!(is_hidden(".git"));
    assert!(!is_hidden("src"));
    assert!(!is_hidden(""));
    assert!(is_hashed_dir("src"));
    assert!(!is_hashed_dir("target"));
    assert!(!is_hashed_dir(".cache"));
    assert!(is_hashed_dir("targets"));
}

#[test]
fn dependencies_from_add_arguments() {
    match dependency_from_args(Some("1.0"), Some("g"), Some("../p"), Some("main"), None, None).unwrap() {
        Dependency::Detailed(d) => {
            assert_eq!(d.path.as_deref(), Some("../p"));
            assert!(d.git.is_none() && d.branch.is_none() && d.version.is_none());
        }
        _ => panic!("expected a path dependency"),
    }
    match dependency_from_args(Some("1.0"), Some("g"), None, Some("main"), Some("v1"), Some("abc")).unwrap() {
        Dependency::Detailed(d) => {
            assert_eq!(d.git.as_deref(), Some("g"));
            assert_eq!(d.branch.as_deref(), Some("main"));
            assert_eq!(d.tag.as_deref(), Some("v1"));
            assert_eq!(d.rev.as_deref(), Some("abc"));
            assert!(d.version.is_none() && d.path.is_none());
        }
        _ => panic!("expected a git dependency"),
    }
    assert!(matches!(
        dependency_from_args(Some("^2.0"), None, None, Some("main"), None, None),
        Ok(Dependency::Version(v)) if v == "^2.0"
    ));
    assert_eq!(
        dependency_from_args(None, None, None, None, None, None).unwrap_err(),
        "specify --git <url>, --path <path>, or --version <ver> for the dependency"
    );
    assert_eq!(already_listed_error("http", false), "piece `http` is already in [dependencies]");
    assert_eq!(already_listed_error("http", true), "piece `http` is already in [dev-dependencies]");
}

#[test]
fn archive_from_another_compiler_version_is_refused() {
    assert_eq!(check_compatible("0.1.0", "0.1.0"), Ok(()));
    assert_eq!(
        check_compatible("0.0.9", "0.1.0"),
        Err("incompatible .rlib: compiled with rivenc 0.0.9 but current compiler is 0.1.0".to_string())
    );
}

fn plain_dep(name: &str, deps: &[&str]) -> ResolvedDep {
    ResolvedDep {
        name: name.to_string(),
        version: "1.0.0".to_string(),
        source_dir: PathBuf::from(format!("/tmp/{}", name)),
        is_path: true,
        checksum: None,
        dependencies: deps.iter().map(|d| d.to_string()).collect(),
    }
}

#[test]
fn topological_sort_is_depth_first_in_the_given_order() {
    let deps = vec![
        plain_dep("app", &["http", "json"]),
        plain_dep("http", &["tls", "json"]),
        plain_dep("json", &[]),
        plain_dep("tls", &[]),
        plain_dep("zeta", &["missing"]),
    ];
    let sorted = topological_sort(&deps).unwrap();
    let names: Vec<&str> = sorted.iter().map(|d| d.name.as_str()).collect();
    assert_eq!(names, vec!["tls", "json", "http", "app", "zeta"]);
}

#[test]
fn test_entry_point_defaults() {
    let m = manifest("bin-project", "0.1.0", None);
    assert_eq!(m.build_type(), "binary");
    assert_eq!(m.entry_point(), "src/main.rvn");

    let m = manifest("lib-project", "0.1.0", Some(build(Some("library"), None)));
    assert_eq!(m.build_type(), "library");
    assert_eq!(m.entry_point(), "src/lib.rvn");
}

#[test]
fn test_dependency_detail_git() {
    let mut m = manifest("test", "0.1.0", None);
    m.dependencies.insert(
        "http".to_string(),
        Dependency::Detailed(DependencyDetail {
            git: Some("https://github.com/user/http.git".to_string()),
            tag: Some("v1.0.0".to_string()),
            ..Default::default()
        }),
    );
    let dep = m.dependencies.get("http").unwrap();
    assert!(dep.is_git());
    assert_eq!(dep.git_url(), Some("https://github.com/user/http.git"));
    match dep {
        Dependency::Detailed(d) => {
            assert_eq!(d.tag.as_deref(), Some("v1.0.0"));
        },
        _ => panic!("expected detailed dependency"),
    }
}

#[test]
fn test_dependency_detail_path() {
    let mut m = manifest("test", "0.1.0", None);
    m.dependencies.insert(
        "utils".to_string(),
        Dependency::Detailed(DependencyDetail { path: Some("../utils".to_string()), ..Default::default() }),
    );
    let dep = m.dependencies.get("utils").unwrap();
    assert!(dep.is_path());
    assert_eq!(dep.dep_path(), Some("../utils"));
}

#[test]
fn source_hash_covers_paths_and_contents() {
    let a = vec![("main.rvn".to_string(), b"puts 1".to_vec())];
    let b = vec![("lib.rvn".to_string(), b"puts 1".to_vec())];
    let joined = riven::rlib::hash_source_files(&a);
    assert_eq!(joined, hash_bytes(b"main.rvnputs 1"));
    assert_ne!(joined, riven::rlib::hash_source_files(&b));
    assert_eq!(riven::rlib::hash_source_files(&vec![]), hash_bytes(b""));
}

#[test]
fn module_path_keeps_root_component() {
    assert_eq!(ModuleTree::module_path_for_file("/a/b.rvn"), "/.A.B");
    assert_eq!(ModuleTree::module_path_for_file("./a/b"), "..A.B");
}
