use orchestrator::path::{base_name, join, sanitize_filename, strip_root};
use std::path::Path;

const NAMES: [&str; 40] = [
    "",
    "a",
    "a.txt",
    "test01.txt",
    "/",
    "//",
    ".",
    "..",
    "...",
    "./",
    "../",
    "/.",
    "/..",
    "a/",
    "a//",
    "a/.",
    "a/./",
    "a/..",
    "a/../",
    "a/b",
    "a//b",
    "a/./b",
    "a/b/.",
    "a/b/./.",
    "a/b/..",
    "/a",
    "/etc/passwd",
    "../../etc/passwd",
    "..a",
    "a..",
    ".hidden",
    "dir/.hidden",
    "./a",
    "./.",
    "a/.b/",
    "a b/c d",
    "a\\b",
    "\u{e9}t\u{e9}/\u{fc}ber.zip",
    "run.sh",
    "x/./././",
];

#[test]
fn base_name_is_the_last_component() {
    for name in NAMES {
        let expected = Path::new(name).file_name().and_then(|n| n.to_str()).map(|n| n.to_string());
        assert_eq!(base_name(name), expected, "of {:?}", name);
    }
}

#[test]
fn sanitized_names_are_plain() {
    for name in NAMES {
        let expected =
            Path::new(name).file_name().and_then(|n| n.to_str()).unwrap_or("file").to_string();
        let got = sanitize_filename(name);
        assert_eq!(got, expected, "of {:?}", name);
        assert!(!got.contains('/'));
        assert!(!got.is_empty());
        assert_ne!(got, "..");
    }
}

#[test]
fn sanitize_examples() {
    assert_eq!(sanitize_filename("test.txt"), "test.txt");
    assert_eq!(sanitize_filename("../../etc/passwd"), "passwd");
    assert_eq!(sanitize_filename("/abs/olute/run.sh"), "run.sh");
    assert_eq!(sanitize_filename("dir/"), "dir");
    assert_eq!(sanitize_filename(""), "file");
    assert_eq!(sanitize_filename(".."), "file");
    assert_eq!(sanitize_filename("a/.."), "file");
    assert_eq!(sanitize_filename("/"), "file");
    assert_eq!(sanitize_filename("."), "file");
}

#[test]
fn join_is_the_path_below() {
    let bases = ["", "/", "a", "a/", "/data", "/data/", "./data", "a/b/c", "a//"];
    let names = ["", "x", "x/y", "/x", "/", "..", ".", "output.zip", "7"];
    for base in bases {
        for name in names {
            let expected = Path::new(base).join(name).to_str().unwrap().to_string();
            assert_eq!(join(base, name), expected, "of {:?} and {:?}", base, name);
        }
    }
}

#[test]
fn join_examples() {
    assert_eq!(join("/data", "output.zip"), "/data/output.zip");
    assert_eq!(join("/data/", "output.zip"), "/data/output.zip");
    assert_eq!(join("", "output.zip"), "output.zip");
    assert_eq!(join("/data", "/tmp/x"), "/tmp/x");
    assert_eq!(join("/data", ""), "/data/");
}

#[test]
fn strip_root_gives_the_path_below() {
    let cases = [
        ("/data/job/a.txt", "/data/job"),
        ("/data/job/sub/a.txt", "/data/job"),
        ("/data/job/sub/a.txt", "/data/job/"),
        ("/data/job", "/data/job"),
        ("/data/job/", "/data/job"),
        ("/data/jobs/a.txt", "/data/job"),
        ("/other/a.txt", "/data/job"),
        ("a/b", "a"),
        ("a/b", ""),
        ("/a/b", "/"),
        ("a", "a/b"),
        ("", ""),
        ("data/job//a.txt", "data/job"),
    ];
    for (path, root) in cases {
        let expected =
            Path::new(path).strip_prefix(root).ok().map(|p| p.to_str().unwrap().to_string());
        assert_eq!(strip_root(path, root), expected, "of {:?} below {:?}", path, root);
    }
}

#[test]
fn strip_root_examples() {
    assert_eq!(strip_root("/data/job/sub/a.txt", "/data/job"), Some("sub/a.txt".to_string()));
    assert_eq!(strip_root("/data/job", "/data/job"), Some("".to_string()));
    assert_eq!(strip_root("/data/jobs", "/data/job"), None);
    assert_eq!(strip_root("/elsewhere", "/data/job"), None);
}

/// Every text of at most `max` characters over `alphabet`.
fn texts(alphabet: &[char], max: usize) -> Vec<String> {
    let mut all = vec![String::new()];
    let mut last = vec![String::new()];
    for _ in 0..max {
        let mut next = Vec::new();
        for t in &last {
            for c in alphabet {
                let mut longer = t.clone();
                longer.push(*c);
                next.push(longer);
            }
        }
        all.extend(next.iter().cloned());
        last = next;
    }
    all
}

#[test]
fn base_name_of_every_short_path() {
    for path in texts(&['a', '/', '.'], 7) {
        let expected =
            Path::new(&path).file_name().and_then(|n| n.to_str()).map(|n| n.to_string());
        assert_eq!(base_name(&path), expected, "of {:?}", path);
        let name = sanitize_filename(&path);
        assert!(!name.contains('/') && !name.is_empty() && name != ".." && name != ".");
    }
}

#[test]
fn join_of_every_short_pair() {
    let parts = texts(&['a', '/', '.'], 4);
    for base in &parts {
        for name in &parts {
            let expected = Path::new(base).join(name).to_str().unwrap().to_string();
            assert_eq!(join(base, name), expected, "of {:?} and {:?}", base, name);
        }
    }
}

#[test]
fn files_below_a_directory_are_found_below_it() {
    let names = texts(&['a', '/', '.'], 4);
    for root in ["/data/job", "data", "/", "/data/job/"] {
        for name in &names {
            if name.is_empty() || name.starts_with('/') || name.split('/').any(|part| part == ".") {
                continue;
            }
            let path = join(root, name);
            let expected = Path::new(&path)
                .strip_prefix(root)
                .ok()
                .map(|p| p.to_str().unwrap().to_string());
            let got = strip_root(&path, root);
            assert!(got.is_some(), "of {:?} below {:?}", path, root);
            // the same file is named, whatever is made of doubled separators
            let a = Path::new(got.as_ref().unwrap()).components().collect::<Vec<_>>();
            let b = Path::new(expected.as_ref().unwrap()).components().collect::<Vec<_>>();
            assert_eq!(a, b, "of {:?} below {:?}", path, root);
        }
    }
}
