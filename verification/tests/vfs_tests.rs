use terminal_portfolio::builder::build_default_fs;

#[test]
fn resolve_relative_path() {
    let fs = build_default_fs();
    assert_eq!(fs.resolve_path("~", "skills"), "~/skills");
    assert_eq!(fs.resolve_path("~/skills", "languages.txt"), "~/skills/languages.txt");
}

#[test]
fn resolve_absolute_path() {
    let fs = build_default_fs();
    assert_eq!(fs.resolve_path("~/skills", "~/projects"), "~/projects");
    assert_eq!(fs.resolve_path("~/skills", "~"), "~");
}

#[test]
fn resolve_dot_and_dotdot() {
    let fs = build_default_fs();
    assert_eq!(fs.resolve_path("~/skills", ".."), "~");
    assert_eq!(fs.resolve_path("~", "./skills/../projects"), "~/projects");
    assert_eq!(fs.resolve_path("~", "../.."), "~");
    assert_eq!(fs.resolve_path("~/projects/project1", "../project2"), "~/projects/project2");
}

#[test]
fn resolve_drops_empty_segments() {
    let fs = build_default_fs();
    assert_eq!(fs.resolve_path("~", "skills//."), "~/skills");
}

#[test]
fn resolve_is_idempotent_on_samples() {
    let fs = build_default_fs();
    for cwd in ["~", "~/skills", "~/projects/project1"] {
        for p in ["", ".", "..", "x/y/../z", "~/skills/tools.txt", "projects//project2", "~", "~abc"] {
            let once = fs.resolve_path(cwd, p);
            let twice = fs.resolve_path(cwd, &once);
            assert_eq!(twice, once, "cwd={cwd} p={p}");
        }
    }
}

#[test]
fn is_dir_and_is_file() {
    let fs = build_default_fs();
    assert!(fs.is_dir("~"));
    assert!(fs.is_dir("~/skills"));
    assert!(!fs.is_file("~/skills"));
    assert!(fs.is_file("~/about.txt"));
    assert!(!fs.is_dir("~/about.txt"));
    assert!(!fs.is_dir("~/nope"));
    assert!(!fs.is_file("~/nope"));
}

#[test]
fn cat_returns_file_content() {
    let fs = build_default_fs();
    let text = fs.cat("~/resume.txt").expect("file exists");
    assert_eq!(
        text,
        "[Resume content coming soon]\n\nFor now, check out 'about', 'skills', and 'projects'."
    );
    assert!(fs.cat("~/skills").is_none());
    assert!(fs.cat("~/missing").is_none());
}

#[test]
fn ls_is_sorted_ascending() {
    let fs = build_default_fs();
    let entries = fs.ls("~").expect("root is a directory");
    let expected = vec![
        ("about.txt".to_string(), false),
        ("contact.txt".to_string(), false),
        ("projects".to_string(), true),
        ("resume.txt".to_string(), false),
        ("skills".to_string(), true),
    ];
    assert_eq!(entries, expected);
    for w in entries.windows(2) {
        assert!(w[0].0 < w[1].0, "strictly ascending");
    }
}

#[test]
fn ls_of_file_or_absent_is_none() {
    let fs = build_default_fs();
    assert!(fs.ls("~/about.txt").is_none());
    assert!(fs.ls("~/ghost").is_none());
}

#[test]
fn tree_renders_whole_hierarchy() {
    let fs = build_default_fs();
    let lines = fs.tree("~", "", true).expect("root exists");
    let expected = vec![
        "~",
        "├── about.txt",
        "├── contact.txt",
        "├── resume.txt",
        "├── skills/",
        "│   ├── languages.txt",
        "│   ├── frameworks.txt",
        "│   └── tools.txt",
        "└── projects/",
        "    ├── project1/",
        "    │   └── README.md",
        "    ├── project2/",
        "    │   └── README.md",
        "    └── project3/",
        "        └── README.md",
    ];
    assert_eq!(lines, expected);
}

#[test]
fn tree_root_line_has_no_connector_and_dirs_end_in_slash() {
    let fs = build_default_fs();
    let lines = fs.tree("~", "", true).expect("root exists");
    assert_eq!(lines[0], "~");
    for line in &lines[1..] {
        let name = line.trim_start_matches(|c| "│├└─ ".contains(c));
        let is_dir_entry = ["skills/", "projects/", "project1/", "project2/", "project3/"]
            .contains(&name);
        if name.ends_with('/') {
            assert!(is_dir_entry, "only directories end with a slash: {line}");
        } else {
            assert!(!is_dir_entry);
        }
    }
}

#[test]
fn tree_of_absent_path_is_none() {
    let fs = build_default_fs();
    assert!(fs.tree("~/ghost", "", true).is_none());
}

#[test]
fn tree_of_subdirectory() {
    let fs = build_default_fs();
    let lines = fs.tree("~/skills", "", true).expect("skills exists");
    assert_eq!(
        lines,
        vec![
            "skills",
            "├── languages.txt",
            "├── frameworks.txt",
            "└── tools.txt",
        ]
    );
}

#[test]
fn tree_of_a_file_is_its_bare_name() {
    let fs = build_default_fs();
    assert_eq!(fs.tree("~/about.txt", "", true), Some(vec!["about.txt".to_string()]));
}

#[test]
fn any_tilde_prefixed_input_is_absolute() {
    let fs = build_default_fs();
    assert_eq!(fs.resolve_path("~/skills", "~abc"), "~abc");
    // a leading piece other than the bare root guard is not protected
    assert_eq!(fs.resolve_path("~", "~x/../y"), "y");
}

#[test]
fn normalize_canonicalizes() {
    let fs = build_default_fs();
    assert_eq!(fs.normalize("~//skills/./../projects/"), "~/projects");
    assert_eq!(fs.normalize(""), "~");
    assert_eq!(fs.normalize("~/.."), "~");
}
