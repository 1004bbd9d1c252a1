use cli_agent::path_validate::{
    validate_workspace_path, Inspection, PathStep, PathValidationError, ValidatedPath,
};
use cli_agent::paths::{components_of, join_path, parent_of, AbsolutePath, PathComponent};

/// A file system of directories, files and links that a validation can be run against.
struct Files {
    present: Vec<&'static str>,
    links: Vec<(&'static str, &'static str)>,
}

impl Files {
    fn canonical(&self, path: &str) -> Result<AbsolutePath, String> {
        let mut text = path.to_owned();
        for (from, to) in &self.links {
            if text == *from || text.starts_with(&format!("{}/", from)) {
                text = format!("{}{}", to, &text[from.len()..]);
            }
        }
        if text == "/" || self.present.contains(&text.as_str()) {
            Ok(AbsolutePath::parse(&text).expect("an absolute path"))
        } else {
            Err("No such file or directory".to_owned())
        }
    }

    fn inspect(&self, path: &str) -> Inspection {
        if self.links.iter().any(|(from, _)| *from == path) {
            Inspection::Link
        } else if self.present.contains(&path) {
            Inspection::Present
        } else if path.ends_with("forbidden") {
            Inspection::Failed("Permission denied".to_owned())
        } else {
            Inspection::Missing
        }
    }

    fn validate(&self, root: &str, raw: &str) -> Result<ValidatedPath, PathValidationError> {
        let mut step = validate_workspace_path(root, self.canonical(root), raw);
        loop {
            step = match step {
                PathStep::Inspect(walk) => {
                    let found = self.inspect(&walk.next_path().to_text());
                    walk.inspected(found)
                }
                PathStep::Canonicalize(walk) => {
                    let canonical = self.canonical(&walk.next_path().to_text());
                    walk.canonicalized(canonical)
                }
                PathStep::Exists(search) => {
                    let exists = self.canonical(&search.candidate_path().to_text()).is_ok();
                    search.searched(exists)
                }
                PathStep::CanonicalizeParent(search) => {
                    let canonical = self.canonical(&search.candidate_path().to_text());
                    search.canonicalized(canonical)
                }
                PathStep::Done(result) => return result,
            };
        }
    }
}

fn workspace() -> Files {
    Files {
        present: vec!["/tmp", "/tmp/work", "/tmp/work/src", "/tmp/work/src/main.rs", "/tmp/other"],
        links: vec![("/tmp/work/link", "/tmp/other")],
    }
}

#[test]
fn directory_traversal_crossing_workspace_is_blocked() {
    let files = workspace();

    let traversal = files.validate("/tmp/work", "../outside.txt");
    assert!(matches!(traversal, Err(PathValidationError::ParentTraversal)));

    let absolute_escape = files.validate("/tmp/work", "/tmp/outside.txt");
    assert!(matches!(absolute_escape, Err(PathValidationError::BoundaryEscape)));

    let valid_missing = files.validate("/tmp/work", "src/generated/new_file.rs").expect("inside");
    let root = AbsolutePath::parse("/tmp/work").expect("a root");
    assert!(valid_missing.resolved_path.starts_with(&root));
    assert_eq!(valid_missing.missing_components.len(), 2);
    assert_eq!(valid_missing.missing_components, vec!["generated", "new_file.rs"]);
    assert_eq!(valid_missing.nearest_existing_parent.to_text(), "/tmp/work/src");
    assert_eq!(valid_missing.resolved_path.to_text(), "/tmp/work/src/generated/new_file.rs");
}

#[test]
fn existing_paths_resolve_in_every_spelling() {
    let files = workspace();
    for raw in ["src/main.rs", "./src/main.rs", "src//./main.rs/", "/tmp/work/src/main.rs"] {
        let path = files.validate("/tmp/work", raw).expect("inside");
        assert_eq!(path.resolved_path.to_text(), "/tmp/work/src/main.rs");
        assert_eq!(path.nearest_existing_parent.to_text(), "/tmp/work/src/main.rs");
        assert!(path.missing_components.is_empty());
        assert_eq!(path.workspace_root.to_text(), "/tmp/work");
    }
    let root = files.validate("/tmp/work", ".").expect("the root itself");
    assert_eq!(root.resolved_path, root.workspace_root);
}

#[test]
fn links_are_never_crossed() {
    let files = workspace();
    let result = files.validate("/tmp/work", "link/secret.txt");
    assert_eq!(result, Err(PathValidationError::SymbolicLink("/tmp/work/link".to_owned())));
    let result = files.validate("/tmp/work", "/tmp/work/link");
    assert_eq!(result, Err(PathValidationError::SymbolicLink("/tmp/work/link".to_owned())));
}

#[test]
fn each_refusal_of_a_path_has_its_error() {
    let files = workspace();
    assert_eq!(files.validate("/tmp/work", " \t"), Err(PathValidationError::EmptyPath));
    assert_eq!(files.validate("/nowhere", " "), Err(PathValidationError::EmptyPath));
    assert_eq!(
        files.validate("/nowhere", "a"),
        Err(PathValidationError::WorkspaceRootInvalid(
            "/nowhere (No such file or directory)".to_owned()
        ))
    );
    assert_eq!(files.validate("/tmp/work", "a/../b"), Err(PathValidationError::ParentTraversal));
    assert_eq!(
        files.validate("/tmp/work", "/tmp/work/../work"),
        Err(PathValidationError::ParentTraversal)
    );
    assert_eq!(files.validate("/tmp/work", "/tmp/worker"), Err(PathValidationError::BoundaryEscape));
    assert_eq!(
        files.validate("/tmp/work", "src/forbidden"),
        Err(PathValidationError::Metadata {
            path: "/tmp/work/src/forbidden".to_owned(),
            message: "Permission denied".to_owned(),
        })
    );
}

#[test]
fn a_canonical_form_outside_the_workspace_is_refused() {
    let root = AbsolutePath::parse("/w").expect("a root");
    let step = validate_workspace_path("/w", Ok(root), "a");
    let PathStep::Inspect(walk) = step else { panic!("a walk") };
    let PathStep::Canonicalize(walk) = walk.inspected(Inspection::Present) else { panic!("present") };
    let elsewhere = AbsolutePath::parse("/elsewhere").expect("a path");
    assert_eq!(
        walk.canonicalized(Ok(elsewhere)),
        PathStep::Done(Err(PathValidationError::BoundaryEscape))
    );
}

#[test]
fn a_parent_that_moved_outside_is_refused() {
    let root = AbsolutePath::parse("/w").expect("a root");
    let step = validate_workspace_path("/w", Ok(root), "a");
    let PathStep::Inspect(walk) = step else { panic!("a walk") };
    let PathStep::Exists(search) = walk.inspected(Inspection::Missing) else { panic!("missing") };
    assert_eq!(search.candidate_path().to_text(), "/w/a");
    let PathStep::Exists(search) = search.searched(false) else { panic!("upwards") };
    assert_eq!(search.candidate_path().to_text(), "/w");
    let PathStep::CanonicalizeParent(search) = search.searched(true) else { panic!("found") };
    let elsewhere = AbsolutePath::parse("/").expect("a path");
    assert_eq!(
        search.canonicalized(Ok(elsewhere)),
        PathStep::Done(Err(PathValidationError::BoundaryEscape))
    );
}

#[test]
fn path_errors_have_their_messages() {
    for (error, text) in [
        (
            PathValidationError::WorkspaceRootInvalid("/x (gone)".to_owned()),
            "workspace root does not exist or cannot be canonicalized: /x (gone)",
        ),
        (PathValidationError::ParentTraversal, "path contains parent-directory traversal"),
        (
            PathValidationError::UnsupportedComponent,
            "path contains unsupported prefix or root component",
        ),
        (PathValidationError::BoundaryEscape, "path escapes workspace root"),
        (
            PathValidationError::SymbolicLink("/x".to_owned()),
            "path crosses symbolic link: /x",
        ),
        (PathValidationError::EmptyPath, "path component is empty"),
        (
            PathValidationError::Metadata { path: "/x".to_owned(), message: "no".to_owned() },
            "filesystem metadata error for /x: no",
        ),
    ] {
        assert_eq!(error.message(), text);
    }
}

#[test]
fn components_are_read_like_those_of_a_path() {
    let name = |s: &str| PathComponent::Normal(s.to_owned());
    assert_eq!(components_of(""), vec![]);
    assert_eq!(components_of("/"), vec![PathComponent::RootDir]);
    assert_eq!(components_of("."), vec![PathComponent::CurDir]);
    assert_eq!(components_of("./a/./b//c/"), vec![PathComponent::CurDir, name("a"), name("b"), name("c")]);
    assert_eq!(
        components_of("/a/../.b"),
        vec![PathComponent::RootDir, name("a"), PathComponent::ParentDir, name(".b")]
    );
    for text in ["", "/", ".", "./a/./b", "//a/../b/", "a", "../..", "x/.hidden"] {
        let own: Vec<String> = components_of(text)
            .into_iter()
            .map(|component| match component {
                PathComponent::Prefix => "prefix".to_owned(),
                PathComponent::RootDir => "/".to_owned(),
                PathComponent::CurDir => ".".to_owned(),
                PathComponent::ParentDir => "..".to_owned(),
                PathComponent::Normal(name) => name,
            })
            .collect();
        let std: Vec<String> = std::path::Path::new(text)
            .components()
            .map(|component| component.as_os_str().to_string_lossy().into_owned())
            .collect();
        assert_eq!(own, std, "{:?}", text);
    }
}

#[test]
fn absolute_paths_are_read_back_from_their_text() {
    for text in ["/", "/a", "/a/b.c/..d"] {
        let path = AbsolutePath::parse(text).expect("an absolute path");
        assert_eq!(path.to_text(), text);
        assert_eq!(AbsolutePath::parse(&path.to_text()), Some(path));
    }
    for text in ["", "a", "./a", "/a/../b"] {
        assert_eq!(AbsolutePath::parse(text), None);
    }
    let path = AbsolutePath::parse("/a").expect("a path");
    assert_eq!(path.child("b").to_text(), "/a/b");
    assert_eq!(path.parent().map(|parent| parent.to_text()), Some("/".to_owned()));
    assert_eq!(path.parent().and_then(|parent| parent.parent()), None);
    assert_eq!((path.depth(), path.part(0)), (1, "a"));
}

#[test]
fn paths_of_any_form_have_parents() {
    for (text, parent) in [
        ("/", None),
        ("/a//b/", Some("/a")),
        ("/a", Some("/")),
        ("a", Some("")),
        ("./a", Some(".")),
        ("../a/b", Some("../a")),
        ("", None),
    ] {
        assert_eq!(parent_of(text).as_deref(), parent);
    }
    for text in [
        "/", "//", "/.", "//a", "///a//b//", "a/", "a/.", "a/./b", "./", "././a", ".", "..", "a/..",
        "/a/./b/.", "a//./b", "..//x/", "/..", "x/y/z", "./.", "/a b/\u{e9}",
    ] {
        assert_eq!(
            parent_of(text),
            std::path::Path::new(text).parent().map(|path| path.to_string_lossy().into_owned()),
            "{text}"
        );
    }
    for (base, name) in [("", "x"), ("/", "x"), ("a", "x"), ("a/", "x")] {
        assert_eq!(
            join_path(base, name),
            std::path::Path::new(base).join(name).to_string_lossy().into_owned()
        );
    }
}

#[test]
fn valid_paths_stay_valid() {
    let files = workspace();
    for raw in ["src/main.rs", "./src//new/file", ".", "/tmp/work/src/a", "x/y/z"] {
        let path = files.validate("/tmp/work", raw).expect("inside");
        assert_eq!(files.validate("/tmp/work", &path.resolved_path.to_text()), Ok(path));
    }
}
