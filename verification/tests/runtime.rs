use cli_agent::runtime_dir::{
    ensure_private_db_file, ensure_private_dir, DirCheck, FileCheck, PrivateStep, RuntimeError,
    DIR_MODE, FILE_MODE,
};
use cli_agent::storage::StorageConfig;

/// Directories and files with their modes.
struct Places {
    dirs: Vec<(String, u32)>,
    files: Vec<(String, u32)>,
    made: Vec<String>,
    stubborn: bool,
}

fn mode_in(list: &[(String, u32)], path: &str) -> Option<u32> {
    list.iter().find(|(known, _)| known == path).map(|(_, mode)| *mode)
}

fn set_in(list: &mut Vec<(String, u32)>, path: &str, mode: u32) {
    list.retain(|(known, _)| known != path);
    list.push((path.to_owned(), mode));
}

impl Places {
    fn new(dirs: &[(&str, u32)]) -> Places {
        Places {
            dirs: dirs.iter().map(|(path, mode)| ((*path).to_owned(), *mode)).collect(),
            files: Vec::new(),
            made: Vec::new(),
            stubborn: false,
        }
    }

    fn dir(&self, path: &str) -> Option<u32> {
        mode_in(&self.dirs, path)
    }

    fn file(&self, path: &str) -> Option<u32> {
        mode_in(&self.files, path)
    }

    fn ensure(&mut self, first: PrivateStep) -> Result<(), RuntimeError> {
        let mut step = first;
        loop {
            step = match step {
                PrivateStep::Exists(search) => {
                    let place = search.place();
                    let exists = self.dir(place).is_some() || self.file(place).is_some();
                    search.searched(exists)
                }
                PrivateStep::IsDirectory(search) => {
                    let is_dir = self.dir(search.place()).is_some();
                    search.looked_at(is_dir)
                }
                PrivateStep::Create(creation) => {
                    let target = creation.target().to_owned();
                    if target.ends_with("readonly") {
                        creation.created(Err("denied".to_owned()))
                    } else {
                        set_in(&mut self.dirs, &target, 0o40700);
                        self.made.push(target);
                        creation.created(Ok(()))
                    }
                }
                PrivateStep::Restrict(creation) => {
                    set_in(&mut self.dirs, creation.target(), 0o40700);
                    creation.restricted(Ok(()))
                }
                PrivateStep::Inspect(check) => {
                    let mode = self.dir(check.place()).ok_or("gone".to_owned());
                    check.inspected(mode.map(|mode| (true, mode)))
                }
                PrivateStep::Tighten(check) => {
                    if !self.stubborn {
                        set_in(&mut self.dirs, check.place(), 0o40700);
                    }
                    check.tightened(Ok(()))
                }
                PrivateStep::Reinspect(check) => {
                    let mode = self.dir(check.place()).ok_or("gone".to_owned());
                    check.reinspected(mode)
                }
                PrivateStep::CreateFile(check) => {
                    if self.file(check.place()).is_none() {
                        set_in(&mut self.files, check.place(), 0o100644);
                    }
                    check.created(Ok(()))
                }
                PrivateStep::RestrictFile(check) => {
                    set_in(&mut self.files, check.place(), 0o100600);
                    check.restricted(Ok(()))
                }
                PrivateStep::InspectFile(check) => {
                    let mode = self.file(check.place()).ok_or("gone".to_owned());
                    check.inspected(mode.map(|mode| (true, mode)))
                }
                PrivateStep::Done(result) => return result,
            };
        }
    }
}

#[test]
fn nested_runtime_directories_are_created_private() {
    let mut places = Places::new(&[("/root", 0o40755)]);
    let config = StorageConfig::from_base_dir("/root/missing/parent/runtime".to_owned());
    assert_eq!(places.ensure(config.prepare_filesystem()), Ok(()));
    assert_eq!(
        places.made,
        vec!["/root/missing", "/root/missing/parent", "/root/missing/parent/runtime"]
    );
    for dir in &places.made {
        assert_eq!(places.dir(dir).map(|mode| mode & 0o777), Some(0o700), "{} should be private", dir);
    }
    assert_eq!(places.dir("/root"), Some(0o40755));
}

#[test]
fn storage_filesystem_permissions_are_private() {
    let mut places = Places::new(&[("/base", 0o40755)]);
    let config = StorageConfig::from_base_dir("/base".to_owned());
    assert_eq!(places.ensure(config.prepare_filesystem()), Ok(()));
    let dir_mode = places.dir(&config.base_dir).map(|mode| mode & 0o777);
    let db_mode = places.file(&config.db_path).map(|mode| mode & 0o777);
    assert_eq!(dir_mode, Some(0o700));
    assert_eq!(db_mode, Some(0o600));
    assert_eq!((DIR_MODE, FILE_MODE), (0o700, 0o600));
}

#[test]
fn the_directory_of_the_file_is_made_private_first() {
    let mut places = Places::new(&[("/", 0o40755), ("/base", 0o40755), ("/other", 0o40755)]);
    let config = StorageConfig {
        base_dir: "/base".to_owned(),
        db_path: "/other/db/file".to_owned(),
    };
    assert_eq!(places.ensure(config.prepare_filesystem()), Ok(()));
    assert_eq!(places.dir("/base"), Some(0o40700));
    assert_eq!(places.dir("/other"), Some(0o40755));
    assert_eq!(places.made, vec!["/other/db"]);
    assert_eq!(places.file("/other/db/file"), Some(0o100600));

    let mut places = Places::new(&[("/open", 0o40755)]);
    assert_eq!(places.ensure(ensure_private_db_file("/open/file")), Ok(()));
    assert_eq!(places.dir("/open"), Some(0o40700));
    assert_eq!(places.file("/open/file"), Some(0o100600));
    assert_eq!(places.ensure(ensure_private_db_file("file")), Err(RuntimeError::EmptyPath));
}

#[test]
fn directories_are_asked_for_as_they_are_written() {
    let mut places = Places::new(&[("/a", 0o40755)]);
    assert_eq!(places.ensure(ensure_private_dir("/a//b/./c/")), Ok(()));
    assert_eq!(places.made, vec!["/a//b", "/a//b/./c/"]);
    let text = |path: &str| {
        Places::new(&[]).ensure(ensure_private_dir(path)).expect_err("not private").message()
    };
    assert_eq!(text("x//y/"), "failed to resolve parent path for x//y/");
}

#[test]
fn each_failure_of_a_directory_has_its_error() {
    let text = |places: &mut Places, path: &str| {
        places.ensure(ensure_private_dir(path)).expect_err("not private").message()
    };
    let mut places = Places::new(&[("/", 0o40755), ("/open", 0o40755)]);
    places.files.push(("/file".to_owned(), 0o100644));
    assert_eq!(text(&mut places, ""), "private directory path is empty");
    assert_eq!(text(&mut places, "relative"), "failed to resolve parent path for relative");
    assert_eq!(text(&mut places, "/file/sub"), "/file exists but is not a directory");
    assert_eq!(
        text(&mut places, "/new/readonly"),
        "failed to create private directory /new/readonly: denied"
    );
    places.stubborn = true;
    assert_eq!(
        text(&mut places, "/open"),
        "private directory /open has mode 755; expected 700"
    );
    let config = StorageConfig::from_base_dir("/open".to_owned());
    assert!(places.ensure(config.prepare_filesystem()).is_err());
    assert_eq!(places.file("/open/cli-agent.db"), None);
    assert_eq!(places.ensure(ensure_private_dir("/new")), Ok(()));
}

fn found(path: &str) -> DirCheck {
    let PrivateStep::Exists(search) = ensure_private_dir(path) else { panic!("search") };
    let PrivateStep::IsDirectory(search) = search.searched(true) else { panic!("found") };
    let PrivateStep::Inspect(check) = search.looked_at(true) else { panic!("inspect") };
    check
}

fn text_of(step: PrivateStep) -> String {
    match step {
        PrivateStep::Done(Err(error)) => error.message(),
        other => panic!("{other:?}"),
    }
}

#[test]
fn failures_while_a_directory_is_restricted_are_reported() {
    let PrivateStep::Exists(search) = ensure_private_dir("/a/b") else { panic!("search") };
    let PrivateStep::Exists(search) = search.searched(false) else { panic!("search") };
    let PrivateStep::IsDirectory(search) = search.searched(true) else { panic!("found") };
    let PrivateStep::Create(creation) = search.looked_at(true) else { panic!("create") };
    let PrivateStep::Restrict(creation) = creation.created(Ok(())) else { panic!("restrict") };
    assert_eq!(
        text_of(creation.restricted(Err("denied".to_owned()))),
        "failed to enforce 0700 permissions on /a/b: denied"
    );

    assert_eq!(
        text_of(found("/a").inspected(Err("gone".to_owned()))),
        "failed to stat private directory /a: gone"
    );
    assert_eq!(
        text_of(found("/a").inspected(Ok((false, 0o700)))),
        "/a exists but is not a directory"
    );
    let open = || {
        let PrivateStep::Tighten(open) = found("/a").inspected(Ok((true, 0o777))) else {
            panic!("tighten")
        };
        open
    };
    assert_eq!(
        text_of(open().tightened(Err("denied".to_owned()))),
        "failed to enforce 0700 permissions on /a: denied"
    );
    let PrivateStep::Reinspect(again) = open().tightened(Ok(())) else { panic!("again") };
    assert_eq!(
        text_of(again.reinspected(Err("gone".to_owned()))),
        "failed to stat private directory /a: gone"
    );
}

#[test]
fn each_failure_of_the_file_has_its_error() {
    let create = || -> FileCheck {
        let PrivateStep::Exists(search) = ensure_private_db_file("/f") else { panic!("search") };
        let PrivateStep::IsDirectory(search) = search.searched(true) else { panic!("found") };
        let PrivateStep::Inspect(check) = search.looked_at(true) else { panic!("inspect") };
        assert_eq!(check.place(), "/");
        let PrivateStep::CreateFile(file) = check.inspected(Ok((true, 0o700))) else {
            panic!("create")
        };
        file
    };
    let restrict = || {
        let PrivateStep::RestrictFile(file) = create().created(Ok(())) else { panic!("restrict") };
        file
    };
    let inspect = || {
        let PrivateStep::InspectFile(file) = restrict().restricted(Ok(())) else {
            panic!("inspect")
        };
        file
    };
    assert_eq!(
        text_of(create().created(Err("no".to_owned()))),
        "failed to create database file /f: no"
    );
    assert_eq!(
        text_of(restrict().restricted(Err("no".to_owned()))),
        "failed to set 0600 permissions on /f: no"
    );
    assert_eq!(
        text_of(inspect().inspected(Err("no".to_owned()))),
        "failed to stat database file /f: no"
    );
    assert_eq!(
        text_of(inspect().inspected(Ok((false, 0o600)))),
        "/f exists but is not a regular file"
    );
    assert_eq!(
        text_of(inspect().inspected(Ok((true, 0o100644)))),
        "database file /f has mode 644; expected 600"
    );
    assert_eq!(inspect().inspected(Ok((true, 0o100600))), PrivateStep::Done(Ok(())));
}
