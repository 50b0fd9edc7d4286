use file_away_flow::{
    expected_api_key, handle_file_move, handle_rejection, health_checker_handler,
    is_default_api_key, key_validation, respond, route_move, Action, ApiKeyError, DirEntry, Event,
    FileMoveRequest, GenericResponse, MoveOutcome, Rejection, Step, DEFAULT_API_KEY,
};
use std::collections::{BTreeMap, BTreeSet};
use std::path::Path;

/// A filesystem that lives in memory: files with their contents, and
/// directories. It can be told to refuse renames, as a filesystem does
/// across devices, and to fail the action with a given number.
struct MemFs {
    files: BTreeMap<String, Vec<u8>>,
    dirs: BTreeSet<String>,
    rename_works: bool,
    fail_at: Option<usize>,
    log: Vec<Action>,
}

impl MemFs {
    fn new() -> MemFs {
        let mut dirs = BTreeSet::new();
        dirs.insert("/tmp".to_string());
        dirs.insert("/tmp/a".to_string());
        MemFs { files: BTreeMap::new(), dirs, rename_works: true, fail_at: None, log: Vec::new() }
    }

    fn across_devices() -> MemFs {
        let mut fs = MemFs::new();
        fs.rename_works = false;
        fs
    }

    fn write(&mut self, path: &str, content: &str) {
        self.files.insert(path.to_string(), content.as_bytes().to_vec());
    }

    fn mkdir(&mut self, path: &str) {
        self.dirs.insert(path.to_string());
    }

    fn holds(&self, path: &str) -> bool {
        self.files.contains_key(path) || self.dirs.contains(path)
    }

    fn read(&self, path: &str) -> String {
        String::from_utf8(self.files[path].clone()).unwrap()
    }

    fn below(path: &str, dir: &str) -> bool {
        Path::new(path).starts_with(dir)
    }

    fn list(&self, dir: &str) -> Vec<DirEntry> {
        let mut entries = Vec::new();
        for path in self.dirs.iter() {
            if Path::new(path).parent() == Some(Path::new(dir)) {
                let name = Path::new(path).file_name().unwrap().to_str().unwrap().to_string();
                entries.push(DirEntry { name, is_dir: true });
            }
        }
        for path in self.files.keys() {
            if Path::new(path).parent() == Some(Path::new(dir)) {
                let name = Path::new(path).file_name().unwrap().to_str().unwrap().to_string();
                entries.push(DirEntry { name, is_dir: false });
            }
        }
        entries.sort_by(|a, b| a.name.cmp(&b.name));
        entries
    }

    fn moved(path: &str, from: &str, to: &str) -> String {
        let rest = Path::new(path).strip_prefix(from).unwrap();
        if rest.as_os_str().is_empty() {
            to.to_string()
        } else {
            Path::new(to).join(rest).to_str().unwrap().to_string()
        }
    }

    fn rename(&mut self, from: &str, to: &str) {
        let files: Vec<String> =
            self.files.keys().filter(|p| MemFs::below(p, from)).cloned().collect();
        for path in files {
            let content = self.files.remove(&path).unwrap();
            self.files.insert(MemFs::moved(&path, from, to), content);
        }
        let dirs: Vec<String> =
            self.dirs.iter().filter(|p| MemFs::below(p, from)).cloned().collect();
        for path in dirs {
            self.dirs.remove(&path);
            self.dirs.insert(MemFs::moved(&path, from, to));
        }
    }

    fn missing() -> Event {
        Event::Failed("No such file or directory (os error 2)".to_string())
    }

    fn perform(&mut self, action: &Action) -> Event {
        let number = self.log.len();
        self.log.push(clone_action(action));
        if self.fail_at == Some(number) {
            return match action {
                Action::Exists(_) | Action::IsDir(_) => Event::Answer(false),
                _ => Event::Failed("Permission denied (os error 13)".to_string()),
            };
        }
        match action {
            Action::Exists(path) => Event::Answer(self.holds(path)),
            Action::IsDir(path) => Event::Answer(self.dirs.contains(path)),
            Action::Rename { from, to } => {
                if !self.rename_works {
                    Event::Failed("Invalid cross-device link (os error 18)".to_string())
                } else if !self.holds(from) {
                    MemFs::missing()
                } else {
                    self.rename(from, to);
                    Event::Completed
                }
            },
            Action::CopyFile { from, to } => match self.files.get(from).cloned() {
                Some(content) => {
                    self.files.insert(to.clone(), content);
                    Event::Completed
                },
                None => MemFs::missing(),
            },
            Action::CreateDirAll(path) => {
                self.dirs.insert(path.clone());
                Event::Completed
            },
            Action::ReadDir(path) => {
                if self.dirs.contains(path) {
                    Event::Listed(self.list(path))
                } else {
                    MemFs::missing()
                }
            },
            Action::RemoveFile(path) => match self.files.remove(path) {
                Some(_) => Event::Completed,
                None => MemFs::missing(),
            },
            Action::RemoveDirAll(path) => {
                if !self.dirs.contains(path) {
                    return MemFs::missing();
                }
                self.files.retain(|p, _| !MemFs::below(p, path));
                self.dirs.retain(|p| !MemFs::below(p, path));
                Event::Completed
            },
        }
    }
}

fn clone_action(action: &Action) -> Action {
    match action {
        Action::Exists(path) => Action::Exists(path.clone()),
        Action::IsDir(path) => Action::IsDir(path.clone()),
        Action::Rename { from, to } => Action::Rename { from: from.clone(), to: to.clone() },
        Action::CopyFile { from, to } => Action::CopyFile { from: from.clone(), to: to.clone() },
        Action::CreateDirAll(path) => Action::CreateDirAll(path.clone()),
        Action::ReadDir(path) => Action::ReadDir(path.clone()),
        Action::RemoveFile(path) => Action::RemoveFile(path.clone()),
        Action::RemoveDirAll(path) => Action::RemoveDirAll(path.clone()),
    }
}

fn request(source: &str, target: &str) -> FileMoveRequest {
    FileMoveRequest { sourcePath: source.to_string(), targetPath: target.to_string() }
}

/// Runs a move to its end on `fs`.
fn run(fs: &mut MemFs, mut step: Step) -> MoveOutcome {
    loop {
        match step {
            Step::Done(outcome) => return outcome,
            Step::Next(machine, action) => {
                let event = fs.perform(&action);
                step = machine.step(event);
            },
        }
    }
}

/// Serves a move request that carries `key` as its credential.
fn serve(fs: &mut MemFs, key: Option<&str>, source: &str, target: &str) -> (u16, GenericResponse) {
    let expected = expected_api_key(None);
    let key = key.map(|text| text.to_string());
    let step = route_move(key.as_ref(), &expected, Ok(request(source, target)));
    respond(&run(fs, step))
}

/// The first step of a move whose credential has been accepted.
fn start(source: &str, target: &str) -> Step {
    let (machine, action) = handle_file_move(request(source, target));
    Step::Next(machine, action)
}

/// Steps the machine of `step` with `event`; a move that is over stays over.
fn after(step: Step, event: Event) -> Step {
    match step {
        Step::Next(machine, _) => machine.step(event),
        Step::Done(outcome) => Step::Done(outcome),
    }
}

fn probe(path: &str) -> Action {
    Action::Exists(path.to_string())
}

fn rename(from: &str, to: &str) -> Action {
    Action::Rename { from: from.to_string(), to: to.to_string() }
}

fn copy(from: &str, to: &str) -> Action {
    Action::CopyFile { from: from.to_string(), to: to.to_string() }
}

#[test]
fn test_health_endpoint() {
    let (status, response) = health_checker_handler("1.2.3");
    assert_eq!(status, 200);
    assert_eq!(response.status, "healthy");
    assert!(response.message.contains("FileAwayFlow API is up and running"));
    assert_eq!(response.version, "1.2.3");
}

#[test]
fn test_file_move_success() {
    let mut fs = MemFs::new();
    fs.write("/tmp/a/test_file.txt", "test content");

    let (status, response) =
        serve(&mut fs, Some("123456"), "/tmp/a/test_file.txt", "/tmp/a/moved_file.txt");

    assert_eq!(status, 200);
    assert_eq!(response.status, "success");
    assert!(!fs.holds("/tmp/a/test_file.txt"));
    assert!(fs.holds("/tmp/a/moved_file.txt"));
    assert_eq!(fs.read("/tmp/a/moved_file.txt"), "test content");
}

#[test]
fn test_file_move_directory() {
    let mut fs = MemFs::new();
    fs.mkdir("/tmp/a/test_dir");
    fs.write("/tmp/a/test_dir/file1.txt", "content1");
    fs.write("/tmp/a/test_dir/file2.txt", "content2");

    let (status, _) = serve(&mut fs, Some("123456"), "/tmp/a/test_dir", "/tmp/a/moved_dir");

    assert_eq!(status, 200);
    assert!(!fs.holds("/tmp/a/test_dir"));
    assert!(fs.holds("/tmp/a/moved_dir"));
    assert!(fs.holds("/tmp/a/moved_dir/file1.txt"));
    assert!(fs.holds("/tmp/a/moved_dir/file2.txt"));
    assert_eq!(fs.read("/tmp/a/moved_dir/file1.txt"), "content1");
    assert_eq!(fs.read("/tmp/a/moved_dir/file2.txt"), "content2");
}

#[test]
fn test_file_move_source_not_found() {
    let mut fs = MemFs::new();

    let (status, response) =
        serve(&mut fs, Some("123456"), "/tmp/a/nonexistent.txt", "/tmp/a/target.txt");

    assert_eq!(status, 400);
    assert_eq!(response.status, "error");
    assert!(response.message.contains("File not found"));
}

#[test]
fn test_invalid_api_key() {
    let mut fs = MemFs::new();
    fs.write("/tmp/a/test.txt", "test content");

    let (status, response) = serve(&mut fs, Some("wrong_key"), "/tmp/a/test.txt", "/tmp/a/moved.txt");

    assert_eq!(status, 403);
    assert_eq!(response.status, "error");
    assert_eq!(response.message, "Invalid API key");
}

#[test]
fn test_file_move_target_exists() {
    let mut fs = MemFs::new();
    fs.write("/tmp/a/source.txt", "source content");
    fs.write("/tmp/a/target.txt", "target content");

    let (status, response) =
        serve(&mut fs, Some("123456"), "/tmp/a/source.txt", "/tmp/a/target.txt");

    assert_eq!(status, 400);
    assert_eq!(response.status, "error");
}

#[test]
fn test_target_exists_leaves_both_paths_untouched() {
    let mut fs = MemFs::new();
    fs.write("/tmp/a/source.txt", "source content");
    fs.write("/tmp/a/target.txt", "target content");

    let (status, response) =
        serve(&mut fs, Some("123456"), "/tmp/a/source.txt", "/tmp/a/target.txt");

    assert_eq!(status, 400);
    assert_eq!(response.status, "error");
    assert_eq!(response.message, "Unhandled rejection: Rejection(FileAlreadyExistsError)");
    assert_eq!(fs.read("/tmp/a/source.txt"), "source content");
    assert_eq!(fs.read("/tmp/a/target.txt"), "target content");
    assert_eq!(fs.log, vec![probe("/tmp/a/source.txt"), probe("/tmp/a/target.txt")]);
}

#[test]
fn test_target_directory_exists() {
    let mut fs = MemFs::new();
    fs.write("/tmp/a/source.txt", "source content");
    fs.mkdir("/tmp/a/there");

    let (status, response) = serve(&mut fs, Some("123456"), "/tmp/a/source.txt", "/tmp/a/there");

    assert_eq!(status, 400);
    assert_eq!(response.status, "error");
    assert!(fs.holds("/tmp/a/source.txt"));
}

#[test]
fn test_missing_api_key_is_forbidden() {
    let mut fs = MemFs::new();
    fs.write("/tmp/a/test.txt", "test content");

    let (status, response) = serve(&mut fs, None, "/tmp/a/test.txt", "/tmp/a/moved.txt");

    assert_eq!(status, 403);
    assert_eq!(response.status, "error");
    assert_eq!(response.message, "Invalid API key");
    assert!(fs.log.is_empty());
    assert!(fs.holds("/tmp/a/test.txt"));
}

#[test]
fn test_bad_key_wins_over_bad_body() {
    let expected = expected_api_key(None);
    let key = "nope".to_string();

    let step = route_move(Some(&key), &expected, Err("Rejection(BodyDeserializeError)".to_string()));

    match step {
        Step::Done(outcome) => {
            assert_eq!(outcome, MoveOutcome::Rejected(Rejection::Unauthorized(ApiKeyError)));
            let (status, response) = respond(&outcome);
            assert_eq!(status, 403);
            assert_eq!(response.status, "error");
            assert_eq!(response.message, "Invalid API key");
        },
        Step::Next(_, _) => panic!("a request with a wrong key went through"),
    }
}

#[test]
fn test_unparsed_body_is_a_bad_request() {
    let expected = expected_api_key(None);
    let key = "123456".to_string();

    let step = route_move(Some(&key), &expected, Err("Rejection(BodyDeserializeError)".to_string()));

    match step {
        Step::Done(outcome) => {
            assert_eq!(
                outcome,
                MoveOutcome::Rejected(Rejection::MalformedRequest(
                    "Rejection(BodyDeserializeError)".to_string()
                ))
            );
            let (status, response) = respond(&outcome);
            assert_eq!(status, 400);
            assert_eq!(response.status, "error");
            assert_eq!(
                response.message,
                "Unhandled rejection: Rejection(BodyDeserializeError)"
            );
        },
        Step::Next(_, _) => panic!("a request without a body went through"),
    }
}

#[test]
fn test_key_validation_is_an_exact_match() {
    let expected = "s3cret".to_string();
    assert_eq!(key_validation(Some(&"s3cret".to_string()), &expected), Ok(()));
    assert_eq!(key_validation(Some(&"s3cre".to_string()), &expected), Err(ApiKeyError));
    assert_eq!(key_validation(Some(&"s3cret ".to_string()), &expected), Err(ApiKeyError));
    assert_eq!(key_validation(Some(&"S3CRET".to_string()), &expected), Err(ApiKeyError));
    assert_eq!(key_validation(Some(&String::new()), &expected), Err(ApiKeyError));
    assert_eq!(key_validation(None, &expected), Err(ApiKeyError));
    assert_eq!(key_validation(None, &String::new()), Err(ApiKeyError));
}

#[test]
fn test_expected_api_key_falls_back_to_the_default() {
    assert_eq!(DEFAULT_API_KEY, "123456");
    assert_eq!(expected_api_key(None), "123456");
    assert_eq!(expected_api_key(Some("from-env".to_string())), "from-env");
    assert_eq!(expected_api_key(Some(String::new())), "");
    assert!(is_default_api_key(&expected_api_key(None)));
    assert!(is_default_api_key(&"123456".to_string()));
    assert!(!is_default_api_key(&"from-env".to_string()));
}

#[test]
fn test_scenario_file_is_moved_with_its_content() {
    let mut fs = MemFs::new();
    fs.write("/tmp/a/test.txt", "hello");

    let (status, response) = serve(&mut fs, Some("123456"), "/tmp/a/test.txt", "/tmp/a/moved.txt");

    assert_eq!(status, 200);
    assert_eq!(response.status, "success");
    assert_eq!(response.message, "File /tmp/a/test.txt moved successfully");
    assert!(!fs.holds("/tmp/a/test.txt"));
    assert_eq!(fs.read("/tmp/a/moved.txt"), "hello");
    assert_eq!(
        fs.log,
        vec![
            probe("/tmp/a/test.txt"),
            probe("/tmp/a/moved.txt"),
            rename("/tmp/a/test.txt", "/tmp/a/moved.txt"),
        ]
    );
}

#[test]
fn test_scenario_directory_is_moved_with_its_files() {
    let mut fs = MemFs::new();
    fs.mkdir("/tmp/a/dir");
    fs.write("/tmp/a/dir/f1", "x");
    fs.write("/tmp/a/dir/f2", "y");

    let (status, _) = serve(&mut fs, Some("123456"), "/tmp/a/dir", "/tmp/a/dir2");

    assert_eq!(status, 200);
    assert!(!fs.holds("/tmp/a/dir"));
    assert!(!fs.holds("/tmp/a/dir/f1"));
    assert_eq!(fs.read("/tmp/a/dir2/f1"), "x");
    assert_eq!(fs.read("/tmp/a/dir2/f2"), "y");
}

#[test]
fn test_scenario_absent_source_is_named_in_the_message() {
    let mut fs = MemFs::new();

    let (status, response) = serve(&mut fs, Some("123456"), "/tmp/a/gone.txt", "/tmp/a/moved.txt");

    assert_eq!(status, 400);
    assert_eq!(response.status, "error");
    assert!(response.message.contains("not found"));
    assert!(response.message.contains("/tmp/a/gone.txt"));
    assert_eq!(response.message, "File not found: /tmp/a/gone.txt");
    assert_eq!(fs.log, vec![probe("/tmp/a/gone.txt")]);
}

#[test]
fn test_second_move_of_a_consumed_source_is_not_found() {
    let mut fs = MemFs::new();
    fs.write("/tmp/a/once.txt", "only once");

    let first = run(&mut fs, start("/tmp/a/once.txt", "/tmp/a/first.txt"));
    let second = run(&mut fs, start("/tmp/a/once.txt", "/tmp/a/second.txt"));

    assert_eq!(first, MoveOutcome::Success("/tmp/a/once.txt".to_string()));
    assert_eq!(
        second,
        MoveOutcome::Rejected(Rejection::SourceNotFound("/tmp/a/once.txt".to_string()))
    );
    assert_eq!(fs.read("/tmp/a/first.txt"), "only once");
    assert!(!fs.holds("/tmp/a/second.txt"));
}

#[test]
fn test_move_starts_by_asking_for_the_source() {
    let (_, action) = handle_file_move(request("/tmp/a/in.txt", "/tmp/a/out.txt"));
    assert_eq!(action, probe("/tmp/a/in.txt"));
}

#[test]
fn test_file_is_copied_then_deleted_across_devices() {
    let mut fs = MemFs::across_devices();
    fs.write("/tmp/a/test.txt", "hello");

    let outcome = run(&mut fs, start("/tmp/a/test.txt", "/tmp/a/moved.txt"));

    assert_eq!(outcome, MoveOutcome::Success("/tmp/a/test.txt".to_string()));
    assert!(!fs.holds("/tmp/a/test.txt"));
    assert_eq!(fs.read("/tmp/a/moved.txt"), "hello");
    assert_eq!(
        fs.log,
        vec![
            probe("/tmp/a/test.txt"),
            probe("/tmp/a/moved.txt"),
            rename("/tmp/a/test.txt", "/tmp/a/moved.txt"),
            Action::IsDir("/tmp/a/test.txt".to_string()),
            copy("/tmp/a/test.txt", "/tmp/a/moved.txt"),
            Action::RemoveFile("/tmp/a/test.txt".to_string()),
        ]
    );
}

#[test]
fn test_directory_tree_is_copied_entry_by_entry_across_devices() {
    let mut fs = MemFs::across_devices();
    fs.mkdir("/tmp/a/dir");
    fs.write("/tmp/a/dir/f1", "x");
    fs.mkdir("/tmp/a/dir/inner");
    fs.write("/tmp/a/dir/inner/deep", "z");
    fs.mkdir("/tmp/a/dir/inner/void");
    fs.write("/tmp/a/dir/f2", "y");

    let outcome = run(&mut fs, start("/tmp/a/dir", "/tmp/a/dir2"));

    assert_eq!(outcome, MoveOutcome::Success("/tmp/a/dir".to_string()));
    assert_eq!(
        fs.log,
        vec![
            probe("/tmp/a/dir"),
            probe("/tmp/a/dir2"),
            rename("/tmp/a/dir", "/tmp/a/dir2"),
            Action::IsDir("/tmp/a/dir".to_string()),
            Action::CreateDirAll("/tmp/a/dir2".to_string()),
            Action::ReadDir("/tmp/a/dir".to_string()),
            copy("/tmp/a/dir/f1", "/tmp/a/dir2/f1"),
            copy("/tmp/a/dir/f2", "/tmp/a/dir2/f2"),
            Action::CreateDirAll("/tmp/a/dir2/inner".to_string()),
            Action::ReadDir("/tmp/a/dir/inner".to_string()),
            copy("/tmp/a/dir/inner/deep", "/tmp/a/dir2/inner/deep"),
            Action::CreateDirAll("/tmp/a/dir2/inner/void".to_string()),
            Action::ReadDir("/tmp/a/dir/inner/void".to_string()),
            Action::RemoveDirAll("/tmp/a/dir".to_string()),
        ]
    );
    assert!(!fs.holds("/tmp/a/dir"));
    assert!(!fs.holds("/tmp/a/dir/inner/deep"));
    assert_eq!(fs.read("/tmp/a/dir2/f1"), "x");
    assert_eq!(fs.read("/tmp/a/dir2/f2"), "y");
    assert_eq!(fs.read("/tmp/a/dir2/inner/deep"), "z");
    assert!(fs.dirs.contains("/tmp/a/dir2/inner/void"));
    assert_eq!(fs.files.len(), 3);
}

#[test]
fn test_empty_directory_is_moved_across_devices() {
    let mut fs = MemFs::across_devices();
    fs.mkdir("/tmp/a/empty");

    let (status, response) = serve(&mut fs, Some("123456"), "/tmp/a/empty", "/tmp/a/still_empty");

    assert_eq!(status, 200);
    assert_eq!(response.message, "File /tmp/a/empty moved successfully");
    assert!(!fs.holds("/tmp/a/empty"));
    assert!(fs.dirs.contains("/tmp/a/still_empty"));
    assert_eq!(fs.log.len(), 7);
    assert_eq!(fs.log[6], Action::RemoveDirAll("/tmp/a/empty".to_string()));
}

#[test]
fn test_failed_file_copy_keeps_the_source() {
    let mut fs = MemFs::across_devices();
    fs.write("/tmp/a/test.txt", "hello");
    fs.fail_at = Some(4);

    let (status, response) = serve(&mut fs, Some("123456"), "/tmp/a/test.txt", "/tmp/a/moved.txt");

    assert_eq!(status, 400);
    assert_eq!(response.status, "error");
    assert_eq!(
        response.message,
        "Unhandled rejection: Rejection(FileSystemError(\"Failed to copy file: Permission denied (os error 13)\"))"
    );
    assert_eq!(fs.read("/tmp/a/test.txt"), "hello");
    assert!(!fs.holds("/tmp/a/moved.txt"));
    assert_eq!(fs.log.len(), 5);
    assert_eq!(fs.log[4], copy("/tmp/a/test.txt", "/tmp/a/moved.txt"));
}

#[test]
fn test_failed_file_removal_leaves_both_copies() {
    let mut fs = MemFs::across_devices();
    fs.write("/tmp/a/test.txt", "hello");
    fs.fail_at = Some(5);

    let outcome = run(&mut fs, start("/tmp/a/test.txt", "/tmp/a/moved.txt"));

    assert_eq!(
        outcome,
        MoveOutcome::Rejected(Rejection::FilesystemFailure(
            "Failed to remove source file after copy: Permission denied (os error 13)".to_string()
        ))
    );
    assert_eq!(fs.read("/tmp/a/test.txt"), "hello");
    assert_eq!(fs.read("/tmp/a/moved.txt"), "hello");
}

#[test]
fn test_directory_copy_that_fails_partway_keeps_the_source() {
    for failing in 4..10 {
        let mut fs = MemFs::across_devices();
        fs.mkdir("/tmp/a/dir");
        fs.write("/tmp/a/dir/f1", "x");
        fs.mkdir("/tmp/a/dir/inner");
        fs.write("/tmp/a/dir/inner/deep", "z");
        fs.fail_at = Some(failing);

        let outcome = run(&mut fs, start("/tmp/a/dir", "/tmp/a/dir2"));

        assert_eq!(
            outcome,
            MoveOutcome::Rejected(Rejection::FilesystemFailure(
                "Failed to copy directory: Permission denied (os error 13)".to_string()
            ))
        );
        assert_eq!(fs.log.len(), failing + 1);
        assert!(fs.log.iter().all(|action| !matches!(
            action,
            Action::RemoveFile(_) | Action::RemoveDirAll(_)
        )));
        assert_eq!(fs.read("/tmp/a/dir/f1"), "x");
        assert_eq!(fs.read("/tmp/a/dir/inner/deep"), "z");
    }
}

#[test]
fn test_failed_directory_removal_leaves_both_trees() {
    let mut fs = MemFs::across_devices();
    fs.mkdir("/tmp/a/dir");
    fs.write("/tmp/a/dir/f1", "x");
    fs.fail_at = Some(7);

    let (status, response) = serve(&mut fs, Some("123456"), "/tmp/a/dir", "/tmp/a/dir2");

    assert_eq!(status, 400);
    assert_eq!(response.status, "error");
    assert_eq!(
        response.message,
        "Unhandled rejection: Rejection(FileSystemError(\"Failed to remove source directory after copy: Permission denied (os error 13)\"))"
    );
    assert_eq!(fs.log[7], Action::RemoveDirAll("/tmp/a/dir".to_string()));
    assert_eq!(fs.read("/tmp/a/dir/f1"), "x");
    assert_eq!(fs.read("/tmp/a/dir2/f1"), "x");
}

#[test]
fn test_source_that_vanishes_before_the_rename_is_a_filesystem_failure() {
    let (machine, _) = handle_file_move(request("/tmp/a/racy.txt", "/tmp/a/out.txt"));
    let step = machine.step(Event::Answer(true));
    let step = after(step, Event::Answer(false));
    let step = after(step, Event::Failed("No such file or directory (os error 2)".to_string()));
    let step = after(step, Event::Answer(false));
    let step = after(step, Event::Failed("No such file or directory (os error 2)".to_string()));

    match step {
        Step::Done(outcome) => assert_eq!(
            outcome,
            MoveOutcome::Rejected(Rejection::FilesystemFailure(
                "Failed to copy file: No such file or directory (os error 2)".to_string()
            ))
        ),
        Step::Next(_, action) => panic!("the move went on with {:?}", action),
    }
}

#[test]
fn test_event_that_answers_nothing_ends_the_move() {
    let (machine, _) = handle_file_move(request("/tmp/a/in.txt", "/tmp/a/out.txt"));

    let step = machine.step(Event::Completed);

    match step {
        Step::Done(outcome) => {
            assert_eq!(
                outcome,
                MoveOutcome::Rejected(Rejection::Unrecognized("UnexpectedEvent".to_string()))
            );
            let (status, response) = respond(&outcome);
            assert_eq!(status, 400);
            assert_eq!(response.status, "error");
            assert_eq!(response.message, "Unhandled rejection: UnexpectedEvent");
        },
        Step::Next(_, action) => panic!("the move went on with {:?}", action),
    }
}

#[test]
fn test_listing_in_place_of_an_answer_ends_the_move() {
    let (machine, _) = handle_file_move(request("/tmp/a/in.txt", "/tmp/a/out.txt"));
    let step = machine.step(Event::Answer(true));
    let step = after(step, Event::Listed(vec![DirEntry { name: "x".to_string(), is_dir: false }]));

    match step {
        Step::Done(outcome) => assert_eq!(
            outcome,
            MoveOutcome::Rejected(Rejection::Unrecognized("UnexpectedEvent".to_string()))
        ),
        Step::Next(_, action) => panic!("the move went on with {:?}", action),
    }
}

#[test]
fn test_rejections_map_to_their_replies() {
    let (status, response) = handle_rejection(&Rejection::Unauthorized(ApiKeyError));
    assert_eq!(status, 403);
    assert_eq!(response.status, "error");
    assert_eq!(response.message, "Invalid API key");

    let (status, response) = handle_rejection(&Rejection::SourceNotFound("/data/in".to_string()));
    assert_eq!(status, 400);
    assert_eq!(response.status, "error");
    assert_eq!(response.message, "File not found: /data/in");

    let (status, response) = handle_rejection(&Rejection::TargetExists);
    assert_eq!(status, 400);
    assert_eq!(response.status, "error");
    assert_eq!(response.message, "Unhandled rejection: Rejection(FileAlreadyExistsError)");

    let (status, response) =
        handle_rejection(&Rejection::FilesystemFailure("Failed to copy file: disk full".to_string()));
    assert_eq!(status, 400);
    assert_eq!(response.status, "error");
    assert_eq!(
        response.message,
        "Unhandled rejection: Rejection(FileSystemError(\"Failed to copy file: disk full\"))"
    );

    let (status, response) =
        handle_rejection(&Rejection::MalformedRequest("Rejection(MethodNotAllowed)".to_string()));
    assert_eq!(status, 400);
    assert_eq!(response.status, "error");
    assert_eq!(response.message, "Unhandled rejection: Rejection(MethodNotAllowed)");

    let (status, response) =
        handle_rejection(&Rejection::Unrecognized("Rejection(NotFound)".to_string()));
    assert_eq!(status, 400);
    assert_eq!(response.status, "error");
    assert_eq!(response.message, "Unhandled rejection: Rejection(NotFound)");
}

#[test]
fn test_filesystem_error_text_is_escaped_in_the_message() {
    let detail = "Failed to copy file: no \"such\" file\tin C:\\tmp\n".to_string();

    let (status, response) = handle_rejection(&Rejection::FilesystemFailure(detail));

    assert_eq!(status, 400);
    assert_eq!(
        response.message,
        "Unhandled rejection: Rejection(FileSystemError(\"Failed to copy file: no \\\"such\\\" file\\tin C:\\\\tmp\\n\"))"
    );
}

#[test]
fn test_success_maps_to_its_reply() {
    let (status, response) = respond(&MoveOutcome::Success("/data/in".to_string()));
    assert_eq!(status, 200);
    assert_eq!(response.status, "success");
    assert_eq!(response.message, "File /data/in moved successfully");

    let (status, response) = respond(&MoveOutcome::Rejected(Rejection::TargetExists));
    assert_eq!(status, 400);
    assert_eq!(response.status, "error");
}

#[test]
fn test_entries_are_placed_below_a_target_with_trailing_separator() {
    let (machine, _) = handle_file_move(request("/src/", "/dst/"));
    let step = machine.step(Event::Answer(true));
    let step = after(step, Event::Answer(false));
    let step = after(step, Event::Failed("Invalid cross-device link (os error 18)".to_string()));
    let step = after(step, Event::Answer(true));
    let step = after(step, Event::Completed);
    let step = after(
        step,
        Event::Listed(vec![DirEntry { name: "report.txt".to_string(), is_dir: false }]),
    );

    match step {
        Step::Next(_, action) => assert_eq!(action, copy("/src/report.txt", "/dst/report.txt")),
        Step::Done(outcome) => panic!("the move ended with {:?}", outcome),
    }
}

#[test]
fn test_request_clone_keeps_both_paths() {
    let first = request("/tmp/a/in.txt", "/tmp/a/out.txt");
    let second = first.clone();
    assert_eq!(second, first);
    assert_eq!(second.sourcePath, "/tmp/a/in.txt");
    assert_eq!(second.targetPath, "/tmp/a/out.txt");
}

#[test]
fn test_deeply_nested_directories_are_copied_across_devices() {
    let mut fs = MemFs::across_devices();
    let mut dir = "/tmp/a/deep".to_string();
    fs.mkdir(&dir);
    for level in 0..200 {
        fs.write(&format!("{}/file{}", dir, level), &format!("content {}", level));
        dir = format!("{}/d", dir);
        fs.mkdir(&dir);
    }

    let outcome = run(&mut fs, start("/tmp/a/deep", "/tmp/a/copy"));

    assert_eq!(outcome, MoveOutcome::Success("/tmp/a/deep".to_string()));
    assert!(!fs.holds("/tmp/a/deep"));
    assert_eq!(fs.files.len(), 200);
    let mut dir = "/tmp/a/copy".to_string();
    for level in 0..200 {
        assert_eq!(fs.read(&format!("{}/file{}", dir, level)), format!("content {}", level));
        dir = format!("{}/d", dir);
        assert!(fs.dirs.contains(&dir));
    }
    assert_eq!(fs.log.len(), 4 + 2 * 201 + 200 + 1);
    assert_eq!(fs.log.last(), Some(&Action::RemoveDirAll("/tmp/a/deep".to_string())));
}
