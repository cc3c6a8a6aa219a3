use drift::destination::{
    judge_write_probe, validate_receive_directory, write_check_path, Ancestor, ComponentProbe,
    DestinationError, WritePlace, WriteProbe,
};
use drift::file_name;
use drift::finalize::{Finalization, FinalizeAnswer, FinalizeQuestion};
use drift::ident::TransferId;
use drift::io_kind::IoErrorKind;
use drift::manifest::{FileEntry, TransferManifest};
use drift::resume::{ResumeCapabilities, ResumeRequest, ResumeState, RESUME_SCHEMA_VERSION};
use drift::resume_store::{
    is_resume_file, plan_partial_removal, JsonStore, PartialStep, ResumeRead, SaveStage,
    StorageError,
};
use drift::settings::{PathProbe, Platform};
use drift::source_scan::{
    EntryKind, SelectedPath, SourceScan, SourceScanError, MAX_SCAN_DIRECTORY_ENTRIES,
};
use drift::source_walk::{Listed, ScanAnswer, ScanQuestion, ScanStage, SourceWalk};
use drift::staging::{
    is_receive_staging_path, CleanupStep, Publication, PublishStep, ReceiveFinalizeReport,
    ReceiveStaging, ReceiveStagingError, TreeAnswer,
};
use std::collections::BTreeMap;

#[derive(Clone, Copy, PartialEq)]
enum Node {
    Directory,
    File(u64),
    Unreadable,
    Link,
    Socket,
}

/// A file system in memory: every node by its path.
#[derive(Clone, Default)]
struct Disk {
    nodes: BTreeMap<String, Node>,
}

impl Disk {
    fn with(nodes: &[(&str, Node)]) -> Self {
        Disk {
            nodes: nodes
                .iter()
                .map(|(path, node)| (path.to_string(), *node))
                .collect(),
        }
    }

    fn inspect(&self, path: &str) -> Result<EntryKind, IoErrorKind> {
        match self.nodes.get(path) {
            None => Err(IoErrorKind::NotFound),
            Some(Node::Directory) => Ok(EntryKind::Directory),
            Some(Node::Link) => Ok(EntryKind::Symlink),
            Some(Node::Socket) => Ok(EntryKind::Other),
            Some(Node::File(size)) => Ok(EntryKind::File {
                size: *size,
                modified_at: None,
                mode: 0o644,
            }),
            Some(Node::Unreadable) => Ok(EntryKind::File {
                size: 7,
                modified_at: None,
                mode: 0,
            }),
        }
    }

    fn names(&self, path: &str) -> Vec<String> {
        let prefix = format!("{path}/");
        self.nodes
            .keys()
            .filter_map(|key| key.strip_prefix(&prefix))
            .filter(|rest| !rest.contains('/'))
            .map(str::to_owned)
            .collect()
    }

    fn rename(&mut self, from: &str, to: &str) -> Result<(), IoErrorKind> {
        if self.nodes.contains_key(to) {
            return Err(IoErrorKind::AlreadyExists);
        }
        let prefix = format!("{from}/");
        let moved: Vec<String> = self
            .nodes
            .keys()
            .filter(|key| *key == from || key.starts_with(&prefix))
            .cloned()
            .collect();
        for key in moved {
            let node = self.nodes.remove(&key).unwrap();
            self.nodes.insert(format!("{to}{}", &key[from.len()..]), node);
        }
        Ok(())
    }
}

fn selected(path: &str) -> SelectedPath {
    SelectedPath {
        path: path.to_owned(),
        name: path.rsplit('/').next().map(str::to_owned),
    }
}

fn scan(disk: &Disk, paths: &[&str], cancelled: bool) -> Result<SourceScan, SourceScanError> {
    let mut places: Vec<String> = paths.iter().map(|path| path.to_string()).collect();
    let mut walk = SourceWalk::new(paths.iter().map(|path| selected(path)).collect())?;
    while walk.stage() != ScanStage::Finished {
        match walk.question(cancelled)? {
            ScanQuestion::Inspect { place } => {
                let answer = match disk.inspect(&places[place]) {
                    Ok(kind) => ScanAnswer::Inspected(kind),
                    Err(kind) => ScanAnswer::Failed(kind),
                };
                walk.answer(answer)?;
            }
            ScanQuestion::List { place } => {
                let directory = places[place].clone();
                let mut entries = Vec::new();
                for name in disk.names(&directory) {
                    entries.push(Listed {
                        place: places.len(),
                        name: name.clone(),
                    });
                    places.push(format!("{directory}/{name}"));
                }
                walk.answer(ScanAnswer::Entries {
                    entries,
                    cancelled: false,
                })?;
            }
            ScanQuestion::Nothing => break,
        }
    }
    walk.finish(cancelled)
}

fn error_of(result: Result<SourceScan, SourceScanError>) -> Option<SourceScanError> {
    result.err()
}

#[test]
fn scans_files_and_nested_directories_with_exact_sorted_totals() {
    let disk = Disk::with(&[
        ("root/bundle", Node::Directory),
        ("root/bundle/nested", Node::Directory),
        ("root/bundle/z.txt", Node::File(4)),
        ("root/bundle/nested/a.txt", Node::File(2)),
    ]);
    let scan = scan(&disk, &["root/bundle"], false).unwrap();
    let paths: Vec<&str> = scan
        .manifest()
        .files
        .iter()
        .map(|file| file.relative_path.as_str())
        .collect();

    assert_eq!(scan.file_count(), 2);
    assert_eq!(scan.total_bytes(), 6);
    assert_eq!(scan.roots()[0].file_count(), 2);
    assert_eq!(scan.roots()[0].total_bytes(), 6);
    assert_eq!(paths, vec!["bundle/nested/a.txt", "bundle/z.txt"]);
    assert!(scan.manifest().validate().is_ok());
}

#[test]
fn scans_multiple_files_and_directories_without_merging_roots() {
    let disk = Disk::with(&[
        ("root/first/one.txt", Node::File(3)),
        ("root/second", Node::Directory),
        ("root/second/two.txt", Node::File(7)),
    ]);
    let scan = scan(&disk, &["root/first/one.txt", "root/second"], false).unwrap();

    assert_eq!(scan.file_count(), 2);
    assert_eq!(scan.total_bytes(), 10);
    assert_eq!(scan.roots().len(), 2);
    assert_eq!(scan.manifest().files[0].relative_path, "one.txt");
    assert_eq!(scan.manifest().files[1].relative_path, "second/two.txt");
    assert_eq!(
        scan.description(),
        "SourceScan { source_count: 2, file_count: 2, total_bytes: 10 }"
    );
}

#[test]
fn roots_add_up_to_the_whole_selection() {
    let disk = Disk::with(&[
        ("root/one.txt", Node::File(3)),
        ("root/second", Node::Directory),
        ("root/second/deep", Node::Directory),
        ("root/second/deep/two.txt", Node::File(7)),
        ("root/second/three.txt", Node::File(0)),
    ]);
    let scan = scan(&disk, &["root/second", "root/one.txt"], false).unwrap();
    let counts: Vec<usize> = scan.roots().iter().map(|root| root.file_count()).collect();
    let bytes: Vec<u64> = scan.roots().iter().map(|root| root.total_bytes()).collect();
    assert_eq!(counts, vec![2, 1]);
    assert_eq!(bytes, vec![7, 3]);
    let paths: Vec<&str> = scan.roots().iter().map(|root| root.path()).collect();
    assert_eq!(paths, vec!["root/second", "root/one.txt"]);
    assert_eq!(scan.file_count(), 3);
    assert_eq!(scan.total_bytes(), 10);
}

#[test]
fn rejects_empty_selection_and_empty_directories() {
    let disk = Disk::with(&[("root", Node::Directory)]);
    assert_eq!(
        error_of(scan(&disk, &[], false)),
        Some(SourceScanError::EmptySelection)
    );
    assert_eq!(
        error_of(scan(&disk, &["root"], false)),
        Some(SourceScanError::EmptyDirectory)
    );
}

#[test]
fn rejects_directories_over_entry_bound_with_actionable_error() {
    let mut disk = Disk::with(&[("root", Node::Directory)]);
    for index in 0..=MAX_SCAN_DIRECTORY_ENTRIES {
        disk.nodes
            .insert(format!("root/file-{index}.txt"), Node::File(4));
    }
    assert_eq!(
        error_of(scan(&disk, &["root"], false)),
        Some(SourceScanError::TooManyEntries)
    );
}

#[test]
fn rejects_duplicate_logical_paths() {
    let disk = Disk::with(&[
        ("root/first/same.txt", Node::File(3)),
        ("root/second/same.txt", Node::File(3)),
    ]);
    assert_eq!(
        error_of(scan(
            &disk,
            &["root/first/same.txt", "root/second/same.txt"],
            false
        )),
        Some(SourceScanError::DuplicatePath)
    );
}

#[test]
fn cancellation_stops_a_scan_before_filesystem_work() {
    let disk = Disk::with(&[("root", Node::Directory), ("root/file.txt", Node::File(4))]);
    assert_eq!(
        error_of(scan(&disk, &["root"], true)),
        Some(SourceScanError::Cancelled)
    );
}

#[test]
fn rejects_symlinks_unreadable_files_and_special_files() {
    let disk = Disk::with(&[
        ("root/broken", Node::Link),
        ("root/tree", Node::Directory),
        ("root/tree/escape", Node::Link),
        ("root/unreadable.txt", Node::Unreadable),
        ("root/socket", Node::Socket),
    ]);
    let error = |path: &str| error_of(scan(&disk, &[path], false));
    assert_eq!(error("root/broken"), Some(SourceScanError::SymlinkNotAllowed));
    assert_eq!(error("root/tree"), Some(SourceScanError::SymlinkNotAllowed));
    assert_eq!(
        error("root/unreadable.txt"),
        Some(SourceScanError::Unreadable)
    );
    assert_eq!(
        error("root/socket"),
        Some(SourceScanError::UnsupportedFileType)
    );
    assert_eq!(error("root/missing"), Some(SourceScanError::Unavailable));
}

fn ancestors(disk: &Disk, path: &str) -> Vec<Ancestor> {
    file_name::ancestors(path)
        .iter()
        .map(|step| Ancestor {
            probe: probe(disk, step),
            is_destination: step == path,
        })
        .collect()
}

fn probe(disk: &Disk, path: &str) -> ComponentProbe {
    match disk.nodes.get(path) {
        None => ComponentProbe::Missing,
        Some(Node::Directory) => ComponentProbe::Directory,
        Some(Node::Link) => ComponentProbe::Symlink {
            leads_to_directory: true,
        },
        Some(_) => ComponentProbe::Other,
    }
}

fn destination(disk: &Disk, path: &str) -> Result<WritePlace, DestinationError> {
    let above = match file_name::directory_above(path).as_str() {
        "." => PathProbe::Directory,
        directory => match probe(disk, directory) {
            ComponentProbe::Directory | ComponentProbe::Symlink { .. } => PathProbe::Directory,
            ComponentProbe::Missing => PathProbe::Missing,
            _ => PathProbe::NotDirectory,
        },
    };
    validate_receive_directory(path, &ancestors(disk, path), probe(disk, path), above)
}

#[test]
fn validates_writable_receive_directory() {
    let disk = Disk::with(&[("root", Node::Directory)]);
    assert_eq!(destination(&disk, "root"), Ok(WritePlace::Destination));
    assert_eq!(destination(&disk, "root/new"), Ok(WritePlace::Above));
    assert_eq!(
        judge_write_probe(WriteProbe::Written { removed: true }),
        Ok(())
    );
    let id = TransferId::from_bits(1);
    assert_eq!(
        write_check_path("root", WritePlace::Destination, id),
        "root/.drift-write-check-00000000-0000-0000-0000-000000000001"
    );
    assert_eq!(
        write_check_path("root/new", WritePlace::Above, id),
        "root/.drift-write-check-00000000-0000-0000-0000-000000000001"
    );
}

#[test]
fn rejects_empty_file_and_unavailable_receive_destinations() {
    let disk = Disk::with(&[("root", Node::Directory), ("root/file", Node::File(3))]);
    assert_eq!(
        validate_receive_directory(
            "",
            &Vec::new(),
            ComponentProbe::Missing,
            PathProbe::Missing
        ),
        Err(DestinationError::Empty)
    );
    assert_eq!(
        destination(&disk, "root/file"),
        Err(DestinationError::NotDirectory)
    );
    assert_eq!(
        destination(&disk, "root/missing/nested"),
        Err(DestinationError::Unavailable)
    );
}

#[test]
fn receive_destination_rejects_final_symlink() {
    let disk = Disk::with(&[("root", Node::Directory), ("root/selected", Node::Link)]);
    assert_eq!(
        destination(&disk, "root/selected"),
        Err(DestinationError::SymlinkNotAllowed)
    );
}

#[test]
fn links_above_a_destination_are_followed_and_parents_are_not() {
    let disk = Disk::with(&[("var", Node::Link), ("var/in", Node::Directory)]);
    assert_eq!(destination(&disk, "var/in"), Ok(WritePlace::Destination));
    assert_eq!(
        destination(&disk, "var/../in"),
        Err(DestinationError::Unavailable)
    );
    assert_eq!(
        judge_write_probe(WriteProbe::Refused(IoErrorKind::ReadOnlyFilesystem)),
        Err(DestinationError::NotWritable)
    );
    assert_eq!(
        judge_write_probe(WriteProbe::Refused(IoErrorKind::StorageFull)),
        Err(DestinationError::Unavailable)
    );
    assert_eq!(
        judge_write_probe(WriteProbe::Written { removed: false }),
        Err(DestinationError::NotWritable)
    );
}

#[test]
fn parents_between_back_slashes_are_not_followed_on_windows() {
    let path = "C:\\in\\..\\out";
    assert_eq!(file_name::slashed(Platform::Windows, path), "C:/in/../out");
    assert_eq!(
        destination(
            &Disk::default(),
            &file_name::slashed(Platform::Windows, path)
        ),
        Err(DestinationError::Unavailable)
    );
    assert_eq!(file_name::slashed(Platform::Other, path), path);
    assert_eq!(file_name::slashed(Platform::MacOs, "a\\b/c"), "a\\b/c");
}

const DESTINATION: &str = "received";

fn staged(disk: &mut Disk) -> ReceiveStaging {
    disk.nodes.insert(DESTINATION.to_owned(), Node::Directory);
    let staging = ReceiveStaging::create(DESTINATION, TransferId::new(), disk.names(DESTINATION));
    disk.nodes
        .insert(staging.path().to_owned(), Node::Directory);
    staging
}

fn put(disk: &mut Disk, staging: &ReceiveStaging, name: &str, node: Node) {
    disk.nodes.insert(format!("{}/{name}", staging.path()), node);
}

fn finalize(
    disk: &mut Disk,
    staging: &ReceiveStaging,
) -> Result<ReceiveFinalizeReport, ReceiveStagingError> {
    let mut places: Vec<String> = Vec::new();
    let mut finalization = Finalization::new();
    loop {
        let answer = match finalization.question()? {
            FinalizeQuestion::CheckDestination => FinalizeAnswer::Destination(
                destination(disk, staging.destination()).map(|_| ()),
            ),
            FinalizeQuestion::InspectStaging => {
                FinalizeAnswer::Staging(disk.inspect(staging.path()))
            }
            FinalizeQuestion::ListDestination => {
                FinalizeAnswer::DestinationEntries(Ok(disk.names(staging.destination())))
            }
            FinalizeQuestion::ListStaging => {
                FinalizeAnswer::StagedEntries(Ok(list(disk, &mut places, staging.path())))
            }
            FinalizeQuestion::InspectOutput { place } => {
                FinalizeAnswer::Output(match disk.inspect(&places[place]) {
                    Ok(kind) => TreeAnswer::Inspected(kind),
                    Err(kind) => TreeAnswer::Failed(kind),
                })
            }
            FinalizeQuestion::ListOutput { place } => {
                let directory = places[place].clone();
                FinalizeAnswer::Output(TreeAnswer::Entries(list(disk, &mut places, &directory)))
            }
            FinalizeQuestion::Publish { entry } => {
                let name = finalization.entry(entry).unwrap().name.clone();
                FinalizeAnswer::Done(disk.rename(
                    &format!("{}/{name}", staging.path()),
                    &format!("{}/{name}", staging.destination()),
                ))
            }
            FinalizeQuestion::TakeBack { entry } => {
                let name = finalization.entry(entry).unwrap().name.clone();
                FinalizeAnswer::Done(disk.rename(
                    &format!("{}/{name}", staging.destination()),
                    &format!("{}/{name}", staging.path()),
                ))
            }
            FinalizeQuestion::RemoveStaging => {
                disk.nodes.remove(staging.path());
                FinalizeAnswer::Done(Ok(()))
            }
            FinalizeQuestion::Finished(report) => return Ok(report),
        };
        finalization = finalization.answer(staging, answer)?;
    }
}

fn list(disk: &Disk, places: &mut Vec<String>, directory: &str) -> Vec<Listed> {
    disk.names(directory)
        .into_iter()
        .map(|name| {
            places.push(format!("{directory}/{name}"));
            Listed {
                place: places.len() - 1,
                name,
            }
        })
        .collect()
}

#[test]
fn receive_staging_atomically_publishes_nested_output() {
    let mut disk = Disk::default();
    let staging = staged(&mut disk);
    put(&mut disk, &staging, "bundle", Node::Directory);
    put(&mut disk, &staging, "bundle/nested", Node::Directory);
    put(&mut disk, &staging, "bundle/nested/file.txt", Node::File(15));

    let report = finalize(&mut disk, &staging).unwrap();

    assert!(!report.cleanup_failed());
    assert!(disk.nodes.contains_key("received/bundle/nested/file.txt"));
    assert!(!disk.nodes.contains_key(staging.path()));
}

#[test]
fn receive_staging_allows_concurrent_private_staging() {
    let mut disk = Disk::default();
    let first = staged(&mut disk);
    let second = staged(&mut disk);
    assert_ne!(first.path(), second.path());
    put(&mut disk, &first, "first.txt", Node::File(5));

    finalize(&mut disk, &first).unwrap();

    assert!(disk.nodes.contains_key("received/first.txt"));
    assert!(disk.nodes.contains_key(second.path()));
}

#[test]
fn receive_staging_publishes_multiple_top_level_entries() {
    let mut disk = Disk::default();
    let staging = staged(&mut disk);
    put(&mut disk, &staging, "first.txt", Node::File(5));
    put(&mut disk, &staging, "second.txt", Node::File(6));

    finalize(&mut disk, &staging).unwrap();

    assert!(disk.nodes.contains_key("received/first.txt"));
    assert!(disk.nodes.contains_key("received/second.txt"));
}

#[test]
fn receive_staging_refuses_existing_output_without_overwrite() {
    let mut disk = Disk::with(&[("received/file.txt", Node::File(11))]);
    let staging = staged(&mut disk);
    put(&mut disk, &staging, "file.txt", Node::File(15));

    assert!(matches!(
        finalize(&mut disk, &staging),
        Err(ReceiveStagingError::Conflict)
    ));
    assert!(disk.nodes["received/file.txt"] == Node::File(11));
}

#[test]
fn receive_staging_rejects_new_destination_output_outside_staging() {
    let mut disk = Disk::default();
    let staging = staged(&mut disk);
    disk.nodes
        .insert("received/escape.txt".to_owned(), Node::File(10));
    put(&mut disk, &staging, "file.txt", Node::File(8));

    assert!(matches!(
        finalize(&mut disk, &staging),
        Err(ReceiveStagingError::DestinationChanged)
    ));
    assert!(disk.nodes.contains_key("received/escape.txt"));
}

#[test]
fn receive_staging_rolls_back_when_late_conflict_is_found() {
    let mut disk = Disk::with(&[("received/second.txt", Node::File(11))]);
    let staging = staged(&mut disk);
    put(&mut disk, &staging, "first.txt", Node::File(14));
    put(&mut disk, &staging, "second.txt", Node::File(15));

    assert!(matches!(
        finalize(&mut disk, &staging),
        Err(ReceiveStagingError::Conflict)
    ));
    assert!(!disk.nodes.contains_key("received/first.txt"));
    assert!(disk.nodes["received/second.txt"] == Node::File(11));
    assert!(disk
        .nodes
        .contains_key(&format!("{}/first.txt", staging.path())));
}

#[test]
fn receive_staging_does_not_replace_destination_symlink() {
    let mut disk = Disk::with(&[("received/file.txt", Node::Link)]);
    let staging = staged(&mut disk);
    put(&mut disk, &staging, "file.txt", Node::File(15));

    assert!(matches!(
        finalize(&mut disk, &staging),
        Err(ReceiveStagingError::Conflict)
    ));
    assert!(disk.nodes["received/file.txt"] == Node::Link);
}

#[test]
fn receive_staging_rejects_symlink_output() {
    let mut disk = Disk::default();
    let staging = staged(&mut disk);
    put(&mut disk, &staging, "escape.txt", Node::Link);

    assert!(matches!(
        finalize(&mut disk, &staging),
        Err(ReceiveStagingError::SymlinkOutput)
    ));
}

#[test]
fn links_deep_in_the_output_keep_all_of_it_from_being_published() {
    let mut disk = Disk::default();
    let staging = staged(&mut disk);
    put(&mut disk, &staging, "a.txt", Node::File(1));
    put(&mut disk, &staging, "z", Node::Directory);
    put(&mut disk, &staging, "z/deep", Node::Directory);
    put(&mut disk, &staging, "z/deep/escape.txt", Node::Link);

    assert!(matches!(
        finalize(&mut disk, &staging),
        Err(ReceiveStagingError::SymlinkOutput)
    ));
    assert!(!disk.nodes.contains_key("received/a.txt"));
    assert!(!disk.nodes.contains_key("received/z"));
}

#[test]
fn empty_and_special_output_is_refused() {
    let mut disk = Disk::default();
    let staging = staged(&mut disk);
    assert!(matches!(
        finalize(&mut disk, &staging),
        Err(ReceiveStagingError::EmptyOutput)
    ));
    put(&mut disk, &staging, "socket", Node::Socket);
    assert!(matches!(
        finalize(&mut disk, &staging),
        Err(ReceiveStagingError::InvalidOutputPath)
    ));
    disk.nodes.remove(staging.path());
    assert!(matches!(
        finalize(&mut disk, &staging),
        Err(ReceiveStagingError::Io(IoErrorKind::NotFound))
    ));
}

#[test]
fn failing_to_take_an_entry_back_is_told() {
    let mut publication = Publication::new(2).unwrap();
    assert!(publication.step() == PublishStep::Publish { entry: 0 });
    publication = publication.done(Ok(()));
    publication = publication.done(Err(IoErrorKind::StorageFull));
    assert!(publication.step() == PublishStep::TakeBack { entry: 0 });
    publication = publication.done(Err(IoErrorKind::PermissionDenied));
    assert!(
        publication.step()
            == PublishStep::Finished(Err(ReceiveStagingError::Rollback(
                IoErrorKind::PermissionDenied
            )))
    );
    assert_eq!(publication.visible, 1);
    assert!(matches!(
        Publication::new(0),
        Err(ReceiveStagingError::EmptyOutput)
    ));
}

#[test]
fn leftover_staging_is_reported_after_publishing() {
    let mut publication = Publication::new(1).unwrap().done(Ok(()));
    assert!(publication.step() == PublishStep::RemoveStaging);
    publication = publication.done(Err(IoErrorKind::DirectoryNotEmpty));
    match publication.step() {
        PublishStep::Finished(Ok(report)) => assert!(report.cleanup_failed()),
        _ => panic!("publishing did not finish"),
    }
}

#[test]
fn staging_directories_are_known_by_name() {
    let staging = ReceiveStaging::create("/in", TransferId::from_bits(7), Vec::new());
    assert_eq!(
        staging.relative_path(),
        ".drift-staging-00000000-0000-0000-0000-000000000007"
    );
    assert_eq!(
        staging.path(),
        "/in/.drift-staging-00000000-0000-0000-0000-000000000007"
    );
    assert!(is_receive_staging_path(staging.relative_path()));
    assert!(is_receive_staging_path(".drift-staging-x/"));
    assert!(is_receive_staging_path(".drift-staging-x/."));
    assert!(!is_receive_staging_path("a/.drift-staging-x"));
    assert!(!is_receive_staging_path("./.drift-staging-x"));
    assert!(!is_receive_staging_path("partial.bin"));
    assert_eq!(
        staging.description(),
        "ReceiveStaging { destination_configured: true, staging_configured: true }"
    );
    assert_eq!(
        staging.cleanup(Ok(EntryKind::Symlink)),
        Err(ReceiveStagingError::SymlinkOutput)
    );
    assert_eq!(
        staging.cleanup(Ok(EntryKind::Directory)),
        Ok(CleanupStep::RemoveTree)
    );
    assert_eq!(
        staging.cleanup(Err(IoErrorKind::NotFound)),
        Ok(CleanupStep::Nothing)
    );
}

fn state(id: TransferId, temp_file_path: Option<&str>) -> ResumeState {
    ResumeState {
        schema_version: RESUME_SCHEMA_VERSION,
        transfer_id: id,
        backend: "croc".into(),
        backend_version: Some("11.2.x".into()),
        capabilities: ResumeCapabilities {
            pause: false,
            resume: false,
        },
        request: ResumeRequest::Receive {
            output_directory: "/tmp/receive".into(),
        },
        manifest: None,
        file_id: 3,
        chunk_size: 4,
        file_size: 10,
        completed_chunks: vec![0, 2],
        file_digest: Some("digest".into()),
        temp_file_path: temp_file_path.map(str::to_owned),
    }
}

#[test]
fn round_trips_resume_state_and_removes_it() {
    let store = JsonStore::new("/state".into());
    let id = TransferId::from_bits(9);
    let saved = state(id, Some("partial.bin"));
    assert!(matches!(store.save_resume(&saved), Ok(SaveStage::CreateRoot)));
    assert_eq!(
        store.resume_path(id),
        "/state/00000000-0000-0000-0000-000000000009.resume.json"
    );
    assert_eq!(
        store.temporary_path(id),
        "/state/00000000-0000-0000-0000-000000000009.resume.resume.json.tmp"
    );
    let loaded = store
        .load_resume(ResumeRead::Parsed(saved.clone()))
        .unwrap();
    assert!(loaded == Some(saved));
    assert_eq!(store.remove_resume(Ok(())), Ok(()));
    assert_eq!(store.remove_resume(Err(IoErrorKind::NotFound)), Ok(()));
    assert!(store.load_resume(ResumeRead::Missing).unwrap().is_none());
}

#[test]
fn saving_replaces_what_is_in_the_way_once() {
    let blocked = Err(StorageError::Io(IoErrorKind::AlreadyExists));
    let mut stage = SaveStage::CreateRoot;
    for (outcome, next) in [
        (Ok(()), SaveStage::WriteTemporary),
        (Ok(()), SaveStage::Rename),
        (blocked, SaveStage::RemoveOld),
        (Ok(()), SaveStage::RenameAgain),
    ] {
        stage = stage.next(outcome).unwrap();
        assert_eq!(stage, next);
    }
    assert_eq!(stage.next(Ok(())), Ok(SaveStage::Saved));
    assert_eq!(
        stage.next(blocked),
        Err(StorageError::Io(IoErrorKind::AlreadyExists))
    );
    assert_eq!(
        SaveStage::WriteTemporary.next(Err(StorageError::Serialization)),
        Err(StorageError::Serialization)
    );
}

#[test]
fn invalid_metadata_is_neither_saved_nor_loaded() {
    let store = JsonStore::new("/state".into());
    let mut invalid = state(TransferId::new(), None);
    invalid.chunk_size = 0;
    assert!(matches!(
        store.save_resume(&invalid),
        Err(StorageError::InvalidResume(_))
    ));
    assert!(matches!(
        store.load_resume(ResumeRead::Parsed(invalid)),
        Err(StorageError::InvalidResume(_))
    ));
    assert!(matches!(
        store.load_resume(ResumeRead::Unparsable),
        Err(StorageError::Serialization)
    ));
    assert!(matches!(
        store.load_resume(ResumeRead::Failed(IoErrorKind::PermissionDenied)),
        Err(StorageError::Io(IoErrorKind::PermissionDenied))
    ));
}

#[test]
fn discovers_valid_resume_and_counts_corrupt_metadata() {
    let id = TransferId::new();
    let file = FileEntry::new("source.bin", 10).unwrap();
    let manifest = TransferManifest::new(id, vec![file.clone()]).unwrap();
    let saved = ResumeState {
        request: ResumeRequest::Send {
            source_paths: vec!["source.bin".into()],
        },
        manifest: Some(manifest),
        file_id: file.file_id,
        file_digest: None,
        ..state(id, Some("partial.bin"))
    };
    let discovery = JsonStore::new("/store".to_owned()).discover_resumes(Ok(vec![
        ResumeRead::Parsed(saved.clone()),
        ResumeRead::Unparsable,
    ]))
    .ok()
    .unwrap();
    assert!(discovery.recoverable() == [saved]);
    assert_eq!(discovery.invalid_count(), 1);
}

#[test]
fn discovery_is_in_the_order_of_the_identifiers() {
    let ids = [30u128, 10, 20];
    let reads = ids
        .iter()
        .map(|bits| ResumeRead::Parsed(state(TransferId::from_bits(*bits), None)))
        .chain([ResumeRead::Missing])
        .collect();
    let discovery = JsonStore::new("/store".to_owned()).discover_resumes(Ok(reads)).ok().unwrap();
    let found: Vec<u128> = discovery
        .recoverable()
        .iter()
        .map(|state| state.transfer_id.as_uuid())
        .collect();
    assert_eq!(found, vec![10, 20, 30]);
    assert_eq!(discovery.invalid_count(), 0);
    let empty = JsonStore::new("/store".to_owned()).discover_resumes(Err(IoErrorKind::NotFound))
        .ok()
        .unwrap();
    assert!(empty.recoverable().is_empty());
    assert_eq!(
        JsonStore::new("/store".to_owned()).discover_resumes(Ok(vec![
            ResumeRead::Failed(IoErrorKind::Interrupted),
            ResumeRead::Failed(IoErrorKind::Other),
        ]))
        .err(),
        Some(StorageError::Io(IoErrorKind::Interrupted))
    );
    assert!(is_resume_file("a.resume.json"));
    assert!(!is_resume_file("a.resume.json.tmp"));
}

#[test]
fn discarding_resume_removes_explicitly_owned_partial_file_and_metadata() {
    let store = JsonStore::new("/state".into());
    let loaded = Ok(Some(state(TransferId::new(), Some("partial.bin"))));
    assert_eq!(
        store.discard_resume(&loaded, &Vec::new()),
        Ok(Some("/state/partial.bin".to_owned()))
    );
    let kind = EntryKind::File {
        size: 7,
        modified_at: None,
        mode: 0o600,
    };
    assert_eq!(plan_partial_removal(Ok(kind)), Ok(PartialStep::RemoveFile));
}

#[test]
fn discarding_croc_resume_preserves_unowned_partial_path() {
    let store = JsonStore::new("/state".into());
    let loaded = Ok(Some(state(TransferId::new(), None)));
    assert_eq!(store.discard_resume(&loaded, &Vec::new()), Ok(None));
}

#[test]
fn staged_partials_are_discarded_from_a_sound_destination() {
    let store = JsonStore::new("/state".into());
    let loaded = Ok(Some(state(TransferId::new(), Some(".drift-staging-1"))));
    let sound = vec![Ancestor {
        probe: ComponentProbe::Directory,
        is_destination: true,
    }];
    let link = vec![Ancestor {
        probe: ComponentProbe::Symlink {
            leads_to_directory: true,
        },
        is_destination: true,
    }];
    assert_eq!(
        store.discard_resume(&loaded, &sound),
        Ok(Some("/tmp/receive/.drift-staging-1".to_owned()))
    );
    assert_eq!(
        store.discard_resume(&loaded, &link),
        Ok(Some("/state/.drift-staging-1".to_owned()))
    );
    assert_eq!(
        store.discard_resume(&Err(StorageError::Serialization), &sound),
        Ok(None)
    );
    assert_eq!(
        store.discard_resume(&Err(StorageError::Io(IoErrorKind::Other)), &sound),
        Err(StorageError::Io(IoErrorKind::Other))
    );
    assert_eq!(
        plan_partial_removal(Ok(EntryKind::Directory)),
        Ok(PartialStep::RemoveTree)
    );
    assert_eq!(
        plan_partial_removal(Ok(EntryKind::Symlink)),
        Ok(PartialStep::RemoveFile)
    );
    assert_eq!(
        plan_partial_removal(Err(IoErrorKind::NotFound)),
        Ok(PartialStep::Nothing)
    );
}

#[test]
fn errors_about_storage_have_fixed_texts() {
    assert_eq!(
        StorageError::Io(IoErrorKind::Other).message(),
        "storage I/O failed"
    );
    assert_eq!(
        DestinationError::NotWritable.message(),
        "destination path is not writable"
    );
    assert_eq!(
        ReceiveStagingError::Conflict.message(),
        "receive output conflicts with an existing destination entry"
    );
    assert_eq!(
        SourceScanError::TooManyEntries.message().is_empty(),
        false
    );
}
