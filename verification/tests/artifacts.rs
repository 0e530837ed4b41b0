use dx_build::artifacts::{
    flock, temporary_extension, Action, Artifacts, Event, Failure, Marker, Step, Turn,
};
use dx_build::publication::{Attempt, Event as Written, Publication, Refusal, Stage};
use dx_build::scrub::{
    group_key, modified, scrub, scrub_groups, tree_touched, BuildDir, Fault, Folder, Listing, Node,
    Removal, Stat,
};
use std::collections::BTreeMap;

/// A file system in memory: the paths of files and directories, with their times.
struct Disk {
    files: BTreeMap<String, i128>,
    dirs: BTreeMap<String, i128>,
    /// Build directory, artifact directory and time of the marker that is published.
    marker: Option<(String, Option<String>, i128)>,
    now: i128,
    paths: Vec<String>,
    broken: Option<Step>,
    log: Vec<String>,
}

impl Disk {
    fn new() -> Self {
        Disk {
            files: BTreeMap::new(),
            dirs: BTreeMap::new(),
            marker: None,
            now: 100,
            paths: vec![],
            broken: None,
            log: vec![],
        }
    }

    fn put(&mut self, path: &str) {
        self.now += 1;
        let mut at = path.to_string();
        self.files.insert(at.clone(), self.now);
        while let Some((parent, _)) = at.clone().rsplit_once('/') {
            let new = !self.dirs.contains_key(parent);
            if new || at == path {
                self.dirs.insert(parent.to_string(), self.now);
            }
            at = parent.to_string();
        }
    }

    fn holds(&self, path: &str) -> bool {
        self.files.contains_key(path) || self.dirs.contains_key(path)
    }

    fn id(&mut self, path: &str) -> u64 {
        self.paths.push(path.to_string());
        (self.paths.len() - 1) as u64
    }

    fn node(&mut self, path: &str) -> Node {
        let stat = match self.dirs.get(path).copied() {
            Some(time) => Stat::Found {
                modified: Some(time),
                listing: Some(self.listing(path)),
            },
            None => Stat::Found { modified: Some(self.files[path]), listing: None },
        };
        let name = path.rsplit_once('/').map(|(_, name)| name.to_string());
        Node { id: self.id(path), name, stat }
    }

    fn listing(&mut self, dir: &str) -> Listing {
        if !self.dirs.contains_key(dir) {
            return Listing::Missing;
        }
        let children: Vec<String> = self
            .files
            .keys()
            .chain(self.dirs.keys())
            .filter(|path| path.rsplit_once('/').map(|(parent, _)| parent) == Some(dir))
            .cloned()
            .collect();
        Listing::Entries(children.iter().map(|path| self.node(path)).collect())
    }

    fn folder(&mut self, path: &str) -> Folder {
        Folder { id: self.id(path), listing: self.listing(path) }
    }

    fn build_dir(&mut self, dir: &str) -> BuildDir {
        BuildDir {
            exists: self.dirs.contains_key(dir),
            deps: self.folder(&format!("{dir}/deps")),
            examples: self.folder(&format!("{dir}/examples")),
            build: self.folder(&format!("{dir}/build")),
            fingerprint: self.folder(&format!("{dir}/.fingerprint")),
            incremental: self.folder(&format!("{dir}/incremental")),
            top: self.folder(dir),
        }
    }

    fn scrub(&mut self, dir: &str, since: i128) {
        let tree = self.build_dir(dir);
        let mut removals: Vec<Removal> = vec![];
        scrub(&tree, since, &mut removals).unwrap();
        for removal in removals {
            match removal {
                Removal::File(id) => {
                    self.files.remove(&self.paths[id as usize]);
                }
                Removal::Tree(id) => {
                    let root = self.paths[id as usize].clone();
                    let below = format!("{root}/");
                    self.files.retain(|path, _| !path.starts_with(&below));
                    self.dirs.retain(|path, _| !path.starts_with(&below) && *path != root);
                }
            }
        }
    }

    fn start(&mut self, build: &str, target: &str) -> Result<Artifacts, Failure> {
        let mut artifacts = Artifacts::start(true, build.to_string(), target.to_string());
        loop {
            let event = match artifacts.action() {
                Action::Nothing => return Ok(artifacts),
                Action::ReadMarker => {
                    self.log.push("read".to_string());
                    Event::Attempted(match self.marker {
                        Some(_) => Attempt::Done,
                        None => Attempt::Missing,
                    })
                }
                Action::ReadTime => Event::Time(self.marker.as_ref().map(|marker| marker.2)),
                Action::DecodeMarker => Event::Decoded(self.marker.as_ref().map(|marker| Marker {
                    build: marker.0.clone(),
                    target: marker.1.clone(),
                })),
                Action::Lock { dir, lock } => {
                    self.log.push(format!("lock {dir}/{lock}"));
                    self.attempt(Step::LockBuild)
                }
                Action::Scrub { dir, since } => {
                    self.log.push(format!("scrub {dir}"));
                    let dir = dir.to_string();
                    self.scrub(&dir, since);
                    self.attempt(Step::ScrubBuild)
                }
                Action::RemoveMarker => {
                    self.log.push("remove".to_string());
                    self.marker = None;
                    Event::Attempted(Attempt::Done)
                }
                Action::Unlock => {
                    self.log.push("unlock".to_string());
                    Event::Attempted(Attempt::Done)
                }
                Action::Publish(Stage::Encode) => {
                    Event::Written(Written::Encoded(Some(vec![0x7b, 0x7d])))
                }
                Action::Publish(Stage::Replace) => {
                    self.log.push("publish".to_string());
                    self.now += 1;
                    assert_eq!(artifacts.payload(), &vec![0x7b, 0x7d, 0x0a]);
                    let marker = artifacts.marker();
                    self.marker = Some((marker.build.clone(), marker.target.clone(), self.now));
                    Event::Written(Written::Attempted(Attempt::Done))
                }
                Action::Publish(_) => Event::Written(Written::Attempted(Attempt::Done)),
            };
            artifacts.resume(event)?;
        }
    }

    fn remove_marker(&mut self) -> Attempt {
        match self.marker.take() {
            Some(_) => Attempt::Done,
            None => Attempt::Missing,
        }
    }

    fn attempt(&self, step: Step) -> Event {
        Event::Attempted(if self.broken == Some(step) {
            Attempt::Failed
        } else {
            Attempt::Done
        })
    }
}

#[test]
fn interrupted_generation_invalidates_touched_groups_and_units() {
    let mut disk = Disk::new();
    let keep = "root/build/deps/libkeep-123.rlib";
    disk.put(keep);
    let artifacts = disk.start("root/build", "root/target").unwrap();
    let written = [
        "root/build/deps/libchanged-456.rlib",
        "root/build/deps/libchanged-456.rmeta",
        "root/build/incremental/changed/s-1/dep-graph.bin",
        "root/build/.fingerprint/changed-456/invoked.timestamp",
        "root/target/render.wasm",
    ];
    for path in written {
        disk.put(path);
    }
    drop(artifacts);

    let recovered = disk.start("root/build", "root/target").unwrap();
    assert!(disk.holds(keep));
    for path in written {
        assert!(!disk.holds(path), "{path} survived recovery");
    }
    assert_eq!(recovered.finish(disk.remove_marker()), Ok(()));
    assert!(disk.marker.is_none());
}

#[test]
fn ordinary_settlement_preserves_outputs() {
    let mut disk = Disk::new();
    let artifacts = disk.start("root/build", "root/target").unwrap();
    let output = "root/target/render.wasm";
    disk.put(output);
    assert_eq!(artifacts.finish(disk.remove_marker()), Ok(()));
    assert!(disk.holds(output));
    assert!(disk.marker.is_none());
    disk.log.clear();
    disk.start("root/build", "root/target").unwrap();
    assert!(disk.holds(output));
    assert_eq!(disk.log, vec!["read", "publish"]);
}

#[test]
fn recovery_locks_scrubs_and_clears_in_order() {
    let mut disk = Disk::new();
    disk.start("a/build", "a/target").unwrap();
    disk.log.clear();
    disk.start("b/build", "b/build/").unwrap();
    assert_eq!(
        disk.log,
        vec![
            "read",
            "lock a/build/.cargo-build-lock",
            "lock a/target/.cargo-artifact-lock",
            "scrub a/build",
            "scrub a/target",
            "remove",
            "unlock",
            "publish",
        ]
    );
    assert_eq!(disk.marker.as_ref().unwrap().1, None);
    disk.log.clear();
    disk.start("c", "d").unwrap();
    assert_eq!(
        disk.log,
        vec![
            "read",
            "lock b/build/.cargo-build-lock",
            "scrub b/build",
            "remove",
            "unlock",
            "publish",
        ]
    );
}

#[test]
fn the_marker_outlives_a_recovery_that_fails() {
    for step in [Step::LockBuild, Step::ScrubBuild] {
        let mut disk = Disk::new();
        disk.start("a", "b").unwrap();
        disk.broken = Some(step);
        match disk.start("a", "b") {
            Err(Failure::Failed(failed)) => assert_eq!(failed, step),
            _ => panic!("the recovery went on"),
        }
        assert!(disk.marker.is_some());
    }
}

#[test]
fn starting_fails_where_an_operation_does() {
    let begin = || Artifacts::start(true, "a".to_string(), "b".to_string());

    let mut artifacts = begin();
    assert_eq!(artifacts.resume(Event::Time(Some(1))), Err(Failure::OutOfTurn));
    assert_eq!(artifacts.resume(Event::Decoded(None)), Err(Failure::OutOfTurn));
    assert_eq!(
        artifacts.resume(Event::Written(Written::Attempted(Attempt::Done))),
        Err(Failure::OutOfTurn)
    );
    assert_eq!(
        artifacts.resume(Event::Attempted(Attempt::Failed)),
        Err(Failure::Failed(Step::ReadMarker))
    );
    assert!(matches!(artifacts.action(), Action::Nothing));
    assert_eq!(
        artifacts.resume(Event::Attempted(Attempt::Done)),
        Err(Failure::OutOfTurn)
    );

    let mut artifacts = begin();
    artifacts.resume(Event::Attempted(Attempt::Done)).unwrap();
    assert_eq!(
        artifacts.resume(Event::Time(None)),
        Err(Failure::Failed(Step::ReadTime))
    );

    let mut artifacts = begin();
    artifacts.resume(Event::Attempted(Attempt::Done)).unwrap();
    artifacts.resume(Event::Time(Some(5))).unwrap();
    assert_eq!(
        artifacts.resume(Event::Decoded(None)),
        Err(Failure::Failed(Step::Decode))
    );

    let mut artifacts = begin();
    artifacts.resume(Event::Attempted(Attempt::Missing)).unwrap();
    assert!(matches!(
        artifacts.action(),
        Action::Publish(Stage::CreateParent)
    ));
    assert_eq!(
        artifacts.resume(Event::Written(Written::Attempted(Attempt::Failed))),
        Err(Failure::Unpublished(Stage::CreateParent))
    );

    let mut orphan = Artifacts::start(false, "a".to_string(), "b".to_string());
    assert_eq!(
        orphan.resume(Event::Attempted(Attempt::Missing)),
        Err(Failure::NoParent)
    );
}

#[test]
fn finishing_bears_a_marker_that_is_gone() {
    let start = || Disk::new().start("a", "b").unwrap();
    assert_eq!(start().finish(Attempt::Done), Ok(()));
    assert_eq!(start().finish(Attempt::Missing), Ok(()));
    assert_eq!(
        start().finish(Attempt::Failed),
        Err(Failure::Failed(Step::RemoveMarker))
    );
    let unstarted = Artifacts::start(true, "a".to_string(), "b".to_string());
    assert_eq!(unstarted.finish(Attempt::Done), Err(Failure::OutOfTurn));
}

#[test]
fn files_of_one_compilation_share_a_key() {
    for name in [
        "libchanged-456.rlib",
        "libchanged-456.rmeta",
        "libchanged-456.so",
        "libchanged-456.dylib",
        "libchanged-456.a",
        "libchanged-456.so.1",
        "changed-456.d",
        "changed-456",
        "changed-456.rcgu.o",
    ] {
        assert_eq!(group_key(name), "changed-456", "{name}");
    }
    assert_eq!(group_key("changed-456.o"), "changed-456");
    assert_eq!(group_key("libchanged.d"), "libchanged");
    assert_eq!(group_key("libchanged"), "libchanged");
    assert_eq!(group_key("li.rlib"), "li");
    assert_eq!(group_key("lib.rlib"), "");
    assert_eq!(group_key(".rlib"), "");
    assert_eq!(group_key(""), "");
}

fn file(id: u64, name: &str, time: i128) -> Node {
    Node {
        id,
        name: Some(name.to_string()),
        stat: Stat::Found { modified: Some(time), listing: None },
    }
}

fn dir(id: u64, time: i128, listing: Listing) -> Node {
    Node {
        id,
        name: Some(format!("dir-{id}")),
        stat: Stat::Found { modified: Some(time), listing: Some(listing) },
    }
}

fn broken(id: u64, stat: Stat) -> Node {
    Node { id, name: Some(format!("broken-{id}")), stat }
}

fn nowhere() -> Folder {
    Folder { id: 0, listing: Listing::Missing }
}

fn empty() -> BuildDir {
    BuildDir {
        exists: true,
        deps: nowhere(),
        examples: nowhere(),
        build: nowhere(),
        fingerprint: nowhere(),
        incremental: nowhere(),
        top: nowhere(),
    }
}

fn plan(tree: &BuildDir) -> (Vec<Removal>, Result<(), Fault>) {
    let mut out: Vec<Removal> = vec![];
    let result = scrub(tree, 10, &mut out);
    (out, result)
}

#[test]
fn a_group_goes_whole_and_directories_go_first() {
    let inner = Listing::Entries(vec![file(6, "x.d", 11), file(7, "y.d", 1)]);
    let listing = Listing::Entries(vec![
        file(1, "liba-1.rlib", 1),
        file(2, "a-1.d", 10),
        file(3, "b-1.d", 9),
        dir(4, 99, inner),
        Node {
            id: 5,
            name: None,
            stat: Stat::Found { modified: Some(99), listing: None },
        },
        broken(8, Stat::Missing),
        Node {
            id: 9,
            name: Some("b-1.o".to_string()),
            stat: Stat::Found { modified: None, listing: None },
        },
    ]);
    let mut out: Vec<Removal> = vec![];
    assert_eq!(scrub_groups(0, &listing, 10, &mut out), Ok(()));
    assert_eq!(
        out,
        vec![Removal::File(6), Removal::File(1), Removal::File(2)]
    );
}

#[test]
fn a_fault_ends_the_removals_where_it_is_met() {
    let touched = || Listing::Entries(vec![file(1, "x.d", 20)]);
    let tree = BuildDir {
        deps: Folder {
            id: 50,
            listing: Listing::Entries(vec![
                dir(2, 0, touched()),
                broken(3, Stat::Failed),
                dir(4, 0, touched()),
                file(5, "own.d", 20),
            ]),
        },
        ..empty()
    };
    assert_eq!(plan(&tree), (vec![Removal::File(1)], Err(Fault::Stat(3))));

    let tree = BuildDir {
        deps: Folder { id: 50, listing: touched() },
        examples: Folder { id: 51, listing: Listing::Failed },
        top: Folder { id: 52, listing: touched() },
        ..empty()
    };
    assert_eq!(plan(&tree), (vec![Removal::File(1)], Err(Fault::List(51))));

    let tree = BuildDir {
        deps: Folder {
            id: 50,
            listing: Listing::Entries(vec![dir(2, 0, Listing::Failed)]),
        },
        ..empty()
    };
    assert_eq!(plan(&tree), (vec![], Err(Fault::List(2))));
}

#[test]
fn units_go_by_what_is_touched_within() {
    let deep = dir(1, 0, Listing::Entries(vec![dir(2, 0, Listing::Entries(vec![file(3, "f", 10)]))]));
    assert_eq!(tree_touched(&deep, 10), Ok(true));
    assert_eq!(tree_touched(&deep, 9), Ok(true));
    assert_eq!(tree_touched(&deep, 11), Ok(false));
    assert_eq!(tree_touched(&broken(1, Stat::Missing), 10), Ok(false));
    assert_eq!(tree_touched(&broken(1, Stat::Failed), 10), Err(Fault::Stat(1)));
    assert_eq!(tree_touched(&dir(1, 9, Listing::Failed), 10), Err(Fault::List(1)));
    // What is touched itself is not looked into.
    assert_eq!(tree_touched(&dir(1, 10, Listing::Failed), 10), Ok(true));
    assert_eq!(tree_touched(&dir(1, 9, Listing::Missing), 10), Ok(false));
    // The first entry that settles it does.
    let mixed = dir(1, 0, Listing::Entries(vec![file(2, "f", 10), broken(3, Stat::Failed)]));
    assert_eq!(tree_touched(&mixed, 10), Ok(true));

    let tree = BuildDir {
        build: Folder {
            id: 50,
            listing: Listing::Entries(vec![deep, file(4, "g", 10), file(5, "h", 9)]),
        },
        ..empty()
    };
    assert_eq!(plan(&tree), (vec![Removal::Tree(1), Removal::File(4)], Ok(())));
}

#[test]
fn cargos_own_entries_stay() {
    let own = [
        ".cargo-build-lock",
        ".cargo-artifact-lock",
        ".cargo-lock",
        ".fingerprint",
        "build",
        "deps",
        "examples",
        "incremental",
    ];
    let mut entries: Vec<Node> = vec![];
    for name in own {
        entries.push(file(1, name, 99));
    }
    // A lock that cannot be looked up is not looked up.
    entries.push(Node {
        id: 2,
        name: Some(".cargo-lock".to_string()),
        stat: Stat::Failed,
    });
    entries.push(file(3, "render.wasm", 10));
    entries.push(file(4, "old.wasm", 9));
    entries.push(dir(5, 99, Listing::Missing));
    entries.push(Node {
        id: 6,
        name: None,
        stat: Stat::Found { modified: Some(10), listing: None },
    });
    let tree = BuildDir {
        top: Folder { id: 50, listing: Listing::Entries(entries) },
        ..empty()
    };
    assert_eq!(plan(&tree), (vec![Removal::File(3), Removal::File(6)], Ok(())));
    assert_eq!(plan(&BuildDir { exists: false, ..tree }), (vec![], Ok(())));
}

#[test]
fn an_untouched_directory_is_left_as_it_is() {
    let tree = BuildDir {
        deps: Folder { id: 50, listing: Listing::Entries(vec![file(1, "a.d", 9)]) },
        build: Folder { id: 51, listing: Listing::Entries(vec![dir(2, 9, Listing::Missing)]) },
        top: Folder { id: 52, listing: Listing::Entries(vec![file(3, "a", 9)]) },
        ..empty()
    };
    assert_eq!(plan(&tree), (vec![], Ok(())));
    assert!(modified(Some(10), 10));
    assert!(!modified(Some(9), 10));
    assert!(!modified(None, 10));
}

#[test]
fn a_text_is_published_whole() {
    let mut publication = Publication::new(true);
    let mut stages: Vec<Stage> = vec![];
    while publication.stage() != Stage::Published {
        stages.push(publication.stage());
        let event = match publication.stage() {
            Stage::Encode => Written::Encoded(Some(vec![1, 2])),
            _ => Written::Attempted(Attempt::Done),
        };
        publication.resume(event).unwrap();
    }
    assert_eq!(
        stages,
        vec![
            Stage::CreateParent,
            Stage::Encode,
            Stage::CreateTemporary,
            Stage::Write,
            Stage::Sync,
            Stage::Replace,
            Stage::SyncParent,
        ]
    );
    assert_eq!(publication.payload(), &vec![1, 2, 10]);
    assert_eq!(
        publication.resume(Written::Attempted(Attempt::Done)),
        Err(Refusal::OutOfTurn)
    );
}

#[test]
fn a_reader_finds_the_old_text_or_the_whole_new_one() {
    for cut_off in 0..8 {
        let mut publication = Publication::new(true);
        let mut target = "old".to_string();
        let mut temporary = String::new();
        for step in 0..7 {
            let failed = step == cut_off;
            let event = match publication.stage() {
                Stage::Encode if failed => Written::Encoded(None),
                Stage::Encode => Written::Encoded(Some("new".as_bytes().to_vec())),
                _ if failed => Written::Attempted(Attempt::Failed),
                Stage::Write => {
                    temporary = String::from_utf8(publication.payload().clone()).unwrap();
                    Written::Attempted(Attempt::Done)
                }
                Stage::Replace => {
                    target = temporary.clone();
                    Written::Attempted(Attempt::Done)
                }
                _ => Written::Attempted(Attempt::Done),
            };
            assert_eq!(publication.resume(event).is_ok(), !failed);
            assert!(target == "old" || target == "new\n");
            if failed {
                assert_eq!(publication.stage(), Stage::Abandoned);
                break;
            }
        }
        assert_eq!(target == "new\n", cut_off > 5, "{cut_off}");
        assert_eq!(publication.stage() == Stage::Published, cut_off == 7);
    }
}

#[test]
fn a_publication_that_fails_goes_no_further() {
    let mut publication = Publication::new(false);
    assert_eq!(
        publication.resume(Written::Encoded(Some(vec![]))),
        Err(Refusal::OutOfTurn)
    );
    publication.resume(Written::Attempted(Attempt::Done)).unwrap();
    assert_eq!(
        publication.resume(Written::Encoded(None)),
        Err(Refusal::Failed(Stage::Encode))
    );
    assert_eq!(publication.stage(), Stage::Abandoned);

    let mut publication = Publication::new(false);
    assert_eq!(
        publication.resume(Written::Attempted(Attempt::Missing)),
        Err(Refusal::Failed(Stage::CreateParent))
    );
}

#[test]
fn the_temporary_file_is_the_processs_own() {
    assert_eq!(temporary_extension(4711), "json.4711.tmp");
}

#[test]
fn an_interrupted_call_for_a_lock_is_made_again() {
    assert_eq!(flock(0, false), Turn::Held);
    assert_eq!(flock(0, true), Turn::Held);
    assert_eq!(flock(-1, true), Turn::Again);
    assert_eq!(flock(-1, false), Turn::Refused);
}
