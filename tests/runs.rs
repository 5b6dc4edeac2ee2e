use std::collections::BTreeMap;

use flattener::entry::{order_entries, Entry, Kind};
use flattener::walker::{flatten, Action, Event, FlattenError, Walker};

/// A small in-memory filesystem: each path is a directory (`true`) or a file.
struct Fs {
    nodes: BTreeMap<String, bool>,
    overwrite: bool,
}

impl Fs {
    fn new(paths: &[&str]) -> Fs {
        let mut nodes = BTreeMap::new();
        for p in paths {
            let is_dir = p.ends_with('/');
            let p = p.trim_end_matches('/');
            let parts: Vec<&str> = p.split('/').collect();
            for i in 1..parts.len() {
                nodes.insert(parts[..i].join("/"), true);
            }
            nodes.insert(p.to_string(), is_dir);
        }
        Fs { nodes, overwrite: false }
    }

    fn children(&self, dir: &str) -> Vec<String> {
        let prefix = format!("{}/", dir);
        self.nodes
            .keys()
            .filter(|k| k.starts_with(&prefix) && !k[prefix.len()..].contains('/'))
            .cloned()
            .collect()
    }

    fn list(&self, dir: &str) -> Option<Vec<Entry>> {
        if self.nodes.get(dir) != Some(&true) {
            return None;
        }
        let mut out = Vec::new();
        for c in self.children(dir) {
            let kind = if !self.nodes[&c] {
                Kind::File
            } else if self.children(&c).is_empty() {
                Kind::EmptyDir
            } else {
                Kind::Dir
            };
            let name = c.rsplit('/').next().unwrap().to_string();
            out.push(Entry::new(c.clone(), name, kind));
        }
        Some(out)
    }

    fn remove_dir(&mut self, dir: &str) -> bool {
        if self.nodes.get(dir) == Some(&true) && self.children(dir).is_empty() {
            self.nodes.remove(dir);
            true
        } else {
            false
        }
    }

    fn rename(&mut self, from: &str, to: &str) -> bool {
        if self.nodes.contains_key(to) && !self.overwrite {
            return false;
        }
        self.nodes.remove(from);
        self.nodes.insert(to.to_string(), false);
        true
    }

    fn paths(&self) -> Vec<String> {
        self.nodes.keys().cloned().collect()
    }
}

/// Runs a flatten over `fs`, returning the outcome and the actions asked for.
fn run(fs: &mut Fs, root: &str, dry_run: bool) -> (Result<(), FlattenError>, Vec<Action>) {
    let exists = fs.nodes.contains_key(root);
    let mut w: Walker = match flatten(root.to_string(), exists, dry_run) {
        Ok(w) => w,
        Err(e) => return (Err(e), Vec::new()),
    };
    let mut log = Vec::new();
    loop {
        let a = w.next_action();
        let e = match &a {
            Action::List { path, .. } => match fs.list(path) {
                Some(es) => Event::Listed(es),
                None => Event::ListingFailed,
            },
            Action::RemoveEmpty { path } | Action::RemoveDrained { path } => Event::Outcome(fs.remove_dir(path)),
            Action::Move { from, to_dir, name } => Event::Outcome(fs.rename(from, &format!("{}/{}", to_dir, name))),
            Action::Check { path } => Event::Outcome(fs.nodes.get(path.as_str()) == Some(&true)),
            Action::Finished => return (Ok(()), log),
            _ => Event::Outcome(true),
        };
        log.push(a);
        assert!(w.accepts(&e));
        if let Err(err) = w.step(e) {
            return (Err(err), log);
        }
    }
}

fn strs(v: &[&str]) -> Vec<String> {
    v.iter().map(|s| s.to_string()).collect()
}

fn mutating(log: &[Action]) -> usize {
    log.iter()
        .filter(|a| matches!(a, Action::RemoveEmpty { .. } | Action::Move { .. } | Action::RemoveDrained { .. }))
        .count()
}

#[test]
fn file_moves_one_level_per_run() {
    let mut fs = Fs::new(&["root/a/b/c/file.txt"]);
    assert_eq!(run(&mut fs, "root", false).0, Ok(()));
    assert_eq!(fs.paths(), strs(&["root", "root/a", "root/a/b", "root/a/b/file.txt"]));
    assert_eq!(run(&mut fs, "root", false).0, Ok(()));
    assert_eq!(fs.paths(), strs(&["root", "root/a", "root/a/file.txt"]));
    assert_eq!(run(&mut fs, "root", false).0, Ok(()));
    assert_eq!(fs.paths(), strs(&["root", "root/file.txt"]));
    // Files directly in the root stay there.
    assert_eq!(run(&mut fs, "root", false).0, Ok(()));
    assert_eq!(fs.paths(), strs(&["root", "root/file.txt"]));
}

#[test]
fn first_level_files_reach_root() {
    let mut fs = Fs::new(&["root/a/x.txt", "root/a/y.txt", "root/z.txt"]);
    assert_eq!(run(&mut fs, "root", false).0, Ok(()));
    assert_eq!(fs.paths(), strs(&["root", "root/x.txt", "root/y.txt", "root/z.txt"]));
}

#[test]
fn flat_tree_is_a_fixed_point() {
    let mut fs = Fs::new(&["root/a/x.txt"]);
    run(&mut fs, "root", false);
    let once = fs.paths();
    let (r, log) = run(&mut fs, "root", false);
    assert_eq!(r, Ok(()));
    assert_eq!(fs.paths(), once);
    assert_eq!(mutating(&log), 0);
}

#[test]
fn empty_directories_are_pruned() {
    let mut fs = Fs::new(&["root/e/", "root/d/f/", "root/k.txt"]);
    assert_eq!(run(&mut fs, "root", false).0, Ok(()));
    assert_eq!(fs.paths(), strs(&["root", "root/k.txt"]));
}

#[test]
fn empty_root_is_removed() {
    let mut fs = Fs::new(&["root/"]);
    let (r, log) = run(&mut fs, "root", false);
    assert_eq!(r, Ok(()));
    assert!(fs.paths().is_empty());
    assert!(matches!(&log[1], Action::RemoveEmpty { path } if path == "root"));
}

#[test]
fn dry_run_changes_nothing() {
    let mut fs = Fs::new(&["root/a/b/c/file.txt", "root/e/", "root/a/x.txt", "root/y.txt"]);
    let before = fs.paths();
    let (r, log) = run(&mut fs, "root", true);
    assert_eq!(r, Ok(()));
    assert_eq!(fs.paths(), before);
    assert_eq!(mutating(&log), 0);
    assert!(log.iter().any(|a| matches!(a, Action::SkipMove { .. })));
    assert!(log.iter().any(|a| matches!(a, Action::ReportEmpty { .. })));
    assert!(log.iter().any(|a| matches!(a, Action::SkipRemove { .. })));
}

#[test]
fn empty_sibling_visited_first() {
    // The filesystem lists "a" (holding a file) before the empty "z".
    let mut fs = Fs::new(&["root/p/a/f.txt", "root/p/z/"]);
    let listing = fs.list("root/p").unwrap();
    assert_eq!(listing[0].path, "root/p/a");
    let ordered = order_entries(&listing);
    assert_eq!(ordered[0].path, "root/p/z");
    assert_eq!(ordered[1].path, "root/p/a");

    let (r, log) = run(&mut fs, "root", false);
    assert_eq!(r, Ok(()));
    let removed_z = log.iter().position(|a| matches!(a, Action::RemoveEmpty { path } if path == "root/p/z")).unwrap();
    let moved_f = log.iter().position(|a| matches!(a, Action::Move { from, .. } if from == "root/p/a/f.txt")).unwrap();
    assert!(removed_z < moved_f);
}

#[test]
fn order_entries_keeps_groups_in_listing_order() {
    let es = vec![
        Entry::new("d1".to_string(), "d1".to_string(), Kind::Dir),
        Entry::new("f1".to_string(), "f1".to_string(), Kind::File),
        Entry::new("e1".to_string(), "e1".to_string(), Kind::EmptyDir),
        Entry::new("f2".to_string(), "f2".to_string(), Kind::File),
        Entry::new("e2".to_string(), "e2".to_string(), Kind::EmptyDir),
    ];
    let r: Vec<String> = order_entries(&es).into_iter().map(|e| e.path).collect();
    assert_eq!(r, strs(&["e1", "e2", "d1", "f1", "f2"]));
    assert!(order_entries(&Vec::new()).is_empty());
}

#[test]
fn missing_root_is_reported() {
    let mut fs = Fs::new(&["root/a.txt"]);
    let before = fs.paths();
    let (r, log) = run(&mut fs, "nowhere", false);
    assert_eq!(r, Err(FlattenError::PathNotFound));
    assert!(log.is_empty());
    assert_eq!(fs.paths(), before);
}

#[test]
fn drained_removal_failure_is_not_fatal() {
    // root/a still holds f.txt after draining (it arrived after root/a was
    // listed): its removal fails, and the run goes on with root/c.
    let mut fs = Fs::new(&["root/a/b/f.txt", "root/c/g.txt"]);
    let (r, log) = run(&mut fs, "root", false);
    assert_eq!(r, Ok(()));
    assert!(log.iter().any(|a| matches!(a, Action::RemoveDrained { path } if path == "root/a")));
    assert_eq!(fs.paths(), strs(&["root", "root/a", "root/a/f.txt", "root/g.txt"]));
}

#[test]
fn collision_with_overwriting_move() {
    let mut fs = Fs::new(&["root/a/file.txt", "root/file.txt"]);
    fs.overwrite = true;
    let (r, _) = run(&mut fs, "root", false);
    assert_eq!(r, Ok(()));
    assert_eq!(fs.paths(), strs(&["root", "root/file.txt"]));
}

#[test]
fn collision_with_refusing_move() {
    let mut fs = Fs::new(&["root/a/file.txt", "root/file.txt"]);
    let (r, _) = run(&mut fs, "root", false);
    assert_eq!(r, Err(FlattenError::RenameFailure));
    assert_eq!(fs.paths(), strs(&["root", "root/a", "root/a/file.txt", "root/file.txt"]));
}

#[test]
fn flattening_a_subtree_keeps_its_own_files() {
    let mut fs = Fs::new(&["root/a/file.txt", "root/file.txt"]);
    let (r, log) = run(&mut fs, "root/a", false);
    assert_eq!(r, Ok(()));
    assert_eq!(mutating(&log), 0);
}

#[test]
fn listing_failure_is_fatal() {
    let mut fs = Fs::new(&["root.txt"]);
    let (r, _) = run(&mut fs, "root.txt", false);
    assert_eq!(r, Err(FlattenError::ListingFailure));
}

#[test]
fn move_failure_is_fatal() {
    let mut fs = Fs::new(&["root/a/b/x.txt", "root/a/b/y.txt", "root/a/x.txt"]);
    let (r, log) = run(&mut fs, "root", false);
    assert_eq!(r, Err(FlattenError::RenameFailure));
    // The run stopped at the failed move: y.txt was never handled.
    assert!(matches!(log.last(), Some(Action::Move { from, .. }) if from == "root/a/b/x.txt"));
    assert!(fs.paths().contains(&"root/a/b/y.txt".to_string()));
}

#[test]
fn empty_directory_removal_failure_is_fatal() {
    let mut w = flatten("root".to_string(), true, false).unwrap();
    assert!(w.step(Event::Listed(Vec::new())).is_ok());
    assert!(matches!(w.next_action(), Action::RemoveEmpty { .. }));
    assert_eq!(w.step(Event::Outcome(false)), Err(FlattenError::RemovalFailure));
}

#[test]
fn root_files_are_kept() {
    let mut w = flatten("r".to_string(), true, false).unwrap();
    let es = vec![Entry::new("r/f".to_string(), "f".to_string(), Kind::File)];
    assert!(w.step(Event::Listed(es)).is_ok());
    assert!(matches!(w.next_action(), Action::Keep { path } if path == "r/f"));
    assert!(!w.accepts(&Event::ListingFailed));
    assert!(w.step(Event::Outcome(true)).is_ok());
    assert!(matches!(w.next_action(), Action::Finished));
    assert!(!w.accepts(&Event::Outcome(true)));
}

#[test]
fn existing_root_starts_the_run() {
    let w = flatten("root".to_string(), true, false).unwrap();
    assert!(matches!(w.next_action(), Action::List { path, parent: None } if path == "root"));
    assert!(flatten("root".to_string(), false, true).is_err());
}
