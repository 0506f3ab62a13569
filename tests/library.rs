use std::collections::HashSet;

use sync_kobo_and_workstation::coordinator::{
    destination_path, first_failure, resolve, skip_notice, CopyTask, CreateOutcome, Resolution,
};
use sync_kobo_and_workstation::defaults::{
    lookup_default_documents_directories, lookup_default_kobo_storage_directory, LookupError,
};
use sync_kobo_and_workstation::paths::{
    bytes_eq, extension_of, file_name_of, find_last, last_component_of, path_str, push_path,
    PathError,
};
use sync_kobo_and_workstation::report::summary_labels;
use sync_kobo_and_workstation::scanner::{default_extensions, matches_extension};
use sync_kobo_and_workstation::stats::{Statistic, Tally};

fn b(s: &str) -> Vec<u8> {
    s.as_bytes().to_vec()
}

/// One run through the library's decisions, with `existing` standing for the
/// destination directory's entries and an exclusive create on it.
fn simulate(
    paths: &[&str],
    dest_dir: &str,
    dry_run: bool,
    existing: &mut HashSet<Vec<u8>>,
) -> (Tally, Vec<CopyTask>) {
    let exts = default_extensions();
    let mut tally = Tally::new();
    let mut tasks = Vec::new();
    for p in paths {
        let path = b(p);
        if !matches_extension(&path, &exts) {
            continue;
        }
        assert!(tally.record(Statistic::FoundSrcDocument));
        let dest = match destination_path(&b(dest_dir), &path) {
            Some(d) => d,
            None => continue,
        };
        let outcome = if dry_run {
            CreateOutcome::NotAttempted
        } else if existing.insert(dest.clone()) {
            CreateOutcome::Created
        } else {
            CreateOutcome::AlreadyExists
        };
        let resolution = resolve(path, dest, dry_run, outcome);
        let stat = resolution.statistic().expect("no abort in a simulated run");
        assert!(tally.record(stat));
        if let Resolution::Dispatch(task) = resolution {
            tasks.push(task);
        }
    }
    (tally, tasks)
}

fn counts(t: &Tally) -> (usize, usize, usize) {
    (t.found_src_documents, t.copied, t.not_copied)
}

#[test]
fn scenario_fresh_destination() {
    let mut dest = HashSet::new();
    let (t, tasks) =
        simulate(&["/src/a.epub", "/src/b.pdf", "/src/c.txt"], "/kobo", false, &mut dest);
    assert_eq!(counts(&t), (2, 2, 0));
    assert!(dest.contains(&b("/kobo/a.epub")));
    assert!(dest.contains(&b("/kobo/b.pdf")));
    assert!(!dest.contains(&b("/kobo/c.txt")));
    assert_eq!(tasks.len(), 2);
    assert_eq!(tasks[0].source, b("/src/a.epub"));
    assert_eq!(tasks[1].destination, b("/kobo/b.pdf"));
}

#[test]
fn scenario_destination_holds_one() {
    let mut dest = HashSet::new();
    dest.insert(b("/kobo/a.epub"));
    let (t, _) = simulate(&["/src/a.epub", "/src/b.pdf", "/src/c.txt"], "/kobo", false, &mut dest);
    assert_eq!(counts(&t), (2, 1, 1));
}

#[test]
fn scenario_dry_run() {
    let mut dest = HashSet::new();
    let (t, tasks) =
        simulate(&["/src/a.epub", "/src/b.pdf", "/src/c.txt"], "/kobo", true, &mut dest);
    assert_eq!(counts(&t), (2, 2, 0));
    assert!(dest.is_empty());
    assert!(tasks.iter().all(|task| task.dry_run));
}

#[test]
fn dry_run_twice_same_counts() {
    let mut dest = HashSet::new();
    dest.insert(b("/kobo/b.pdf"));
    let paths = ["/src/a.epub", "/src/b.pdf", "/src/x/d.epub"];
    let (first, _) = simulate(&paths, "/kobo", true, &mut dest);
    let (second, _) = simulate(&paths, "/kobo", true, &mut dest);
    assert_eq!(counts(&first), counts(&second));
    assert_eq!(dest.len(), 1);
}

#[test]
fn second_real_run_copies_nothing() {
    let mut dest = HashSet::new();
    let paths = ["/src/a.epub", "/src/b.pdf", "/src/c.txt", "/src/x/d.epub"];
    let (first, _) = simulate(&paths, "/kobo", false, &mut dest);
    assert_eq!(counts(&first), (3, 3, 0));
    let (second, tasks) = simulate(&paths, "/kobo", false, &mut dest);
    assert_eq!(counts(&second), (3, 0, 3));
    assert!(tasks.is_empty());
}

#[test]
fn found_is_skipped_plus_copied() {
    let mut dest = HashSet::new();
    dest.insert(b("/kobo/b.pdf"));
    let paths = ["/s/a.epub", "/s/b.pdf", "/t/a.epub", "/s/e.PDF", "/s/.pdf", "/s/f.pdf"];
    let (t, _) = simulate(&paths, "/kobo", false, &mut dest);
    assert_eq!(t.found_src_documents, t.copied + t.not_copied);
    assert_eq!(counts(&t), (4, 2, 2));
}

#[test]
fn same_name_in_two_sources_copied_once() {
    for order in [["/one/a.epub", "/two/a.epub"], ["/two/a.epub", "/one/a.epub"]] {
        let mut dest = HashSet::new();
        let (t, tasks) = simulate(&order, "/kobo", false, &mut dest);
        assert_eq!(counts(&t), (2, 1, 1));
        assert_eq!(tasks.len(), 1);
        assert_eq!(tasks[0].source, b(order[0]));
    }
}

#[test]
fn distinct_names_distinct_destinations() {
    let mut dest = HashSet::new();
    let paths = ["/s/a.epub", "/s/b.epub", "/s/c.pdf", "/t/d.pdf"];
    let (_, tasks) = simulate(&paths, "/kobo", false, &mut dest);
    let dests: HashSet<Vec<u8>> = tasks.iter().map(|t| t.destination.clone()).collect();
    assert_eq!(dests.len(), 4);
}

#[test]
fn file_names() {
    assert_eq!(file_name_of(&b("/src/a.epub")), Some(b("a.epub")));
    assert_eq!(file_name_of(&b("a.epub")), Some(b("a.epub")));
    assert_eq!(file_name_of(&b("/src/")), None);
    assert_eq!(file_name_of(&b("")), None);
    assert_eq!(file_name_of(&b("/src/..")), None);
    assert_eq!(file_name_of(&b("/src/.")), None);
    assert_eq!(file_name_of(&b("/src/.hidden")), Some(b(".hidden")));
    assert_eq!(last_component_of(&b("/a/b/c")), b("c"));
    assert_eq!(find_last(&b("a/b/c"), b'/'), Some(3));
    assert_eq!(find_last(&b("abc"), b'/'), None);
}

#[test]
fn extensions() {
    assert_eq!(extension_of(&b("/src/a.epub")), Some(b("epub")));
    assert_eq!(extension_of(&b("/src/a.tar.gz")), Some(b("gz")));
    assert_eq!(extension_of(&b("/src/a.")), Some(b("")));
    assert_eq!(extension_of(&b("/src/.bashrc")), None);
    assert_eq!(extension_of(&b("/src/README")), None);
    assert_eq!(extension_of(&b("/s.d/README")), None);
    assert_eq!(extension_of(&b("/src/..")), None);
}

#[test]
fn candidate_filter() {
    let exts = default_extensions();
    assert_eq!(exts, vec![b("epub"), b("pdf")]);
    assert!(matches_extension(&b("/x/a.epub"), &exts));
    assert!(matches_extension(&b("/x/b.pdf"), &exts));
    assert!(!matches_extension(&b("/x/c.txt"), &exts));
    assert!(!matches_extension(&b("/x/A.EPUB"), &exts));
    assert!(!matches_extension(&b("/x/.pdf"), &exts));
    assert!(!matches_extension(&b("/x/pdf"), &exts));
    assert!(!matches_extension(&b("/x/a.epub"), &vec![]));
}

#[test]
fn pushing_paths() {
    assert_eq!(push_path(&b("/kobo"), &b("a.epub")), b("/kobo/a.epub"));
    assert_eq!(push_path(&b("/kobo/"), &b("a.epub")), b("/kobo/a.epub"));
    assert_eq!(push_path(&b(""), &b("a.epub")), b("a.epub"));
    assert_eq!(push_path(&b("/kobo"), &b("/etc/x")), b("/etc/x"));
    assert_eq!(destination_path(&b("/kobo"), &b("/src/sub/a.epub")), Some(b("/kobo/a.epub")));
    assert_eq!(destination_path(&b("/kobo"), &b("/src/")), None);
}

#[test]
fn text_of_paths() {
    assert_eq!(path_str(&b("/src/é.epub")), Ok("/src/é.epub".to_string()));
    assert_eq!(path_str(&vec![b'/', 0xff, b'a']), Err(PathError::NotUtf8));
    assert!(bytes_eq(&b("abc"), &b("abc")));
    assert!(!bytes_eq(&b("abc"), &b("abd")));
    assert!(!bytes_eq(&b("abc"), &b("ab")));
}

#[test]
fn resolutions() {
    let r = resolve(b("/s/a.epub"), b("/k/a.epub"), false, CreateOutcome::Created);
    assert_eq!(r.statistic(), Some(Statistic::Copied));
    match r {
        Resolution::Dispatch(t) => {
            assert_eq!(t.source, b("/s/a.epub"));
            assert_eq!(t.destination, b("/k/a.epub"));
            assert!(!t.dry_run);
        }
        _ => panic!("expected a dispatch"),
    }
    let r = resolve(b("/s/a.epub"), b("/k/a.epub"), false, CreateOutcome::AlreadyExists);
    assert_eq!(r.statistic(), Some(Statistic::NotCopiedBecauseAlreadyExistedAtDest));
    assert!(matches!(r, Resolution::SkipExisting(ref d) if *d == b("/k/a.epub")));
    let r = resolve(b("/s/a.epub"), b("/k/a.epub"), false, CreateOutcome::Failed);
    assert_eq!(r.statistic(), None);
    assert!(matches!(r, Resolution::Abort));
    let r = resolve(b("/s/a.epub"), b("/k/a.epub"), false, CreateOutcome::NotAttempted);
    assert!(matches!(r, Resolution::Abort));
    let r = resolve(b("/s/a.epub"), b("/k/a.epub"), true, CreateOutcome::NotAttempted);
    assert!(matches!(r, Resolution::Dispatch(ref t) if t.dry_run));
}

#[test]
fn notices() {
    let dry = CopyTask { source: b("/s/a.epub"), destination: b("/k/a.epub"), dry_run: true };
    assert_eq!(
        dry.notice(),
        Ok("Dry-running; would otherwise copy /s/a.epub to /k/a.epub".to_string())
    );
    let real = CopyTask { source: b("/s/a.epub"), destination: b("/k/a.epub"), dry_run: false };
    assert_eq!(real.notice(), Ok("Copied /s/a.epub to /k/a.epub".to_string()));
    let bad = CopyTask { source: vec![0xc3], destination: b("/k/a.epub"), dry_run: false };
    assert_eq!(bad.notice(), Err(PathError::NotUtf8));
    assert_eq!(
        skip_notice(&b("/k/a.epub")),
        Ok("Book /k/a.epub already exists on the destination; will not copy across.".to_string())
    );
    assert_eq!(skip_notice(&vec![0xff]), Err(PathError::NotUtf8));
}

#[test]
fn joins_in_dispatch_order() {
    assert_eq!(first_failure(&vec![]), None);
    assert_eq!(first_failure(&vec![true, true]), None);
    assert_eq!(first_failure(&vec![true, false, false]), Some(1));
    assert_eq!(first_failure(&vec![false]), Some(0));
}

#[test]
fn tallies() {
    let mut t = Tally::new();
    assert_eq!(counts(&t), (0, 0, 0));
    assert!(t.record(Statistic::FoundSrcDocument));
    assert!(t.record(Statistic::Copied));
    assert!(t.record(Statistic::FoundSrcDocument));
    assert!(t.record(Statistic::NotCopiedBecauseAlreadyExistedAtDest));
    assert_eq!(counts(&t), (2, 1, 1));
    let mut full = Tally { found_src_documents: usize::MAX, not_copied: 0, copied: 0 };
    assert!(!full.record(Statistic::FoundSrcDocument));
    assert_eq!(full.found_src_documents, usize::MAX);
    assert!(full.record(Statistic::Copied));
}

#[test]
fn labels() {
    assert_eq!(summary_labels(&vec![]), Ok(String::new()));
    assert_eq!(summary_labels(&vec![b("/home/a/Documents")]), Ok("/home/a/Documents".to_string()));
    assert_eq!(
        summary_labels(&vec![b("/d1"), b("/d2"), b("/d3")]),
        Ok("/d1 and /d2 and /d3".to_string())
    );
    assert_eq!(summary_labels(&vec![b("/d1"), vec![0xff]]), Err(PathError::NotUtf8));
}

#[test]
fn default_directories() {
    assert_eq!(lookup_default_kobo_storage_directory(&b("alice")), b("/media/alice/KOBOeReader"));
    assert_eq!(
        lookup_default_documents_directories(Some(b("/home/alice"))),
        Ok(vec![b("/home/alice/Documents")])
    );
    assert_eq!(
        lookup_default_documents_directories(Some(b("/home/alice/"))),
        Ok(vec![b("/home/alice/Documents")])
    );
    assert_eq!(lookup_default_documents_directories(None), Err(LookupError::NoHomeDirectory));
}
