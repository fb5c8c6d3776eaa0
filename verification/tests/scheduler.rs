use mkbsd::Batch;
use mkbsd::DownloadErrorKind;
use mkbsd::DownloadOutcome;
use mkbsd::ResourceDescriptor;
use mkbsd::TaskPhase;
use mkbsd::descriptors_from_catalog;
use mkbsd::parse_catalog;
use mkbsd::plan_write;
use mkbsd::run_dry_batch;

fn descriptors(n: usize) -> Vec<ResourceDescriptor> {
    (0..n)
        .map(|i| ResourceDescriptor {
            source_url: format!("https://cdn.x/col/item{i}"),
            local_directory: "col".to_string(),
            local_stem: format!("item{i}"),
        })
        .collect()
}

fn png_bytes() -> Vec<u8> {
    vec![0x89, 0x50, 0x4E, 0x47, 0x0D, 0x0A, 0x1A, 0x0A, 0x00, 0x00, 0x00, 0x0D]
}

fn succeed(batch: &mut Batch, i: usize, root: &str) {
    batch.begin_fetch(i);
    let bytes = png_bytes();
    batch.begin_sniff(i);
    let d = batch.descriptors[i].clone();
    let plan = plan_write(root, &d, &bytes);
    batch.begin_write(i);
    batch.finish(
        i,
        DownloadOutcome::Success {
            bytes_written: bytes.len(),
            resolved_extension: plan.extension,
            final_path: plan.path,
        },
    );
}

fn fail_fetch(batch: &mut Batch, i: usize) {
    batch.begin_fetch(i);
    let d = batch.descriptors[i].clone();
    batch.finish(
        i,
        DownloadOutcome::Failure {
            descriptor: d,
            kind: DownloadErrorKind::Network,
            message: "connection refused".to_string(),
        },
    );
}

#[test]
fn concurrency_ceiling_is_respected_with_twenty_slow_tasks() {
    let mut batch = Batch::new(descriptors(20), 3, false);
    let mut admitted: Vec<usize> = Vec::new();
    let mut waiting: Vec<usize> = (0..20).rev().collect();
    let mut max_in_flight: usize = 0;
    // Admit greedily, as tasks stalled in their fetch delay would, and
    // watch the instrumented permit counter.
    while !waiting.is_empty() || !admitted.is_empty() {
        while let Some(&next) = waiting.last() {
            if batch.try_acquire(next) {
                waiting.pop();
                admitted.push(next);
                max_in_flight = max_in_flight.max(batch.permits_in_use);
            } else {
                break;
            }
        }
        assert!(batch.permits_in_use <= 3);
        if !waiting.is_empty() {
            // With tasks still waiting, the admission gate is saturated.
            assert_eq!(batch.permits_in_use, 3);
        }
        if let Some(i) = admitted.pop() {
            succeed(&mut batch, i, "root");
        }
    }
    assert_eq!(max_in_flight, 3);
    assert!(batch.is_complete());
    let (ok, failed) = batch.count_outcomes();
    assert_eq!((ok, failed), (20, 0));
}

#[test]
fn one_failing_task_never_aborts_its_siblings() {
    let mut batch = Batch::new(descriptors(5), 2, false);
    for i in 0..5 {
        assert!(batch.try_acquire(i));
        if i == 2 {
            fail_fetch(&mut batch, i);
        } else {
            succeed(&mut batch, i, "root");
        }
    }
    assert!(batch.is_complete());
    let (ok, failed) = batch.count_outcomes();
    assert_eq!((ok, failed), (4, 1));
    assert_eq!(batch.outcomes.len(), 5);
    for (i, outcome) in batch.outcomes.iter().enumerate() {
        match outcome {
            Some(DownloadOutcome::Success { .. }) => assert_ne!(i, 2),
            Some(DownloadOutcome::Failure { descriptor, kind, .. }) => {
                assert_eq!(i, 2);
                assert_eq!(*kind, DownloadErrorKind::Network);
                assert_eq!(descriptor.local_stem, "item2");
            },
            None => panic!("task {i} produced no outcome"),
        }
    }
}

#[test]
fn dry_run_completes_ten_tasks_without_entering_any_io_phase() {
    let batch = run_dry_batch(descriptors(10), 3, "root");
    assert!(batch.dry_run);
    assert!(batch.is_complete());
    assert_eq!(batch.outcomes.len(), 10);
    let (ok, failed) = batch.count_outcomes();
    assert_eq!((ok, failed), (10, 0));
    for (i, outcome) in batch.outcomes.iter().enumerate() {
        match outcome {
            Some(DownloadOutcome::Success {
                bytes_written,
                resolved_extension,
                final_path,
            }) => {
                assert_eq!(*bytes_written, 0);
                assert!(resolved_extension.is_empty());
                assert_eq!(*final_path, format!("root/col/item{i}"));
            },
            _ => panic!("dry run must record a success-shaped outcome for task {i}"),
        }
    }
    for phase in &batch.phases {
        assert_eq!(*phase, TaskPhase::Done);
    }
}

#[test]
fn end_to_end_two_png_downloads_from_a_catalog() {
    let text = "{\"media\":[{\"id\":\"a1\",\"url\":\"https://cdn.x/col/a1\"},{\"id\":\"a2\",\"url\":\"https://cdn.x/col/a2\"}]}";
    let tree = parse_catalog(text).expect("catalog text must parse");
    let (descriptors, malformed) = descriptors_from_catalog(&tree, &"url".to_string());
    assert!(malformed.is_empty());
    assert_eq!(descriptors.len(), 2);

    let mut batch = Batch::new(descriptors, 2, false);
    let mut written: Vec<String> = Vec::new();
    for i in 0..2 {
        assert!(batch.try_acquire(i));
        batch.begin_fetch(i);
        let bytes = png_bytes();
        batch.begin_sniff(i);
        let d = batch.descriptors[i].clone();
        let plan = plan_write("root", &d, &bytes);
        batch.begin_write(i);
        written.push(plan.path.clone());
        batch.finish(
            i,
            DownloadOutcome::Success {
                bytes_written: bytes.len(),
                resolved_extension: plan.extension,
                final_path: plan.path,
            },
        );
    }
    assert!(batch.is_complete());
    let (ok, failed) = batch.count_outcomes();
    assert_eq!((ok, failed), (2, 0));
    assert_eq!(written, vec!["root/col/a1.png".to_string(), "root/col/a2.png".to_string()]);
}

#[test]
fn refused_admission_changes_nothing() {
    let mut batch = Batch::new(descriptors(2), 1, false);
    assert!(batch.try_acquire(0));
    assert!(!batch.try_acquire(1));
    assert_eq!(batch.phases[1], TaskPhase::Pending);
    assert_eq!(batch.permits_in_use, 1);
    assert!(!batch.try_acquire(0));
    succeed(&mut batch, 0, "root");
    assert!(batch.try_acquire(1));
}
