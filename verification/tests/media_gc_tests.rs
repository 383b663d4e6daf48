use openchatcut_daemon::json::JsonValue;
use openchatcut_daemon::media_gc::{check_media_gc, GcRun, GcStep};
use openchatcut_daemon::requests::MediaGcRequest;

#[test]
fn collection_refuses_a_bad_age_before_active_jobs() {
    let jobs = vec!["job-1".to_string(), "job-2".to_string()];
    let bad = MediaGcRequest { confirm: true, min_age_hours: 0 };
    assert_eq!(check_media_gc(&bad, &jobs).unwrap_err().code, "invalid_gc_minimum_age");
    let too_old = MediaGcRequest { confirm: false, min_age_hours: 8761 };
    assert_eq!(check_media_gc(&too_old, &Vec::new()).unwrap_err().status, 400);

    let run = MediaGcRequest { confirm: true, min_age_hours: 24 };
    let e = check_media_gc(&run, &jobs).unwrap_err();
    assert_eq!((e.status, e.code.as_str()), (409, "asset_gc_jobs_active"));
    match e.details {
        Some(JsonValue::Object(d)) => match &d[0].1 {
            JsonValue::Array(ids) => {
                assert_eq!(ids.len(), 2);
                assert!(matches!(&ids[1], JsonValue::Str(id) if id == "job-2"));
            }
            other => panic!("unexpected {other:?}"),
        },
        other => panic!("unexpected {other:?}"),
    }
    assert!(check_media_gc(&run, &Vec::new()).is_ok());
    let preview = MediaGcRequest { confirm: false, min_age_hours: 24 };
    assert!(check_media_gc(&preview, &jobs).is_ok());
}

#[test]
fn a_run_rechecks_each_candidate_before_removing_it() {
    let candidates = vec![("aa".to_string(), 10), ("bb".to_string(), 20), ("cc".to_string(), u64::MAX)];
    let (mut run, step) = GcRun::start(candidates.len());
    assert_eq!(step, GcStep::Rescan(0));
    assert_eq!(run.after_rescan(&candidates, false), GcStep::Remove(0));
    assert_eq!(run.after_removal(&candidates, true), GcStep::Rescan(1));
    assert_eq!(run.after_rescan(&candidates, true), GcStep::Rescan(2));
    assert_eq!(run.after_rescan(&candidates, false), GcStep::Remove(2));
    assert_eq!(run.after_removal(&candidates, true), GcStep::Finished);
    assert_eq!(run.removed, vec!["aa", "cc"]);
    assert_eq!(run.removed_bytes, u64::MAX);
    assert_eq!(run.skipped_after_rescan, vec!["bb"]);

    let (_, step) = GcRun::start(0);
    assert_eq!(step, GcStep::Finished);
}

#[test]
fn a_file_that_changed_is_not_counted_as_removed() {
    let candidates = vec![("aa".to_string(), 10)];
    let (mut run, _) = GcRun::start(1);
    run.after_rescan(&candidates, false);
    assert_eq!(run.after_removal(&candidates, false), GcStep::Finished);
    assert!(run.removed.is_empty());
    assert_eq!(run.removed_bytes, 0);
}
