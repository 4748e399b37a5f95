use rviewer::export::{
    raster_name, temp_name, vector_name, Action, Batch, Event, JobState, RetryPolicy,
};
use rviewer::settings::{Rasterizer, Settings};

#[test]
fn standard_policy_tries_three_times() {
    let p = RetryPolicy::standard();
    assert_eq!(p.base_timeout, 30);
    assert_eq!(p.max_attempts, 3);
    assert_eq!(p.timeout(1), 30);
    assert_eq!(p.timeout(2), 60);
    assert_eq!(p.timeout(3), 90);
    assert_eq!(p.start(), (JobState::Attempting(1), Action::Run(30)));
}

#[test]
fn timeouts_escalate_until_the_job_is_abandoned() {
    let p = RetryPolicy::standard();
    let (s1, _) = p.start();
    let (s2, a2) = p.step(s1, Event::TimedOut);
    assert_eq!((s2, a2), (JobState::Attempting(2), Action::Retry(60)));
    let (s3, a3) = p.step(s2, Event::TimedOut);
    assert_eq!((s3, a3), (JobState::Attempting(3), Action::Retry(90)));
    let (s4, a4) = p.step(s3, Event::TimedOut);
    assert_eq!((s4, a4), (JobState::Abandoned, Action::Abandon));
    assert_eq!(p.step(s4, Event::TimedOut), (JobState::Abandoned, Action::Nothing));
    assert_eq!(p.step(s4, Event::Completed), (JobState::Abandoned, Action::Nothing));
}

#[test]
fn completion_ends_the_job_at_any_attempt() {
    let p = RetryPolicy::standard();
    assert_eq!(p.step(JobState::Attempting(1), Event::Completed), (JobState::Succeeded, Action::Finish));
    assert_eq!(p.step(JobState::Attempting(3), Event::Completed), (JobState::Succeeded, Action::Finish));
    assert_eq!(p.step(JobState::Succeeded, Event::TimedOut), (JobState::Succeeded, Action::Nothing));
    assert_eq!(p.step(JobState::Succeeded, Event::Completed), (JobState::Succeeded, Action::Nothing));
}

#[test]
fn policy_without_attempts_abandons_at_once() {
    let p = RetryPolicy { base_timeout: 30, max_attempts: 0 };
    assert_eq!(p.start(), (JobState::Abandoned, Action::Abandon));
}

#[test]
fn large_timeouts_do_not_overflow() {
    let p = RetryPolicy { base_timeout: u32::MAX, max_attempts: u32::MAX };
    assert_eq!(p.timeout(u32::MAX), (u32::MAX as u64) * (u32::MAX as u64));
    assert_eq!(
        p.step(JobState::Attempting(u32::MAX), Event::TimedOut),
        (JobState::Abandoned, Action::Abandon)
    );
}

#[test]
fn batch_with_a_rasterizer_that_always_times_out() {
    let policy = RetryPolicy::standard();
    let mut batch = Batch::new(policy, 3);
    assert_eq!(batch.len(), 3);
    let mut logged_failures = 0;
    let mut retries = 0;
    let mut artifacts = 0;
    for job in 0..batch.len() {
        assert_eq!(batch.state(job), Some(JobState::Attempting(1)));
        loop {
            match batch.handle(job, Event::TimedOut) {
                Action::Retry(_) => retries += 1,
                Action::Abandon => {
                    logged_failures += 1;
                    break;
                }
                Action::Finish => {
                    artifacts += 1;
                    break;
                }
                Action::Run(_) | Action::Nothing => panic!("a running job retries or ends"),
            }
        }
    }
    assert_eq!(logged_failures, 3);
    assert_eq!(retries, 6);
    assert_eq!(artifacts, 0);
    assert_eq!(batch.completed(), 0);
    assert_eq!(batch.abandoned(), 3);
    assert!(batch.settled());
}

#[test]
fn jobs_of_a_batch_are_independent() {
    let mut batch = Batch::new(RetryPolicy::standard(), 3);
    assert!(!batch.settled());
    assert_eq!(batch.handle(1, Event::Completed), Action::Finish);
    assert_eq!(batch.handle(0, Event::TimedOut), Action::Retry(60));
    assert_eq!(batch.state(0), Some(JobState::Attempting(2)));
    assert_eq!(batch.state(1), Some(JobState::Succeeded));
    assert_eq!(batch.state(2), Some(JobState::Attempting(1)));
    assert_eq!(batch.state(3), None);
    assert_eq!(batch.handle(3, Event::Completed), Action::Nothing);
    assert_eq!(batch.completed(), 1);
    assert_eq!(batch.abandoned(), 0);
    assert!(!batch.settled());
    assert_eq!(batch.handle(0, Event::Completed), Action::Finish);
    assert_eq!(batch.handle(2, Event::Completed), Action::Finish);
    assert_eq!(batch.completed(), 3);
    assert!(batch.settled());
}

#[test]
fn empty_batch_is_settled() {
    let batch = Batch::new(RetryPolicy::standard(), 0);
    assert!(batch.settled());
    assert_eq!(batch.completed(), 0);
    assert_eq!(batch.abandoned(), 0);
}

#[test]
fn frame_files_are_numbered_with_five_digits() {
    assert_eq!(raster_name(1), "frames/00001.png");
    assert_eq!(raster_name(42), "frames/00042.png");
    assert_eq!(raster_name(99999), "frames/99999.png");
    assert_eq!(raster_name(123456), "frames/123456.png");
    assert_eq!(raster_name(0), "frames/00000.png");
    assert_eq!(vector_name(7), "frames/00007.svg");
    assert_eq!(temp_name(7), "frames/_tmp_frame_7_.svg");
    assert_eq!(temp_name(12345678), "frames/_tmp_frame_12345678_.svg");
}

#[test]
fn settings_defaults_fill_what_was_left_open() {
    let s = Settings::new().with_defaults();
    assert_eq!(s.conversion_tool.as_deref(), Some("rsvg-convert"));
    assert_eq!(s.inkscape_path.as_deref(), Some("C:/Program files/Inkscape/bin/inkscape.exe"));
    assert_eq!(s.frame_resolution, Some(1080));
    assert_eq!(s.max_threads, Some(4));
}

#[test]
fn settings_defaults_keep_what_was_set() {
    let s = Settings {
        conversion_tool: Some("inkscape".to_string()),
        inkscape_path: None,
        frame_resolution: Some(720),
        max_threads: None,
    }
    .with_defaults();
    assert_eq!(s.conversion_tool.as_deref(), Some("inkscape"));
    assert_eq!(s.inkscape_path.as_deref(), Some("C:/Program files/Inkscape/bin/inkscape.exe"));
    assert_eq!(s.frame_resolution, Some(720));
    assert_eq!(s.max_threads, Some(4));
}

#[test]
fn settings_choose_the_rasterizer() {
    assert_eq!(Settings::new().rasterizer(), Rasterizer::RsvgConvert);
    assert_eq!(Settings::new().with_defaults().rasterizer(), Rasterizer::RsvgConvert);
    let mut s = Settings::new();
    s.conversion_tool = Some("inkscape".to_string());
    assert_eq!(s.rasterizer(), Rasterizer::Inkscape);
    s.conversion_tool = Some("rsvg-convert ".to_string());
    assert_eq!(s.rasterizer(), Rasterizer::Inkscape);
}
