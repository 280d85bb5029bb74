use ex_post_progress::error::SampleError;
use ex_post_progress::resolve::{find_fds_for_open_file, FdEntry};
use ex_post_progress::sampler::{Sampler, SamplerState, Step, POLL_INTERVAL_MS};
use ex_post_progress::session::{Outcome, Session, Watch};

fn entry(name: &str, target: Option<&str>) -> FdEntry {
    FdEntry {
        name: name.as_bytes().to_vec(),
        target: target.map(|t| t.as_bytes().to_vec()),
    }
}

fn record(pos: u64) -> String {
    format!("pos:\t{}\nflags:\t0100000\nmnt_id:\t25\n", pos)
}

#[test]
fn resolve_keeps_only_matching_descriptors() {
    let table = vec![
        entry("0", Some("/dev/pts/0")),
        entry("1", Some("/dev/pts/0")),
        entry("3", Some("/data/file")),
        entry("4", Some("/data/file2")),
        entry("7", Some("/data")),
        entry("8", Some("/data/file")),
    ];
    assert_eq!(find_fds_for_open_file(&table, b"/data/file"), vec![3, 8]);
}

#[test]
fn resolve_skips_unresolvable_entries() {
    let table = vec![entry("3", None), entry("4", Some("/data/file")), entry("x", Some("/data/file"))];
    assert_eq!(find_fds_for_open_file(&table, b"/data/file"), vec![4]);
}

#[test]
fn resolve_unreferenced_path_is_empty() {
    let table = vec![entry("0", Some("/dev/null")), entry("5", Some("/data/file"))];
    assert_eq!(find_fds_for_open_file(&table, b"/other/file"), Vec::<u32>::new());
    assert_eq!(find_fds_for_open_file(&Vec::new(), b"/other/file"), Vec::<u32>::new());
}

#[test]
fn sample_below_total_continues() {
    let mut s = Sampler::new(5, 1000);
    assert_eq!(s.interval_ms, POLL_INTERVAL_MS);
    assert_eq!(s.step(Some(&record(500))), Step::Continue(500));
    assert_eq!(s.state, SamplerState::Running);
    assert!(s.is_running());
}

#[test]
fn sample_at_total_finishes() {
    let mut s = Sampler::new(5, 1000);
    assert_eq!(s.step(Some(&record(1000))), Step::Finish(1000));
    assert_eq!(s.state, SamplerState::Finished);
    assert!(!s.is_running());
}

#[test]
fn backward_seek_is_shown_as_is() {
    let mut s = Sampler::new(5, 1000);
    assert_eq!(s.step(Some(&record(800))), Step::Continue(800));
    assert_eq!(s.step(Some(&record(200))), Step::Continue(200));
    assert_eq!(s.state, SamplerState::Running);
}

#[test]
fn sample_without_pos_fails_malformed() {
    let mut s = Sampler::new(5, 1000);
    assert_eq!(s.step(Some("flags:\t0\n")), Step::Fail(SampleError::MalformedStatusRecord));
    assert_eq!(s.state, SamplerState::Failed(SampleError::MalformedStatusRecord));
}

#[test]
fn unreadable_after_readable_fails_gone() {
    let mut s = Sampler::new(9, 1000);
    assert_eq!(s.step(Some(&record(10))), Step::Continue(10));
    assert_eq!(s.step(None), Step::Fail(SampleError::DescriptorGone));
    assert_eq!(s.state, SamplerState::Failed(SampleError::DescriptorGone));
}

#[test]
fn malformed_sampler_does_not_stop_sibling() {
    let fds = vec![5, 9];
    let mut session = Session::new(&fds);
    let mut a = Sampler::new(5, 1000);
    let mut b = Sampler::new(9, 1000);
    assert_eq!(a.step(Some("mnt_id:\t25\n")), Step::Fail(SampleError::MalformedStatusRecord));
    session.report(0, a.state);
    assert!(!session.is_complete());
    assert_eq!(session.watch(1), Watch { fd: 9, state: SamplerState::Running });
    assert_eq!(b.step(Some(&record(400))), Step::Continue(400));
    assert_eq!(b.step(Some(&record(1000))), Step::Finish(1000));
    session.report(1, b.state);
    assert!(session.is_complete());
    let outcome = session.outcome();
    assert_eq!(outcome, Outcome::SomeFailed(vec![(5, SampleError::MalformedStatusRecord)]));
    assert_eq!(outcome.exit_code(), 1);
}

#[test]
fn two_descriptors_both_finish() {
    let table = vec![
        entry("0", Some("/dev/pts/1")),
        entry("5", Some("/data/file")),
        entry("9", Some("/data/file")),
    ];
    let fds = find_fds_for_open_file(&table, b"/data/file");
    assert_eq!(fds, vec![5, 9]);
    let mut session = Session::new(&fds);
    assert_eq!(session.len(), 2);
    let mut samplers: Vec<Sampler> = fds.iter().map(|fd| Sampler::new(*fd, 1000)).collect();
    let reads = [[500u64, 1000], [0, 1000]];
    for (i, s) in samplers.iter_mut().enumerate() {
        assert_eq!(s.step(Some(&record(reads[i][0]))), Step::Continue(reads[i][0]));
        assert_eq!(s.step(Some(&record(reads[i][1]))), Step::Finish(1000));
        session.report(i, s.state);
    }
    assert!(session.is_complete());
    let outcome = session.outcome();
    assert_eq!(outcome, Outcome::AllFinished);
    assert_eq!(outcome.exit_code(), 0);
}

#[test]
fn no_descriptor_means_nothing_to_track() {
    let table = vec![entry("5", Some("/data/file"))];
    let fds = find_fds_for_open_file(&table, b"/other/file");
    assert!(fds.is_empty());
    let session = Session::new(&fds);
    assert!(session.is_complete());
    let outcome = session.outcome();
    assert_eq!(outcome, Outcome::NothingToTrack);
    assert_eq!(outcome.exit_code(), 0);
}

#[test]
fn session_reports_every_failure_in_order() {
    let fds = vec![3, 4, 6];
    let mut session = Session::new(&fds);
    session.report(2, SamplerState::Failed(SampleError::DescriptorGone));
    session.report(1, SamplerState::Finished);
    session.report(0, SamplerState::Failed(SampleError::MalformedStatusRecord));
    assert_eq!(
        session.outcome(),
        Outcome::SomeFailed(vec![
            (3, SampleError::MalformedStatusRecord),
            (6, SampleError::DescriptorGone)
        ])
    );
}
