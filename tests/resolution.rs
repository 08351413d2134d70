use episode_fetch::embed::{player_attached, EmbedAction, EmbedEvent, EmbedResolver, Phase};
use episode_fetch::manifest::{parse_manifest, probe_order, select_with_outcomes, Manifest, SelectStep, Selector, Variant};
use episode_fetch::pipeline::{
    after_answer, exit_status, worker_budget, prevent_case_nothing_found_or_error, tally, GroupVerdict, PipelineCounters,
    CANCELLED_STATUS, NOTHING_FOUND_STATUS,
};

fn v(uri: &str, h: Option<u64>) -> Variant {
    Variant { uri: uri.to_string(), height: h }
}

const MASTER_ONE: &str = "#EXTM3U\n#EXT-X-STREAM-INF:BANDWIDTH=1280000,RESOLUTION=1280x720\nhttp://cdn.test/720.m3u8\n";
const MASTER_THREE: &str = "#EXTM3U\n#EXT-X-STREAM-INF:BANDWIDTH=5000000,RESOLUTION=1920x1080\nhttp://cdn.test/1080.m3u8\n#EXT-X-STREAM-INF:BANDWIDTH=2500000,RESOLUTION=1280x720\nhttp://cdn.test/720.m3u8\n#EXT-X-STREAM-INF:BANDWIDTH=1000000,RESOLUTION=854x480\nhttp://cdn.test/480.m3u8\n";
const MEDIA: &str = "#EXTM3U\n#EXT-X-TARGETDURATION:10\n#EXT-X-VERSION:3\n#EXTINF:9.009,\nhttp://cdn.test/seg0.ts\n#EXT-X-ENDLIST\n";

fn is_probe(a: &EmbedAction, uri: &str) -> bool {
    matches!(a, EmbedAction::Probe(u) if u == uri)
}

/// Drives one embed through the machine; `frame_ok` decides frame entry and
/// `probes` answers the probes in order.
fn drive(frame_ok: bool, body: &str, probes: &[bool]) -> (EmbedResolver, Vec<String>) {
    let mut r = EmbedResolver::new("https://site.test/embed/1".to_string());
    let mut probed = Vec::new();
    let mut a = r.action();
    assert!(matches!(a, EmbedAction::Navigate(ref u) if u == "https://site.test/embed/1"));
    a = r.on_event(EmbedEvent::Navigated);
    assert!(matches!(a, EmbedAction::EnterFrame(0)));
    a = r.on_event(EmbedEvent::FrameEntered(frame_ok));
    if !frame_ok {
        assert!(matches!(a, EmbedAction::ReturnToParent));
        return (r, probed);
    }
    a = r.on_event(EmbedEvent::PlayerPolled(None));
    assert!(matches!(a, EmbedAction::PollPlayer));
    a = r.on_event(EmbedEvent::PlayerPolled(Some("video-js".to_string())));
    assert!(matches!(a, EmbedAction::PollPlayer));
    a = r.on_event(EmbedEvent::PlayerPolled(Some("jwplayer jw-reset".to_string())));
    assert!(matches!(a, EmbedAction::ExtractManifest));
    a = r.on_event(EmbedEvent::ManifestField(Some("http://cdn.test/master.m3u8".to_string())));
    assert!(matches!(a, EmbedAction::FetchManifest(ref u) if u == "http://cdn.test/master.m3u8"));
    a = r.on_event(EmbedEvent::ManifestFetched(Some(body.as_bytes().to_vec())));
    let mut i = 0;
    while let EmbedAction::Probe(u) = &a {
        probed.push(u.clone());
        let ok = probes[i];
        i += 1;
        a = r.on_event(EmbedEvent::ProbeAnswered(ok));
    }
    if let EmbedAction::Stage(_) = a {
        a = r.on_event(EmbedEvent::Staged(true));
    }
    assert!(matches!(a, EmbedAction::ReturnToParent));
    (r, probed)
}

#[test]
fn parse_master_keeps_variants() {
    match parse_manifest(MASTER_THREE.as_bytes()) {
        Some(Manifest::Master(vs)) => {
            assert_eq!(vs.len(), 3);
            assert_eq!(vs[0].uri, "http://cdn.test/1080.m3u8");
            assert_eq!(vs[0].height, Some(1080));
            assert_eq!(vs[2].height, Some(480));
        }
        _ => panic!("expected a master manifest"),
    }
}

#[test]
fn parse_media_and_garbage() {
    assert!(matches!(parse_manifest(MEDIA.as_bytes()), Some(Manifest::Media)));
    assert!(parse_manifest(b"not a playlist").is_none());
}

#[test]
fn probe_order_by_height_missing_last_ties_in_order() {
    let vs = vec![v("a", Some(480)), v("b", None), v("c", Some(1080)), v("d", Some(480)), v("e", Some(720))];
    assert_eq!(probe_order(&vs), vec![2, 4, 0, 3, 1]);
}

#[test]
fn selector_three_variants_two_fail() {
    let vs = vec![v("480", Some(480)), v("1080", Some(1080)), v("720", Some(720))];
    let (chosen, probed) = select_with_outcomes(&vs, &vec![true, false, false]);
    assert_eq!(chosen, Some(0));
    assert_eq!(probed, vec![1, 2, 0]);
}

#[test]
fn selector_stops_at_first_success() {
    let vs = vec![v("1080", Some(1080)), v("720", Some(720)), v("480", Some(480))];
    let (chosen, probed) = select_with_outcomes(&vs, &vec![false, true, true]);
    assert_eq!(chosen, Some(1));
    assert_eq!(probed, vec![0, 1]);
}

#[test]
fn selector_no_working_variant() {
    let vs = vec![v("1080", Some(1080)), v("720", Some(720))];
    let (chosen, probed) = select_with_outcomes(&vs, &vec![false, false]);
    assert_eq!(chosen, None);
    assert_eq!(probed, vec![0, 1]);
    let (chosen, probed) = select_with_outcomes(&vec![], &vec![]);
    assert_eq!(chosen, None);
    assert!(probed.is_empty());
}

#[test]
fn selector_steps() {
    let vs = vec![v("720", Some(720)), v("1080", Some(1080))];
    let mut s = Selector::new(&vs);
    assert!(matches!(s.next_step(), SelectStep::Probe(1)));
    s.record_probe(false);
    assert!(matches!(s.next_step(), SelectStep::Probe(0)));
    s.record_probe(true);
    assert!(matches!(s.next_step(), SelectStep::Selected(0)));
}

#[test]
fn embed_probes_1080_720_fail_480_staged() {
    let (r, probed) = drive(true, MASTER_THREE, &[false, false, true]);
    assert_eq!(probed, vec!["http://cdn.test/1080.m3u8", "http://cdn.test/720.m3u8", "http://cdn.test/480.m3u8"]);
    assert_eq!(r.chosen, "http://cdn.test/480.m3u8");
    assert_eq!(r.outcome(), Some(true));
}

#[test]
fn embed_no_working_variant_is_never_staged() {
    let mut r = EmbedResolver::new("p".to_string());
    r.on_event(EmbedEvent::Navigated);
    r.on_event(EmbedEvent::FrameEntered(true));
    r.on_event(EmbedEvent::PlayerPolled(Some("jwplayer".to_string())));
    r.on_event(EmbedEvent::ManifestField(Some("m".to_string())));
    let mut a = r.on_event(EmbedEvent::ManifestFetched(Some(MASTER_THREE.as_bytes().to_vec())));
    let mut probes = 0;
    while let EmbedAction::Probe(_) = a {
        probes += 1;
        a = r.on_event(EmbedEvent::ProbeAnswered(false));
        assert!(!matches!(a, EmbedAction::Stage(_)));
    }
    assert_eq!(probes, 3);
    assert!(matches!(a, EmbedAction::ReturnToParent));
    assert_eq!(r.outcome(), Some(false));
}

#[test]
fn embed_media_manifest_staged_directly() {
    let (r, probed) = drive(true, MEDIA, &[]);
    assert!(probed.is_empty());
    assert_eq!(r.chosen, "http://cdn.test/master.m3u8");
    assert_eq!(r.outcome(), Some(true));
}

#[test]
fn embed_missing_field_fails() {
    let mut r = EmbedResolver::new("p".to_string());
    r.on_event(EmbedEvent::Navigated);
    r.on_event(EmbedEvent::FrameEntered(true));
    r.on_event(EmbedEvent::PlayerPolled(Some("jwplayer".to_string())));
    let a = r.on_event(EmbedEvent::ManifestField(None));
    assert!(matches!(a, EmbedAction::ReturnToParent));
    assert_eq!(r.phase, Phase::Failed);
}

#[test]
fn embed_deadline_fails_polling() {
    let mut r = EmbedResolver::new("p".to_string());
    r.on_event(EmbedEvent::Navigated);
    r.on_event(EmbedEvent::FrameEntered(true));
    r.on_event(EmbedEvent::PlayerPolled(None));
    let a = r.on_event(EmbedEvent::DeadlineExpired);
    assert!(matches!(a, EmbedAction::ReturnToParent));
    assert_eq!(r.outcome(), Some(false));
    // a finished embed stays finished
    r.on_event(EmbedEvent::Staged(true));
    assert_eq!(r.outcome(), Some(false));
}

#[test]
fn embed_unexpected_event_changes_nothing() {
    let mut r = EmbedResolver::new("p".to_string());
    let a = r.on_event(EmbedEvent::Staged(true));
    assert!(matches!(a, EmbedAction::Navigate(_)));
    assert_eq!(r.phase, Phase::NavigatingEmbed);
}

#[test]
fn player_marker_detection() {
    assert!(player_attached("jwplayer jw-reset jw-state-idle"));
    assert!(!player_attached("video-js"));
    assert!(!player_attached(""));
}

#[test]
fn three_embeds_two_found_one_frame_failure() {
    let mut c = PipelineCounters::new();
    let (a, _) = drive(true, MASTER_ONE, &[true]);
    let (b, _) = drive(false, MASTER_ONE, &[]);
    let (d, _) = drive(true, MASTER_ONE, &[true]);
    for r in [&a, &b, &d] {
        c.record(r.outcome().unwrap());
    }
    assert_eq!((c.found, c.error, c.dispatched), (2, 1, 3));
    assert_eq!(prevent_case_nothing_found_or_error(c.found, c.error, true), GroupVerdict::AskToContinue);
    assert_eq!(prevent_case_nothing_found_or_error(c.found, c.error, false), GroupVerdict::Proceed);
}

#[test]
fn five_failures_nothing_found() {
    let c = tally(&vec![false; 5]);
    assert_eq!((c.found, c.error), (0, 5));
    let verdict = prevent_case_nothing_found_or_error(c.found, c.error, false);
    assert_eq!(verdict, GroupVerdict::NothingFound);
    assert_eq!(exit_status(verdict), Some(NOTHING_FOUND_STATUS));
    // asking first, then failing whatever the answer
    assert_eq!(prevent_case_nothing_found_or_error(0, 5, true), GroupVerdict::AskToContinue);
    assert_eq!(exit_status(after_answer(0, true)), Some(NOTHING_FOUND_STATUS));
    assert_eq!(exit_status(after_answer(0, false)), Some(CANCELLED_STATUS));
    assert!(episode_fetch::playlist::build_vlc_playlist(c.found, true, vec![]).is_none());
}

#[test]
fn conservation_of_counts() {
    let c = tally(&vec![true, false, true, true, false]);
    assert_eq!((c.found, c.error, c.dispatched), (3, 2, 5));
    assert_eq!(c.found + c.error, c.dispatched);
}

#[test]
fn declined_continuation_is_cancelled() {
    assert_eq!(after_answer(3, false), GroupVerdict::Cancelled);
    assert_eq!(after_answer(3, true), GroupVerdict::Proceed);
    assert_eq!(after_answer(0, true), GroupVerdict::NothingFound);
    assert_eq!(exit_status(GroupVerdict::Cancelled), Some(CANCELLED_STATUS));
    assert_eq!(exit_status(GroupVerdict::Proceed), None);
    assert_ne!(NOTHING_FOUND_STATUS, CANCELLED_STATUS);
}

#[test]
fn no_errors_no_question() {
    assert_eq!(prevent_case_nothing_found_or_error(4, 0, true), GroupVerdict::Proceed);
    assert_eq!(prevent_case_nothing_found_or_error(0, 0, true), GroupVerdict::NothingFound);
}

#[test]
fn workers_clamped_to_hardware() {
    assert_eq!(worker_budget(64, 4), 8);
    assert_eq!(worker_budget(3, 4), 3);
    assert_eq!(worker_budget(0, 4), 1);
    assert_eq!(worker_budget(5, 0), 2);
}

#[test]
fn run_summary_splits_duration() {
    let c = tally(&vec![true, false]);
    let s = episode_fetch::pipeline::end_print(3725, &c);
    assert_eq!((s.hours, s.minutes, s.seconds, s.found, s.error), (1, 2, 5, 1, 1));
}
