use episode_fetch::crawl::{absolute_url, direct_targets, is_direct_episode, next_control, page_links, relative_url, CrawlStep, Crawler, NextControl};
use episode_fetch::playlist::{build_vlc_playlist, custom_sort_vlc, media_file_name, natural_cmp, season_dir, stem_chars, PlayQueueEntry};
use episode_fetch::text::{contains_text, sanitize_name, staged_file_name, strip_title_suffix};

fn entry(p: &str) -> PlayQueueEntry {
    PlayQueueEntry { path: p.to_string(), category: "vf".to_string() }
}

fn paths(v: &[PlayQueueEntry]) -> Vec<&str> {
    v.iter().map(|e| e.path.as_str()).collect()
}

#[test]
fn sanitize_examples() {
    assert_eq!(sanitize_name("  One Piece: Episode 1  "), "One_Piece_Episode_1");
    assert_eq!(sanitize_name("a\tb"), "a_b");
    assert_eq!(sanitize_name(""), "");
    assert_eq!(sanitize_name(" : "), "");
}

#[test]
fn sanitize_unicode_whitespace() {
    assert_eq!(sanitize_name("\u{a0}\u{a0}"), "");
    assert_eq!(sanitize_name("a\u{a0}b\u{3000}c\u{2009}d"), "a_b_c_d");
    assert_eq!(staged_file_name("\u{a0}Ep\u{a0}1\u{a0}"), "Ep_1.m3u8");
    assert_eq!(season_dir("vf", "One\u{a0}Piece"), "Anime_Download/VF/One_Piece");
}

#[test]
fn sanitize_is_idempotent() {
    for s in ["  One Piece: Episode 1  ", ": a", " :\tb ", "x  y::z", "plain", ":\u{a0}\u{85}x"] {
        let once = sanitize_name(s);
        assert_eq!(sanitize_name(&once), once);
    }
}

#[test]
fn staged_and_media_names() {
    assert_eq!(staged_file_name("Ep 1: Start"), "Ep_1_Start.m3u8");
    assert_eq!(media_file_name("/tmp/dl/Ep 1.m3u8"), "Ep_1.mp4");
    assert_eq!(media_file_name("noext"), "noext.mp4");
    assert_eq!(media_file_name("/tmp/dl/.m3u8"), ".mp4");
    assert_eq!(media_file_name(&staged_file_name("   ")), ".mp4");
    assert_eq!(media_file_name("/tmp/dl/Ep_1.m3u8"), "Ep_1.mp4");
    assert_eq!(media_file_name("a.b.m3u8"), "a.b.mp4");
}

#[test]
fn title_suffix_removed() {
    assert_eq!(strip_title_suffix("Naruto - Site", " - Site"), "Naruto");
    assert_eq!(strip_title_suffix("Naruto", " - Site"), "Naruto");
    assert_eq!(strip_title_suffix("Site", " - Site"), "Site");
}

#[test]
fn season_directory() {
    assert_eq!(season_dir("vostfr", "One Piece"), "Anime_Download/VOSTFR/One_Piece");
}

#[test]
fn stems() {
    assert_eq!(stem_chars("/a/b/ep10.mp4").iter().collect::<String>(), "ep10");
    assert_eq!(stem_chars("ep2").iter().collect::<String>(), "ep2");
    assert_eq!(stem_chars("dir\\x.y.z").iter().collect::<String>(), "x.y");
}

#[test]
fn natural_order_of_names() {
    let c = |a: &str, b: &str| natural_cmp(&a.chars().collect(), &b.chars().collect());
    assert_eq!(c("ep2", "ep10"), -1);
    assert_eq!(c("ep10", "ep2"), 1);
    assert_eq!(c("ep01", "ep1"), 0);
    assert_eq!(c("a", "b"), -1);
    assert_eq!(c("ep", "ep1"), -1);
}

#[test]
fn play_queue_numeric_order() {
    let v = vec![entry("ep2"), entry("ep10"), entry("ep1")];
    assert_eq!(paths(&custom_sort_vlc(&v)), vec!["ep1", "ep2", "ep10"]);
}

#[test]
fn play_queue_sorts_by_stem() {
    let v = vec![entry("/s/Ep_10.mp4"), entry("/s/Ep_9.mp4"), entry("/s/Ep_1.mp4")];
    assert_eq!(paths(&custom_sort_vlc(&v)), vec!["/s/Ep_1.mp4", "/s/Ep_9.mp4", "/s/Ep_10.mp4"]);
}

#[test]
fn play_queue_stable_for_equal_keys() {
    let v = vec![entry("/a/ep1.mp4"), entry("/b/ep01.mp4"), entry("/c/ep0.mp4")];
    assert_eq!(paths(&custom_sort_vlc(&v)), vec!["/c/ep0.mp4", "/a/ep1.mp4", "/b/ep01.mp4"]);
}

#[test]
fn play_queue_only_when_wanted() {
    let v = vec![entry("ep2"), entry("ep1")];
    assert!(build_vlc_playlist(1, true, vec![entry("ep1")]).is_none());
    assert!(build_vlc_playlist(2, false, vec![entry("ep2"), entry("ep1")]).is_none());
    let q = build_vlc_playlist(2, true, v).unwrap();
    assert_eq!(paths(&q), vec!["ep1", "ep2"]);
}

#[test]
fn contains_checks() {
    assert!(contains_text("abc", ""));
    assert!(contains_text("abcdef", "cde"));
    assert!(!contains_text("ab", "abc"));
}

#[test]
fn direct_episode_urls() {
    assert!(is_direct_episode("https://site.test/anime/episode/42-x"));
    assert!(!is_direct_episode("https://site.test/anime/info/42-x"));
    let t = direct_targets("https://site.test/anime/episode/42", "https://site.test").unwrap();
    assert_eq!(t, vec!["/anime/episode/42".to_string()]);
    assert!(direct_targets("https://site.test/anime/info/42", "https://site.test").is_none());
    assert_eq!(relative_url("/x", "https://site.test"), "/x");
    assert_eq!(absolute_url("https://site.test", "/x"), "https://site.test/x");
}

#[test]
fn next_control_states() {
    assert_eq!(next_control(None), NextControl::Absent);
    assert_eq!(next_control(Some("animeps-next-page disabled")), NextControl::Disabled);
    assert_eq!(next_control(Some("animeps-next-page")), NextControl::Enabled);
}

#[test]
fn page_links_fall_back_to_secondary() {
    let p = page_links(vec![Some("a".into()), None, Some("b".into())], vec![Some("z".into())]);
    assert_eq!(p, vec!["a", "b"]);
    let s = page_links(vec![], vec![Some("z".into()), None]);
    assert_eq!(s, vec!["z"]);
}

#[test]
fn crawler_walks_pages_in_order() {
    let mut c = Crawler::new(10);
    assert_eq!(c.visit_page(vec![Some("1".into()), Some("2".into())], vec![], NextControl::Enabled), CrawlStep::Advance);
    assert_eq!(c.visit_page(vec![Some("3".into())], vec![], NextControl::Disabled), CrawlStep::Finished);
    assert_eq!(c.links, vec!["1", "2", "3"]);
    assert!(c.finished);
}

#[test]
fn crawler_single_page_and_ceiling() {
    let mut c = Crawler::new(10);
    assert_eq!(c.visit_page(vec![], vec![Some("x".into())], NextControl::Absent), CrawlStep::Finished);
    assert_eq!(c.links, vec!["x"]);
    let mut d = Crawler::new(2);
    assert_eq!(d.visit_page(vec![Some("a".into())], vec![], NextControl::Enabled), CrawlStep::Advance);
    assert_eq!(d.visit_page(vec![Some("b".into())], vec![], NextControl::Enabled), CrawlStep::Finished);
    assert_eq!(d.pages, 2);
}
