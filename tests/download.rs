use flix_dl::{
    download_file_name, episode_file_name, login_cookie, movie_page_path, parse_movie, parse_show,
    path_segment, plan_fetch, prefetch_wait_secs, season_dir_name, show_page_path, Content, Document,
    Error, FetchAction, Transfer, PREFETCH_COOLDOWN_SECS,
};

const SHOW_PAGE: &str = r#"<html><body>
<h1 class="watch-header">Show: One</h1>
<div class="section-watch-season">
  <span itemprop="seasonNumber">10</span>
  <div class="eplist"><span itemprop="episodeNumber">12</span><span itemprop="name">Late</span><a class="downloadvid" data-href="/dl/b"></a></div>
</div>
<div class="section-watch-season">
  <span itemprop="seasonNumber">1</span>
  <div class="eplist"><span itemprop="episodeNumber">3</span><span itemprop="name">Who?</span><a class="downloadvid" data-href="/dl/a"></a></div>
</div>
</body></html>"#;

#[test]
fn movie_goes_to_its_own_directory() {
    let doc = Document::parse(
        "<html><body><h1 class=\"watch-header\">Alpha</h1><div class=\"favorite\" data-pid=\"42\"></div></body></html>",
    );
    let movie = parse_movie(&doc).unwrap();
    let job = movie.download_job();
    assert_eq!(job.dir, vec!["Alpha".to_string()]);
    assert_eq!(job.link, "/download?id=42");
    assert_eq!(job.file, None);
}

#[test]
fn show_jobs_in_ascending_order() {
    let show = parse_show(&Document::parse(SHOW_PAGE)).unwrap();
    let jobs = show.download_jobs();
    assert_eq!(jobs.len(), 2);
    assert_eq!(jobs[0].link, "/dl/a");
    assert_eq!(jobs[0].dir, vec!["Show_ One".to_string(), "Season 1".to_string()]);
    assert_eq!(jobs[0].file, Some("S01.E03_Who_.mp4".to_string()));
    assert_eq!(jobs[1].link, "/dl/b");
    assert_eq!(jobs[1].dir, vec!["Show_ One".to_string(), "Season 10".to_string()]);
    assert_eq!(jobs[1].file, Some("S10.E12_Late.mp4".to_string()));
    let content = Content::Show(show);
    assert_eq!(content.prefetch_links(), vec!["/dl/a".to_string(), "/dl/b".to_string()]);
    assert_eq!(content.download_jobs(), jobs);
}

#[test]
fn names_of_directories_and_files() {
    assert_eq!(season_dir_name(3), "Season 3");
    assert_eq!(season_dir_name(0), "Season 0");
    assert_eq!(season_dir_name(4294967295), "Season 4294967295");
    let doc = Document::parse(SHOW_PAGE);
    let show = parse_show(&doc).unwrap();
    assert_eq!(episode_file_name(&show.seasons[1].episodes[0]), "S10.E12_Late.mp4");
}

#[test]
fn path_segments_are_made_safe() {
    assert_eq!(path_segment("a/b:c"), "a_b_c");
    assert_eq!(path_segment("x\\y*z?\"<>|"), "x_y_z_____");
    assert_eq!(path_segment("tab\there"), "tab_here");
    assert_eq!(path_segment(".."), "_");
    assert_eq!(path_segment("."), "_");
    assert_eq!(path_segment(""), "_");
    assert_eq!(path_segment("...") , "...");
    assert_eq!(path_segment("Café"), "Café");
}

#[test]
fn page_paths_and_cookie() {
    assert_eq!(movie_page_path(42), "/watch/movie/42");
    assert_eq!(show_page_path(7), "/watch/tv/7");
    assert_eq!(login_cookie("SECRET-REDACTED"), "vipLogin=SECRET-REDACTED");
}

#[test]
fn file_name_from_final_address() {
    assert_eq!(
        download_file_name("https://cdn.example.com/get?id=1&fn=Movie%20One.mp4"),
        Ok("Movie One.mp4".to_string())
    );
    assert_eq!(download_file_name("https://cdn.example.com/get?fn=a%2Fb.mp4&fn=c.mp4"), Ok("a_b.mp4".to_string()));
    assert_eq!(download_file_name("https://cdn.example.com/get?id=1"), Err(Error::InvalidDownload));
    assert_eq!(download_file_name("not an address"), Err(Error::InvalidDownload));
}

#[test]
fn fetch_needs_a_declared_length() {
    assert_eq!(plan_fetch(None, Some(5)), Err(Error::UnknownLength));
    assert_eq!(plan_fetch(None, None), Err(Error::UnknownLength));
}

#[test]
fn complete_file_is_skipped() {
    assert_eq!(plan_fetch(Some(100), Some(100)), Ok(FetchAction::Skip));
    assert_eq!(plan_fetch(Some(0), Some(0)), Ok(FetchAction::Skip));
}

#[test]
fn partial_or_absent_file_is_written_anew() {
    assert_eq!(plan_fetch(Some(100), Some(40)), Ok(FetchAction::Write(100)));
    assert_eq!(plan_fetch(Some(100), Some(140)), Ok(FetchAction::Write(100)));
    assert_eq!(plan_fetch(Some(0), None), Ok(FetchAction::Write(0)));
}

#[test]
fn second_fetch_after_complete_transfer_writes_nothing() {
    let mut t = Transfer::new(10);
    assert_eq!(t.record(4), Ok(()));
    assert_eq!(t.record(6), Ok(()));
    assert_eq!(t.finish(), Ok(()));
    assert_eq!(plan_fetch(Some(t.expected), Some(t.written)), Ok(FetchAction::Skip));
}

#[test]
fn short_transfer_is_an_error() {
    let mut t = Transfer::new(10);
    assert_eq!(t.record(9), Ok(()));
    assert_eq!(t.finish(), Err(Error::Transfer));
}

#[test]
fn overlong_chunk_is_refused() {
    let mut t = Transfer::new(10);
    assert_eq!(t.record(8), Ok(()));
    assert_eq!(t.record(3), Err(Error::Transfer));
    assert_eq!(t.written, 8);
    assert_eq!(t.record(u64::MAX), Err(Error::Transfer));
}

#[test]
fn prefetch_waits_only_without_length() {
    assert_eq!(PREFETCH_COOLDOWN_SECS, 18);
    assert_eq!(prefetch_wait_secs(None), PREFETCH_COOLDOWN_SECS);
    assert_eq!(prefetch_wait_secs(Some(0)), 0);
    assert_eq!(prefetch_wait_secs(Some(123_456)), 0);
}

fn dirs(list: &[&[&str]]) -> Vec<Vec<String>> {
    list.iter().map(|d| d.iter().map(|s| s.to_string()).collect()).collect()
}

#[test]
fn show_plans_its_own_and_every_season_directory() {
    let show = parse_show(&Document::parse(SHOW_PAGE)).unwrap();
    assert_eq!(
        show.download_dirs(),
        dirs(&[&["Show_ One"], &["Show_ One", "Season 1"], &["Show_ One", "Season 10"]])
    );
}

#[test]
fn empty_season_still_gets_its_directory() {
    let page = "<html><body><h1 class=\"watch-header\">Quiet</h1>\
        <div class=\"section-watch-season\"><span itemprop=\"seasonNumber\">3</span></div></body></html>";
    let content = Content::Show(parse_show(&Document::parse(page)).unwrap());
    assert!(content.download_jobs().is_empty());
    assert_eq!(content.download_dirs(), dirs(&[&["Quiet"], &["Quiet", "Season 3"]]));
}

#[test]
fn show_without_seasons_still_gets_its_directory() {
    let page = "<html><body><h1 class=\"watch-header\">Nothing</h1></body></html>";
    let content = Content::Show(parse_show(&Document::parse(page)).unwrap());
    assert_eq!(content.download_dirs(), dirs(&[&["Nothing"]]));
}

#[test]
fn movie_plans_its_directory() {
    let doc = Document::parse(
        "<html><body><h1 class=\"watch-header\">Alpha</h1><div class=\"favorite\" data-pid=\"42\"></div></body></html>",
    );
    let content = Content::Movie(parse_movie(&doc).unwrap());
    assert_eq!(content.download_dirs(), dirs(&[&["Alpha"]]));
}
