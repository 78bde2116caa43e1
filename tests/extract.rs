use flix_dl::{parse_movie, parse_show, same_text, Content, Document, Error};

const SHOW_PAGE: &str = r#"<html><body>
<h1 class="watch-header">  My Show <span>(2020)</span> </h1>
<div class="section-watch-season">
  <span itemprop="seasonNumber">2</span>
  <div class="eplist"><span itemprop="episodeNumber">2</span><span itemprop="name">Finale</span><a class="btn downloadvid" data-href="/dl/s2e2"></a></div>
  <div class="eplist"><span itemprop="episodeNumber">1</span><span itemprop="name">Return</span><a class="downloadvid" data-href="/dl/s2e1"></a></div>
</div>
<div class="section-watch-season">
  <span itemprop="seasonNumber">1</span>
  <div class="eplist"><span itemprop="episodeNumber">2</span><span itemprop="name">Second</span><a class="downloadvid" data-href="/dl/s1e2"></a></div>
  <div class="eplist"><span itemprop="episodeNumber">1</span><span itemprop="name">Pilot</span><a class="downloadvid" data-href="/dl/s1e1"></a></div>
</div>
</body></html>"#;

fn show_page() -> Document {
    Document::parse(SHOW_PAGE)
}

#[test]
fn show_seasons_and_episodes_come_oldest_first() {
    let show = parse_show(&show_page()).unwrap();
    assert_eq!(show.seasons.len(), 2);
    assert_eq!(show.seasons[0].number, 1);
    assert_eq!(show.seasons[1].number, 2);
    for season in &show.seasons {
        assert_eq!(season.episodes.len(), 2);
        assert!(season.episodes[0].number < season.episodes[1].number);
    }
    assert_eq!(show.seasons[0].episodes[0].name, "Pilot");
    assert_eq!(show.seasons[0].episodes[0].link, "/dl/s1e1");
    assert_eq!(show.seasons[1].episodes[1].name, "Finale");
    assert_eq!(show.seasons[1].episodes[1].link, "/dl/s2e2");
}

#[test]
fn episodes_carry_their_season_number() {
    let show = parse_show(&show_page()).unwrap();
    for season in &show.seasons {
        for episode in &season.episodes {
            assert_eq!(episode.season, season.number);
        }
    }
}

#[test]
fn show_name_is_trimmed_direct_text_of_header() {
    let show = parse_show(&show_page()).unwrap();
    assert_eq!(show.name, "My Show");
}

#[test]
fn missing_header_fails_both_parsers() {
    let doc = Document::parse("<html><body><div class=\"favorite\" data-pid=\"42\"></div></body></html>");
    assert_eq!(parse_movie(&doc), Err(Error::MissingClass("watch-header")));
    assert_eq!(parse_show(&doc), Err(Error::MissingClass("watch-header")));
}

#[test]
fn movie_name_and_link_template() {
    let doc = Document::parse(
        "<html><body><h1 class=\"watch-header\">Alpha</h1><div class=\"fav favorite\" data-pid=\"42\"></div></body></html>",
    );
    let movie = parse_movie(&doc).unwrap();
    assert_eq!(movie.name, "Alpha");
    assert_eq!(movie.link, "/download?id=42");
}

#[test]
fn movie_without_favorite_marker() {
    let doc = Document::parse("<html><body><h1 class=\"watch-header\">Alpha</h1></body></html>");
    assert_eq!(parse_movie(&doc), Err(Error::MissingClass("favorite")));
}

#[test]
fn movie_without_content_id() {
    let doc = Document::parse(
        "<html><body><h1 class=\"watch-header\">Alpha</h1><div class=\"favorite\"></div></body></html>",
    );
    assert_eq!(parse_movie(&doc), Err(Error::MissingAttr("data-pid")));
}

#[test]
fn season_number_must_be_numeric() {
    let page = SHOW_PAGE.replacen("<span itemprop=\"seasonNumber\">2</span>", "<span itemprop=\"seasonNumber\">two</span>", 1);
    assert_eq!(parse_show(&Document::parse(&page)), Err(Error::InvalidNumber));
}

#[test]
fn season_number_is_required() {
    let page = SHOW_PAGE.replacen("itemprop=\"seasonNumber\"", "itemprop=\"other\"", 1);
    assert_eq!(parse_show(&Document::parse(&page)), Err(Error::MissingAttr("itemprop::seasonNumber")));
}

#[test]
fn episode_number_is_required() {
    let page = SHOW_PAGE.replacen("itemprop=\"episodeNumber\"", "itemprop=\"other\"", 1);
    assert_eq!(parse_show(&Document::parse(&page)), Err(Error::MissingAttr("itemprop::episodeNumber")));
}

#[test]
fn episode_name_is_required() {
    let page = SHOW_PAGE.replacen("itemprop=\"name\"", "itemprop=\"other\"", 1);
    assert_eq!(parse_show(&Document::parse(&page)), Err(Error::MissingAttr("itemprop::name")));
}

#[test]
fn episode_download_marker_is_required() {
    let page = SHOW_PAGE.replacen("class=\"btn downloadvid\"", "class=\"btn\"", 1);
    assert_eq!(parse_show(&Document::parse(&page)), Err(Error::MissingClass("downloadvid")));
}

#[test]
fn episode_download_link_is_required() {
    let page = SHOW_PAGE.replacen("data-href=\"/dl/s1e1\"", "data-other=\"/dl/s1e1\"", 1);
    assert_eq!(parse_show(&Document::parse(&page)), Err(Error::MissingAttr("data-href")));
}

#[test]
fn show_without_seasons_is_empty() {
    let doc = Document::parse("<html><body><h1 class=\"watch-header\">Empty</h1></body></html>");
    let show = parse_show(&doc).unwrap();
    assert_eq!(show.name, "Empty");
    assert!(show.seasons.is_empty());
}

#[test]
fn find_and_text_on_parsed_page() {
    let doc = show_page();
    let seasons = doc.find_all(None, flix_dl::Selector::Class("section-watch-season"));
    assert_eq!(seasons.len(), 2);
    let number = doc.find_first(Some(seasons[1]), flix_dl::Selector::Attr("itemprop", "seasonNumber")).unwrap();
    assert_eq!(doc.text(number), "1");
    let header = doc.find_first(None, flix_dl::Selector::Class("watch-header")).unwrap();
    assert_eq!(doc.text(header).trim(), "My Show (2020)");
    assert!(doc.own_text(header).contains("My Show"));
    assert!(!doc.own_text(header).contains("2020"));
}

fn season_number_of(text: &str) -> Result<u32, Error> {
    let page = SHOW_PAGE.replacen(
        "<span itemprop=\"seasonNumber\">1</span>",
        &format!("<span itemprop=\"seasonNumber\">{text}</span>"),
        1,
    );
    parse_show(&Document::parse(&page)).map(|show| show.seasons[0].number)
}

#[test]
fn season_numbers_follow_unsigned_parsing() {
    assert_eq!(season_number_of("7"), Ok(7));
    assert_eq!(season_number_of("+7"), Ok(7));
    assert_eq!(season_number_of("4294967295"), Ok(u32::MAX));
    assert_eq!(season_number_of("4294967296"), Err(Error::InvalidNumber));
    assert_eq!(season_number_of(""), Err(Error::InvalidNumber));
    assert_eq!(season_number_of("-1"), Err(Error::InvalidNumber));
    assert_eq!(season_number_of(" 1"), Err(Error::InvalidNumber));
}

#[test]
fn same_text_compares_characters() {
    assert!(same_text("fn", "fn"));
    assert!(!same_text("fn", "fm"));
    assert!(!same_text("fn", "fn2"));
    assert!(same_text("", ""));
}

#[test]
fn error_messages() {
    assert_eq!(Error::MissingClass("favorite").message(), "missing class: favorite");
    assert_eq!(Error::MissingAttr("data-pid").message(), "missing attribute: data-pid");
    assert_eq!(Error::InvalidDownload.message(), "invalid download");
    assert_eq!(Error::InvalidNumber.message(), "invalid number");
    assert_eq!(Error::UnknownLength.message(), "unknown content length");
    assert_eq!(Error::Transfer.message(), "incomplete transfer");
}

#[test]
fn content_of_a_movie_has_one_prefetch_link() {
    let doc = Document::parse(
        "<html><body><h1 class=\"watch-header\">Alpha</h1><div class=\"favorite\" data-pid=\"42\"></div></body></html>",
    );
    let content = Content::Movie(parse_movie(&doc).unwrap());
    assert_eq!(content.prefetch_links(), vec!["/download?id=42".to_string()]);
}
