//! Extraction of a movie or a show from the node table of its page.
//!
//! The site lists seasons, and the episodes of each season, newest first;
//! a parsed show holds them oldest first.

use vstd::prelude::*;
use crate::content::{
    ascending, episodes_carry_number,
    episode_views, season_views, EpisodeView, Episode, Movie, MovieView, Season, SeasonView, Show,
    ShowView,
};
use crate::document::{find_all_spec, find_first_spec, node_attr, own_text_of, text_of, Document, Node, Selector};
use crate::error::Error;
use crate::text::{parse_u32, trim_text, trimmed, u32_of};

verus! {

/// The name of the page's entity: the direct text of the first header,
/// trimmed.
pub open spec fn header_name(nodes: Seq<Node>) -> Result<Seq<char>, Error> {
    match find_first_spec(nodes, None, Selector::Class("watch-header")) {
        None => Err(Error::MissingClass("watch-header")),
        Some(h) => Ok(trimmed(own_text_of(nodes, h as int))),
    }
}

/// The movie that a page describes.
pub open spec fn movie_spec(nodes: Seq<Node>) -> Result<MovieView, Error> {
    match header_name(nodes) {
        Err(e) => Err(e),
        Ok(name) => match find_first_spec(nodes, None, Selector::Class("favorite")) {
            None => Err(Error::MissingClass("favorite")),
            Some(f) => match node_attr(nodes[f as int], "data-pid"@) {
                None => Err(Error::MissingAttr("data-pid")),
                Some(id) => Ok(MovieView { name, link: "/download?id="@ + id }),
            },
        },
    }
}

/// The episode held by element `e` of a season numbered `season`.
pub open spec fn episode_spec(nodes: Seq<Node>, season: u32, e: usize) -> Result<EpisodeView, Error> {
    match find_first_spec(nodes, Some(e), Selector::Attr("itemprop", "episodeNumber")) {
        None => Err(Error::MissingAttr("itemprop::episodeNumber")),
        Some(n) => match u32_of(text_of(nodes, n as int)) {
            None => Err(Error::InvalidNumber),
            Some(number) => match find_first_spec(nodes, Some(e), Selector::Attr("itemprop", "name")) {
                None => Err(Error::MissingAttr("itemprop::name")),
                Some(m) => match find_first_spec(nodes, Some(e), Selector::Class("downloadvid")) {
                    None => Err(Error::MissingClass("downloadvid")),
                    Some(d) => match node_attr(nodes[d as int], "data-href"@) {
                        None => Err(Error::MissingAttr("data-href")),
                        Some(link) => Ok(EpisodeView { season, number, name: text_of(nodes, m as int), link }),
                    },
                },
            },
        },
    }
}

/// The episodes of the listed elements, in the order listed; the first
/// element that fails decides the error.
pub open spec fn episodes_listed(nodes: Seq<Node>, season: u32, idxs: Seq<usize>) -> Result<Seq<EpisodeView>, Error>
    decreases idxs.len(),
{
    if idxs.len() == 0 {
        Ok(Seq::empty())
    } else {
        match episodes_listed(nodes, season, idxs.drop_last()) {
            Err(e) => Err(e),
            Ok(prev) => match episode_spec(nodes, season, idxs.last()) {
                Err(e) => Err(e),
                Ok(ep) => Ok(prev.push(ep)),
            },
        }
    }
}

/// The season held by element `s`, its episodes in the order listed.
pub open spec fn season_listed(nodes: Seq<Node>, s: usize) -> Result<SeasonView, Error> {
    match find_first_spec(nodes, Some(s), Selector::Attr("itemprop", "seasonNumber")) {
        None => Err(Error::MissingAttr("itemprop::seasonNumber")),
        Some(n) => match u32_of(text_of(nodes, n as int)) {
            None => Err(Error::InvalidNumber),
            Some(number) => match episodes_listed(
                nodes,
                number,
                find_all_spec(nodes, Some(s), Selector::Class("eplist")),
            ) {
                Err(e) => Err(e),
                Ok(episodes) => Ok(SeasonView { number, episodes }),
            },
        },
    }
}

/// The seasons of the listed elements, in the order listed.
pub open spec fn seasons_listed(nodes: Seq<Node>, idxs: Seq<usize>) -> Result<Seq<SeasonView>, Error>
    decreases idxs.len(),
{
    if idxs.len() == 0 {
        Ok(Seq::empty())
    } else {
        match seasons_listed(nodes, idxs.drop_last()) {
            Err(e) => Err(e),
            Ok(prev) => match season_listed(nodes, idxs.last()) {
                Err(e) => Err(e),
                Ok(s) => Ok(prev.push(s)),
            },
        }
    }
}

/// The show as the page lists it: seasons and episodes newest first.
pub open spec fn show_listed(nodes: Seq<Node>) -> Result<ShowView, Error> {
    match header_name(nodes) {
        Err(e) => Err(e),
        Ok(name) => match seasons_listed(
            nodes,
            find_all_spec(nodes, None, Selector::Class("section-watch-season")),
        ) {
            Err(e) => Err(e),
            Ok(seasons) => Ok(ShowView { name, seasons }),
        },
    }
}

/// A season with its episodes in reverse order.
pub open spec fn flip_season(s: SeasonView) -> SeasonView {
    SeasonView { number: s.number, episodes: s.episodes.reverse() }
}

/// A show with its seasons, and the episodes of each, in reverse order.
pub open spec fn flip_show(show: ShowView) -> ShowView {
    ShowView { name: show.name, seasons: show.seasons.reverse().map_values(|s: SeasonView| flip_season(s)) }
}

/// The show that a page describes, oldest season and episode first.
pub open spec fn show_spec(nodes: Seq<Node>) -> Result<ShowView, Error> {
    match show_listed(nodes) {
        Err(e) => Err(e),
        Ok(listed) => Ok(flip_show(listed)),
    }
}

proof fn lemma_episodes_err(nodes: Seq<Node>, season: u32, idxs: Seq<usize>, k: int)
    requires
        0 <= k <= idxs.len(),
        episodes_listed(nodes, season, idxs.take(k)) is Err,
    ensures
        episodes_listed(nodes, season, idxs) == episodes_listed(nodes, season, idxs.take(k)),
    decreases idxs.len() - k,
{
    if k < idxs.len() {
        assert(idxs.take(k + 1).drop_last() =~= idxs.take(k));
        lemma_episodes_err(nodes, season, idxs, k + 1);
    } else {
        assert(idxs.take(k) =~= idxs);
    }
}

proof fn lemma_seasons_err(nodes: Seq<Node>, idxs: Seq<usize>, k: int)
    requires
        0 <= k <= idxs.len(),
        seasons_listed(nodes, idxs.take(k)) is Err,
    ensures
        seasons_listed(nodes, idxs) == seasons_listed(nodes, idxs.take(k)),
    decreases idxs.len() - k,
{
    if k < idxs.len() {
        assert(idxs.take(k + 1).drop_last() =~= idxs.take(k));
        lemma_seasons_err(nodes, idxs, k + 1);
    } else {
        assert(idxs.take(k) =~= idxs);
    }
}

/// The items of a vector in reverse order.
fn reversed<T>(v: Vec<T>) -> (r: Vec<T>)
    ensures
        r@ == v@.reverse(),
{
    let mut v = v;
    let ghost orig = v@;
    let mut r: Vec<T> = Vec::new();
    while v.len() > 0
        invariant
            v@ == orig.take(v@.len() as int),
            v@.len() <= orig.len(),
            r@ == orig.skip(v@.len() as int).reverse(),
        decreases v@.len(),
    {
        let ghost n = v@.len();
        let x = v.pop().unwrap();
        r.push(x);
        assert(orig.skip(n - 1).reverse() =~= orig.skip(n as int).reverse().push(x));
        assert(v@ =~= orig.take(v@.len() as int));
    }
    assert(orig.skip(0) =~= orig);
    r
}

/// The name in the page's header.
fn header_name_of(doc: &Document) -> (r: Result<String, Error>)
    ensures
        match r {
            Ok(x) => header_name(doc.nodes@) == Ok::<Seq<char>, Error>(x@),
            Err(e) => header_name(doc.nodes@) == Err::<Seq<char>, Error>(e),
        },
{
    match doc.find_first(None, Selector::Class("watch-header")) {
        None => Err(Error::MissingClass("watch-header")),
        Some(h) => {
            let own = doc.own_text(h);
            Ok(trim_text(own.as_str()))
        },
    }
}

/// Reads a movie from the node table of its page.
pub fn parse_movie(doc: &Document) -> (r: Result<Movie, Error>)
    ensures
        match r {
            Ok(m) => movie_spec(doc.nodes@) == Ok::<MovieView, Error>(m@),
            Err(e) => movie_spec(doc.nodes@) == Err::<MovieView, Error>(e),
        },
{
    let name = match header_name_of(doc) {
        Ok(name) => name,
        Err(e) => return Err(e),
    };
    let f = match doc.find_first(None, Selector::Class("favorite")) {
        Some(f) => f,
        None => return Err(Error::MissingClass("favorite")),
    };
    match doc.attr(f, "data-pid") {
        None => Err(Error::MissingAttr("data-pid")),
        Some(id) => {
            let mut link = String::new();
            link.append("/download?id=");
            link.append(id.as_str());
            Ok(Movie { name, link })
        },
    }
}

/// Reads the episode held by element `e` of the season numbered `season`.
fn parse_episode(doc: &Document, season: u32, e: usize) -> (r: Result<Episode, Error>)
    ensures
        match r {
            Ok(x) => episode_spec(doc.nodes@, season, e) == Ok::<EpisodeView, Error>(x@),
            Err(x) => episode_spec(doc.nodes@, season, e) == Err::<EpisodeView, Error>(x),
        },
{
    let n = match doc.find_first(Some(e), Selector::Attr("itemprop", "episodeNumber")) {
        Some(n) => n,
        None => return Err(Error::MissingAttr("itemprop::episodeNumber")),
    };
    let number_text = doc.text(n);
    let number = match parse_u32(number_text.as_str()) {
        Some(x) => x,
        None => return Err(Error::InvalidNumber),
    };
    let m = match doc.find_first(Some(e), Selector::Attr("itemprop", "name")) {
        Some(m) => m,
        None => return Err(Error::MissingAttr("itemprop::name")),
    };
    let d = match doc.find_first(Some(e), Selector::Class("downloadvid")) {
        Some(d) => d,
        None => return Err(Error::MissingClass("downloadvid")),
    };
    let link = match doc.attr(d, "data-href") {
        Some(l) => l.clone(),
        None => return Err(Error::MissingAttr("data-href")),
    };
    Ok(Episode { season, number, name: doc.text(m), link })
}

/// Reads the season held by element `s`, its episodes oldest first.
fn parse_season(doc: &Document, s: usize) -> (r: Result<Season, Error>)
    ensures
        match r {
            Ok(x) => season_listed(doc.nodes@, s) is Ok && x@ == flip_season(season_listed(doc.nodes@, s)->Ok_0),
            Err(x) => season_listed(doc.nodes@, s) == Err::<SeasonView, Error>(x),
        },
{
    let ghost nodes = doc.nodes@;
    let n = match doc.find_first(Some(s), Selector::Attr("itemprop", "seasonNumber")) {
        Some(n) => n,
        None => return Err(Error::MissingAttr("itemprop::seasonNumber")),
    };
    let number_text = doc.text(n);
    let number = match parse_u32(number_text.as_str()) {
        Some(x) => x,
        None => return Err(Error::InvalidNumber),
    };
    let idxs = doc.find_all(Some(s), Selector::Class("eplist"));
    let mut episodes: Vec<Episode> = Vec::new();
    let mut k: usize = 0;
    assert(idxs@.take(0) =~= Seq::<usize>::empty());
    assert(episode_views(episodes@) =~= Seq::<EpisodeView>::empty());
    while k < idxs.len()
        invariant
            nodes == doc.nodes@,
            idxs@ == find_all_spec(nodes, Some(s), Selector::Class("eplist")),
            find_first_spec(nodes, Some(s), Selector::Attr("itemprop", "seasonNumber")) == Some(n),
            u32_of(text_of(nodes, n as int)) == Some(number),
            0 <= k <= idxs@.len(),
            episodes_listed(nodes, number, idxs@.take(k as int)) == Ok::<Seq<EpisodeView>, Error>(episode_views(episodes@)),
        decreases idxs@.len() - k,
    {
        assert(idxs@.take(k + 1).drop_last() =~= idxs@.take(k as int));
        match parse_episode(doc, number, idxs[k]) {
            Ok(ep) => {
                let ghost prev = episodes@;
                let ghost epv = ep@;
                episodes.push(ep);
                assert(episode_views(episodes@) =~= episode_views(prev).push(epv));
            },
            Err(x) => {
                proof { lemma_episodes_err(nodes, number, idxs@, k + 1); }
                return Err(x);
            },
        }
        k = k + 1;
    }
    assert(idxs@.take(idxs@.len() as int) =~= idxs@);
    let ghost listed = episodes@;
    let episodes = reversed(episodes);
    assert(episode_views(episodes@) =~= episode_views(listed).reverse());
    Ok(Season { number, episodes })
}

/// Reads a show from the node table of its page, oldest season and episode
/// first.
pub fn parse_show(doc: &Document) -> (r: Result<Show, Error>)
    ensures
        match r {
            Ok(x) => show_spec(doc.nodes@) == Ok::<ShowView, Error>(x@),
            Err(e) => show_spec(doc.nodes@) == Err::<ShowView, Error>(e),
        },
{
    let ghost nodes = doc.nodes@;
    let name = match header_name_of(doc) {
        Ok(name) => name,
        Err(e) => return Err(e),
    };
    let idxs = doc.find_all(None, Selector::Class("section-watch-season"));
    let mut seasons: Vec<Season> = Vec::new();
    let mut k: usize = 0;
    assert(idxs@.take(0) =~= Seq::<usize>::empty());
    while k < idxs.len()
        invariant
            nodes == doc.nodes@,
            idxs@ == find_all_spec(nodes, None, Selector::Class("section-watch-season")),
            header_name(nodes) == Ok::<Seq<char>, Error>(name@),
            0 <= k <= idxs@.len(),
            seasons_listed(nodes, idxs@.take(k as int)) is Ok,
            season_views(seasons@) == (seasons_listed(nodes, idxs@.take(k as int))->Ok_0).map_values(
                |s: SeasonView| flip_season(s),
            ),
        decreases idxs@.len() - k,
    {
        assert(idxs@.take(k + 1).drop_last() =~= idxs@.take(k as int));
        match parse_season(doc, idxs[k]) {
            Ok(season) => {
                let ghost prev = seasons@;
                let ghost sv = season@;
                seasons.push(season);
                assert(season_views(seasons@) =~= season_views(prev).push(sv));
                assert(season_views(seasons@) =~= (seasons_listed(nodes, idxs@.take(k + 1))->Ok_0).map_values(
                    |s: SeasonView| flip_season(s),
                ));
            },
            Err(x) => {
                proof { lemma_seasons_err(nodes, idxs@, k + 1); }
                return Err(x);
            },
        }
        k = k + 1;
    }
    assert(idxs@.take(idxs@.len() as int) =~= idxs@);
    let ghost listed = seasons@;
    let seasons = reversed(seasons);
    assert(season_views(seasons@) =~= season_views(listed).reverse());
    assert(season_views(seasons@) =~= (seasons_listed(nodes, idxs@)->Ok_0).reverse().map_values(
        |s: SeasonView| flip_season(s),
    ));
    Ok(Show { name, seasons })
}

/// Seasons strictly descending by number, and episodes strictly descending
/// within each season: the order in which the site lists them.
pub open spec fn descending(show: ShowView) -> bool {
    &&& forall|i: int, j: int|
        0 <= i < j < show.seasons.len() ==> show.seasons[i].number > show.seasons[j].number
    &&& forall|k: int, i: int, j: int|
        0 <= k < show.seasons.len() && 0 <= i < j < show.seasons[k].episodes.len()
            ==> show.seasons[k].episodes[i].number > show.seasons[k].episodes[j].number
}

/// A page without a header gives neither a movie nor a show, only the
/// error that names the header's class.
pub proof fn lemma_missing_header(nodes: Seq<Node>)
    requires
        find_first_spec(nodes, None, Selector::Class("watch-header")) is None,
    ensures
        movie_spec(nodes) == Err::<MovieView, Error>(Error::MissingClass("watch-header")),
        show_spec(nodes) == Err::<ShowView, Error>(Error::MissingClass("watch-header")),
{
}

proof fn lemma_episodes_carry(nodes: Seq<Node>, season: u32, idxs: Seq<usize>)
    requires
        episodes_listed(nodes, season, idxs) is Ok,
    ensures
        forall|j: int| 0 <= j < (episodes_listed(nodes, season, idxs)->Ok_0).len()
            ==> (#[trigger] (episodes_listed(nodes, season, idxs)->Ok_0)[j]).season == season,
    decreases idxs.len(),
{
    if idxs.len() > 0 {
        lemma_episodes_carry(nodes, season, idxs.drop_last());
    }
}

proof fn lemma_seasons_carry(nodes: Seq<Node>, idxs: Seq<usize>)
    requires
        seasons_listed(nodes, idxs) is Ok,
    ensures
        forall|i: int| 0 <= i < (seasons_listed(nodes, idxs)->Ok_0).len()
            ==> episodes_carry_number(#[trigger] (seasons_listed(nodes, idxs)->Ok_0)[i]),
    decreases idxs.len(),
{
    if idxs.len() > 0 {
        lemma_seasons_carry(nodes, idxs.drop_last());
        let s = idxs.last();
        let n = find_first_spec(nodes, Some(s), Selector::Attr("itemprop", "seasonNumber"))->0;
        let number = u32_of(text_of(nodes, n as int))->0;
        lemma_episodes_carry(nodes, number, find_all_spec(nodes, Some(s), Selector::Class("eplist")));
    }
}

/// In a parsed show every episode carries the number of the season that
/// holds it.
pub proof fn lemma_episode_season(nodes: Seq<Node>, show: ShowView)
    requires
        show_spec(nodes) == Ok::<ShowView, Error>(show),
    ensures
        forall|i: int| 0 <= i < show.seasons.len() ==> episodes_carry_number(#[trigger] show.seasons[i]),
{
    let idxs = find_all_spec(nodes, None, Selector::Class("section-watch-season"));
    lemma_seasons_carry(nodes, idxs);
    let listed = seasons_listed(nodes, idxs)->Ok_0;
    assert forall|i: int| 0 <= i < show.seasons.len() implies episodes_carry_number(#[trigger] show.seasons[i]) by {
        let l = listed[listed.len() - 1 - i];
        assert(episodes_carry_number(l));
        assert(show.seasons[i] == flip_season(l));
        assert forall|j: int| 0 <= j < show.seasons[i].episodes.len() implies (#[trigger] show.seasons[i].episodes[j]).season == show.seasons[i].number by {
            assert(show.seasons[i].episodes[j] == l.episodes[l.episodes.len() - 1 - j]);
        }
    }
}

/// A page that lists seasons, and the episodes of each, newest first gives
/// a show that holds them oldest first: seasons strictly ascending by
/// number, and episodes strictly ascending within each season.
pub proof fn lemma_show_ascending(nodes: Seq<Node>, listed: ShowView)
    requires
        show_listed(nodes) == Ok::<ShowView, Error>(listed),
        descending(listed),
    ensures
        show_spec(nodes) == Ok::<ShowView, Error>(flip_show(listed)),
        ascending(flip_show(listed)),
{
    let show = flip_show(listed);
    let n = listed.seasons.len();
    assert forall|i: int, j: int| 0 <= i < j < show.seasons.len() implies show.seasons[i].number < show.seasons[j].number by {
        assert(show.seasons[i].number == listed.seasons[n - 1 - i].number);
        assert(show.seasons[j].number == listed.seasons[n - 1 - j].number);
    }
    assert forall|k: int, i: int, j: int|
        0 <= k < show.seasons.len() && 0 <= i < j < show.seasons[k].episodes.len()
        implies show.seasons[k].episodes[i].number < show.seasons[k].episodes[j].number by {
        let l = listed.seasons[n - 1 - k];
        let m = l.episodes.len();
        assert(show.seasons[k] == flip_season(l));
        assert(show.seasons[k].episodes[i] == l.episodes[m - 1 - i]);
        assert(show.seasons[k].episodes[j] == l.episodes[m - 1 - j]);
    }
}

} // verus!
