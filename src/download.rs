//! The download pipeline's plan and decisions: which files a content tree
//! asks for and where they go, whether a fetch has work to do, when a
//! transfer is complete, and how long a prefetch waits.
//!
//! The transfers themselves, and the waiting, are left to the caller.

use vstd::prelude::*;
use crate::content::{Content, EpisodeView, Movie, MovieView, SeasonView, Show, ShowView};
use crate::error::Error;
use crate::naming::{episode_file_name, episode_file_spec, path_segment, season_dir_name, season_dir_spec, segment_of};
use crate::text::same_text;

verus! {

/// Seconds that a prefetch waits after the server declared no length: the
/// site prepares about twenty files per five minutes.
pub const PREFETCH_COOLDOWN_SECS: u64 = 18;

/// One file to download: its link, the directories (below the base path)
/// that hold it, and its file name, or `None` where the server's final
/// address names the file.
#[derive(Debug, PartialEq, Eq)]
pub struct FetchJob {
    pub link: String,
    pub dir: Vec<String>,
    pub file: Option<String>,
}

pub struct FetchJobView {
    pub link: Seq<char>,
    pub dir: Seq<Seq<char>>,
    pub file: Option<Seq<char>>,
}

impl View for FetchJob {
    type V = FetchJobView;

    open spec fn view(&self) -> FetchJobView {
        FetchJobView {
            link: self.link@,
            dir: self.dir@.map_values(|d: String| d@),
            file: match self.file {
                Some(f) => Some(f@),
                None => None,
            },
        }
    }
}

pub open spec fn job_views(js: Seq<FetchJob>) -> Seq<FetchJobView> {
    js.map_values(|j: FetchJob| j@)
}

/// A movie goes to a directory named after it, under the name the server gives.
pub open spec fn movie_job(m: MovieView) -> FetchJobView {
    FetchJobView { link: m.link, dir: seq![segment_of(m.name)], file: None }
}

/// An episode goes to its season's directory in its show's directory.
pub open spec fn episode_job(show_dir: Seq<char>, season: u32, e: EpisodeView) -> FetchJobView {
    FetchJobView {
        link: e.link,
        dir: seq![show_dir, season_dir_spec(season)],
        file: Some(episode_file_spec(e.season, e.number, e.name)),
    }
}

pub open spec fn season_jobs(show_dir: Seq<char>, s: SeasonView) -> Seq<FetchJobView> {
    s.episodes.map_values(|e: EpisodeView| episode_job(show_dir, s.number, e))
}

/// The jobs of the first `k` seasons, season after season, episode after episode.
pub open spec fn show_jobs_upto(show: ShowView, k: int) -> Seq<FetchJobView>
    decreases k,
{
    if k <= 0 {
        Seq::empty()
    } else {
        show_jobs_upto(show, k - 1) + season_jobs(segment_of(show.name), show.seasons[k - 1])
    }
}

pub open spec fn show_jobs(show: ShowView) -> Seq<FetchJobView> {
    show_jobs_upto(show, show.seasons.len() as int)
}

/// The files a content tree asks for, in the order they are fetched.
pub open spec fn content_jobs(c: &Content) -> Seq<FetchJobView> {
    match c {
        Content::Movie(m) => seq![movie_job(m@)],
        Content::Show(s) => show_jobs(s@),
    }
}

/// The directories of a show: its own, then one per season in order, a
/// season without episodes included.
pub open spec fn show_dirs(show: ShowView) -> Seq<Seq<Seq<char>>> {
    seq![seq![segment_of(show.name)]] + show.seasons.map_values(
        |s: SeasonView| seq![segment_of(show.name), season_dir_spec(s.number)],
    )
}

/// The directories that a content tree creates below the base path, in the
/// order they are created; all of them come before any file.
pub open spec fn content_dirs(c: &Content) -> Seq<Seq<Seq<char>>> {
    match c {
        Content::Movie(m) => seq![seq![segment_of(m@.name)]],
        Content::Show(s) => show_dirs(s@),
    }
}

pub open spec fn dir_views(ds: Seq<Vec<String>>) -> Seq<Seq<Seq<char>>> {
    ds.map_values(|d: Vec<String>| d@.map_values(|x: String| x@))
}

proof fn lemma_show_jobs_upto_in_dirs(show: ShowView, k: int)
    requires
        0 <= k <= show.seasons.len(),
    ensures
        forall|i: int| 0 <= i < show_jobs_upto(show, k).len()
            ==> show_dirs(show).contains(#[trigger] show_jobs_upto(show, k)[i].dir),
    decreases k,
{
    if k > 0 {
        lemma_show_jobs_upto_in_dirs(show, k - 1);
        let prev = show_jobs_upto(show, k - 1);
        let sj = season_jobs(segment_of(show.name), show.seasons[k - 1]);
        let d = seq![segment_of(show.name), season_dir_spec(show.seasons[k - 1].number)];
        assert(show_dirs(show)[k] == d);
        assert forall|i: int| 0 <= i < show_jobs_upto(show, k).len()
            implies show_dirs(show).contains(#[trigger] show_jobs_upto(show, k)[i].dir) by {
            if i < prev.len() {
                assert(show_jobs_upto(show, k)[i] == prev[i]);
            } else {
                assert(show_jobs_upto(show, k)[i] == sj[i - prev.len()]);
                assert(sj[i - prev.len()].dir == d);
            }
        }
    }
}

/// Every file goes to one of the planned directories, so creating those
/// first leaves no file without its folder.
pub proof fn lemma_jobs_in_planned_dirs(c: &Content)
    ensures
        forall|i: int| 0 <= i < content_jobs(c).len()
            ==> content_dirs(c).contains(#[trigger] content_jobs(c)[i].dir),
{
    match c {
        Content::Movie(m) => {
            assert(content_dirs(c)[0] == movie_job(m@).dir);
        },
        Content::Show(s) => {
            lemma_show_jobs_upto_in_dirs(s@, s@.seasons.len() as int);
        },
    }
}

impl Movie {
    /// The one file of a movie.
    pub fn download_job(&self) -> (r: FetchJob)
        ensures
            r@ == movie_job(self@),
    {
        let dir = vec![path_segment(self.name.as_str())];
        let r = FetchJob { link: self.link.clone(), dir, file: None };
        assert(r@.dir =~= movie_job(self@).dir);
        r
    }
}

impl Show {
    /// The files of a show: seasons in order, and episodes in order within each.
    pub fn download_jobs(&self) -> (r: Vec<FetchJob>)
        ensures
            job_views(r@) == show_jobs(self@),
    {
        let show_dir = path_segment(self.name.as_str());
        let mut r: Vec<FetchJob> = Vec::new();
        let mut k: usize = 0;
        assert(job_views(r@) =~= Seq::<FetchJobView>::empty());
        while k < self.seasons.len()
            invariant
                0 <= k <= self.seasons@.len(),
                show_dir@ == segment_of(self@.name),
                job_views(r@) == show_jobs_upto(self@, k as int),
            decreases self.seasons@.len() - k,
        {
            let season = &self.seasons[k];
            let ghost sv = self@.seasons[k as int];
            assert(sv == season@);
            let dir_name = season_dir_name(season.number);
            let ghost base = job_views(r@);
            let mut j: usize = 0;
            assert(base + season_jobs(show_dir@, sv).take(0) =~= base);
            while j < season.episodes.len()
                invariant
                    0 <= j <= season.episodes@.len(),
                    sv == season@,
                    dir_name@ == season_dir_spec(season.number),
                    job_views(r@) == base + season_jobs(show_dir@, sv).take(j as int),
                decreases season.episodes@.len() - j,
            {
                let e = &season.episodes[j];
                let job = FetchJob {
                    link: e.link.clone(),
                    dir: vec![show_dir.clone(), dir_name.clone()],
                    file: Some(episode_file_name(e)),
                };
                let ghost prev = r@;
                assert(job@.dir =~= seq![show_dir@, dir_name@]);
                assert(job@ == episode_job(show_dir@, sv.number, sv.episodes[j as int]));
                r.push(job);
                assert(job_views(r@) =~= job_views(prev).push(job_views(r@).last()));
                assert(job_views(r@) =~= base + season_jobs(show_dir@, sv).take(j + 1));
                j = j + 1;
            }
            assert(season_jobs(show_dir@, sv).take(season.episodes@.len() as int) =~= season_jobs(show_dir@, sv));
            k = k + 1;
        }
        r
    }
}

impl Show {
    /// The directories of a show: its own, then each season's, in order.
    pub fn download_dirs(&self) -> (r: Vec<Vec<String>>)
        ensures
            dir_views(r@) == show_dirs(self@),
    {
        let show_dir = path_segment(self.name.as_str());
        let ghost sd = show_dir@;
        let ghost f = |s: SeasonView| seq![segment_of(self@.name), season_dir_spec(s.number)];
        let mut r: Vec<Vec<String>> = Vec::new();
        let first = vec![show_dir.clone()];
        assert(first@.map_values(|x: String| x@) =~= seq![sd]);
        r.push(first);
        assert(dir_views(r@) =~= seq![seq![sd]] + self@.seasons.take(0).map_values(f));
        let mut k: usize = 0;
        while k < self.seasons.len()
            invariant
                0 <= k <= self.seasons@.len(),
                sd == show_dir@,
                sd == segment_of(self@.name),
                f == (|s: SeasonView| seq![segment_of(self@.name), season_dir_spec(s.number)]),
                dir_views(r@) == seq![seq![sd]] + self@.seasons.take(k as int).map_values(f),
            decreases self.seasons@.len() - k,
        {
            let d = vec![show_dir.clone(), season_dir_name(self.seasons[k].number)];
            let ghost prev = r@;
            assert(d@.map_values(|x: String| x@) =~= f(self@.seasons[k as int]));
            r.push(d);
            assert(dir_views(r@) =~= dir_views(prev).push(f(self@.seasons[k as int])));
            assert(self@.seasons.take(k + 1).map_values(f) =~= self@.seasons.take(k as int).map_values(f).push(
                f(self@.seasons[k as int]),
            ));
            assert(dir_views(r@) =~= seq![seq![sd]] + self@.seasons.take(k + 1).map_values(f));
            k = k + 1;
        }
        assert(self@.seasons.take(self.seasons@.len() as int) =~= self@.seasons);
        r
    }
}

impl Content {
    /// The directories to create before any file is fetched, in order.
    pub fn download_dirs(&self) -> (r: Vec<Vec<String>>)
        ensures
            dir_views(r@) == content_dirs(self),
    {
        match self {
            Content::Movie(m) => {
                let d = vec![path_segment(m.name.as_str())];
                assert(d@.map_values(|x: String| x@) =~= seq![segment_of(m@.name)]);
                let r = vec![d];
                assert(dir_views(r@) =~= content_dirs(self));
                r
            },
            Content::Show(s) => s.download_dirs(),
        }
    }

    /// The files of the content, in the order they are fetched.
    pub fn download_jobs(&self) -> (r: Vec<FetchJob>)
        ensures
            job_views(r@) == content_jobs(self),
    {
        match self {
            Content::Movie(m) => {
                let r = vec![m.download_job()];
                assert(job_views(r@) =~= content_jobs(self));
                r
            },
            Content::Show(s) => s.download_jobs(),
        }
    }

    /// The links to prefetch: one per file, in the order of the downloads.
    pub fn prefetch_links(&self) -> (r: Vec<String>)
        ensures
            r@.map_values(|l: String| l@) == content_jobs(self).map_values(|j: FetchJobView| j.link),
    {
        let jobs = self.download_jobs();
        let mut r: Vec<String> = Vec::new();
        let mut i: usize = 0;
        while i < jobs.len()
            invariant
                0 <= i <= jobs@.len(),
                r@.len() == i,
                job_views(jobs@) == content_jobs(self),
                r@.map_values(|l: String| l@) == job_views(jobs@).take(i as int).map_values(|j: FetchJobView| j.link),
            decreases jobs@.len() - i,
        {
            let ghost prev = r@;
            r.push(jobs[i].link.clone());
            assert forall|j: int| 0 <= j < i + 1 implies #[trigger] r@[j]@ == job_views(jobs@)[j].link by {
                if j < i {
                    assert(r@[j] == prev[j]);
                    assert(prev.map_values(|l: String| l@)[j]
                        == job_views(jobs@).take(i as int).map_values(|x: FetchJobView| x.link)[j]);
                }
            }
            assert(r@.map_values(|l: String| l@) =~= job_views(jobs@).take(i + 1).map_values(|j: FetchJobView| j.link));
            i = i + 1;
        }
        assert(job_views(jobs@).take(jobs@.len() as int) =~= job_views(jobs@));
        r
    }
}

/// The decoded (name, value) pairs of the query of an address, as reqwest's
/// `Url` parses it; `None` where the address does not parse.
pub uninterp spec fn url_query_pairs(url: Seq<char>) -> Option<Seq<(Seq<char>, Seq<char>)>>;

/// Relies on `reqwest::Url::parse` and `Url::query_pairs` (the url crate):
/// the address parsed, then its query split at `&` and `=` and decoded.
#[verifier::external_body]
fn query_pairs(url: &str) -> (r: Option<Vec<(String, String)>>)
    ensures
        match r {
            Some(v) => url_query_pairs(url@) == Some(v@.map_values(|p: (String, String)| (p.0@, p.1@))),
            None => url_query_pairs(url@) is None,
        },
{
    match reqwest::Url::parse(url) {
        Ok(u) => Some(u.query_pairs().map(|(k, v)| (k.into_owned(), v.into_owned())).collect()),
        Err(_) => None,
    }
}

/// The value of the first pair named `name`.
pub open spec fn query_value(pairs: Seq<(Seq<char>, Seq<char>)>, name: Seq<char>) -> Option<Seq<char>>
    decreases pairs.len(),
{
    if pairs.len() == 0 {
        None
    } else if pairs[0].0 == name {
        Some(pairs[0].1)
    } else {
        query_value(pairs.drop_first(), name)
    }
}

/// The file name that a download's final address gives in its `fn`
/// parameter, made safe as a path segment.
pub open spec fn file_name_spec(url: Seq<char>) -> Result<Seq<char>, Error> {
    match url_query_pairs(url) {
        None => Err(Error::InvalidDownload),
        Some(pairs) => match query_value(pairs, "fn"@) {
            None => Err(Error::InvalidDownload),
            Some(v) => Ok(segment_of(v)),
        },
    }
}

/// The name of the file that a download's final address gives.
pub fn download_file_name(url: &str) -> (r: Result<String, Error>)
    ensures
        match r {
            Ok(f) => file_name_spec(url@) == Ok::<Seq<char>, Error>(f@),
            Err(e) => file_name_spec(url@) == Err::<Seq<char>, Error>(e),
        },
{
    let pairs = match query_pairs(url) {
        Some(p) => p,
        None => return Err(Error::InvalidDownload),
    };
    let ghost ps = pairs@.map_values(|p: (String, String)| (p.0@, p.1@));
    let mut k: usize = 0;
    assert(ps.skip(0) =~= ps);
    while k < pairs.len()
        invariant
            0 <= k <= pairs@.len(),
            ps == pairs@.map_values(|p: (String, String)| (p.0@, p.1@)),
            url_query_pairs(url@) == Some(ps),
            query_value(ps, "fn"@) == query_value(ps.skip(k as int), "fn"@),
        decreases pairs@.len() - k,
    {
        assert(ps.skip(k as int).drop_first() =~= ps.skip(k + 1));
        assert(ps.skip(k as int)[0] == (pairs@[k as int].0@, pairs@[k as int].1@));
        if same_text(pairs[k].0.as_str(), "fn") {
            return Ok(path_segment(pairs[k].1.as_str()));
        }
        k = k + 1;
    }
    Err(Error::InvalidDownload)
}

/// What a fetch does once the response has come: nothing, as the file on
/// disk already has the declared length, or write the declared number of bytes.
#[derive(Clone, Copy, Debug, PartialEq, Eq)]
pub enum FetchAction {
    Skip,
    Write(u64),
}

pub open spec fn fetch_plan_spec(declared: Option<u64>, existing: Option<u64>) -> Result<FetchAction, Error> {
    match declared {
        None => Err(Error::UnknownLength),
        Some(t) => if existing == Some(t) {
            Ok(FetchAction::Skip)
        } else {
            Ok(FetchAction::Write(t))
        },
    }
}

/// Decides a fetch from the declared content length and the size of the
/// file already on disk, if there is one. A file is either complete and
/// left alone, or written anew: there is no resumption from an offset.
pub fn plan_fetch(declared: Option<u64>, existing: Option<u64>) -> (r: Result<FetchAction, Error>)
    ensures
        r == fetch_plan_spec(declared, existing),
{
    match declared {
        None => Err(Error::UnknownLength),
        Some(t) => match existing {
            Some(e) => if e == t {
                Ok(FetchAction::Skip)
            } else {
                Ok(FetchAction::Write(t))
            },
            None => Ok(FetchAction::Write(t)),
        },
    }
}

/// The account of one file's transfer: the declared length and the bytes
/// written so far.
#[derive(Clone, Copy, Debug, PartialEq, Eq)]
pub struct Transfer {
    pub expected: u64,
    pub written: u64,
}

impl Transfer {
    /// No more bytes written than declared.
    pub open spec fn wf(&self) -> bool {
        self.written <= self.expected
    }

    pub fn new(expected: u64) -> (r: Transfer)
        ensures
            r.wf(),
            r.expected == expected,
            r.written == 0,
    {
        Transfer { expected, written: 0 }
    }

    /// Counts a chunk of `n` bytes; a chunk that would go past the declared
    /// length is refused and counts nothing.
    pub fn record(&mut self, n: u64) -> (r: Result<(), Error>)
        requires
            old(self).wf(),
        ensures
            final(self).wf(),
            final(self).expected == old(self).expected,
            old(self).written + n <= old(self).expected ==> r is Ok && final(self).written == old(self).written + n,
            old(self).written + n > old(self).expected ==> r == Err::<(), Error>(Error::Transfer) && *final(self) == *old(self),
    {
        if n > self.expected - self.written {
            Err(Error::Transfer)
        } else {
            self.written = self.written + n;
            Ok(())
        }
    }

    /// Whether every declared byte came.
    pub fn finish(&self) -> (r: Result<(), Error>)
        ensures
            r == (if self.written == self.expected { Ok::<(), Error>(()) } else { Err(Error::Transfer) }),
    {
        if self.written == self.expected {
            Ok(())
        } else {
            Err(Error::Transfer)
        }
    }
}

/// After a complete transfer, the file on disk has the declared length, so
/// a second fetch of it writes nothing.
pub proof fn lemma_fetch_idempotent(t: Transfer)
    requires
        t.wf(),
        t.written == t.expected,
    ensures
        fetch_plan_spec(Some(t.expected), Some(t.written)) == Ok::<FetchAction, Error>(FetchAction::Skip),
{
}

/// Seconds to wait after a prefetch: the cooldown where the server declared
/// no length (it is still preparing the file), none where it did.
pub fn prefetch_wait_secs(declared: Option<u64>) -> (r: u64)
    ensures
        declared is None ==> r == PREFETCH_COOLDOWN_SECS,
        declared is Some ==> r == 0,
{
    match declared {
        None => PREFETCH_COOLDOWN_SECS,
        Some(_) => 0,
    }
}

} // verus!
