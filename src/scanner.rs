//! The injection scanner: builds one test URL per payload for each
//! parameterized URL, consumes fetched responses until one is recognized,
//! and gathers findings across batches.
use vstd::prelude::*;
use crate::fingerprint::{Database, SqlErrorChecker, classified, engine_name, full_table};
use crate::searchlibs::{first_occurrences, lemma_first_occurrences, deduplicate_urls};
use crate::text::{views, contains_string};
use crate::text::{push_char, prefix_before, before_first};
use crate::urls::{parse_url, url_parses, url_query, url_text};

verus! {

/// The payloads, in the order they are tried.
pub open spec fn payload_list() -> Seq<Seq<char>> {
    seq![
        "'"@, "')"@, "';"@, "\""@, "\")"@, "\";"@, "`"@, "`)"@, "`;"@, "\\"@, "%27"@, "%%2727"@,
        "%25%27"@, "%60"@, "%5C"@,
    ]
}

/// `query` with `payload` inserted before every `&`: every parameter but the
/// last carries the payload at its end.
pub open spec fn payload_before_separators(query: Seq<char>, payload: Seq<char>) -> Seq<char>
    decreases query.len(),
{
    if query.len() == 0 {
        Seq::empty()
    } else {
        payload_before_separators(query.drop_last(), payload) + if query.last() == '&' {
            payload.push('&')
        } else {
            seq![query.last()]
        }
    }
}

/// `query` with `payload` appended to the value of every `&`-separated
/// parameter, all at once.
pub open spec fn mutated_query(query: Seq<char>, payload: Seq<char>) -> Seq<char> {
    payload_before_separators(query, payload) + payload
}

/// Whether `url` can be scanned: it parses, and has a non-empty query.
pub open spec fn scannable(url: Seq<char>) -> bool {
    url_parses(url) && url_query(url) is Some && url_query(url)->0.len() > 0
}

/// The test URL for `payload`: the normalized `url` up to its query (scheme,
/// user, host, port and path as they are), then its query with the payload
/// appended to every parameter.
pub open spec fn probe_url(url: Seq<char>, payload: Seq<char>) -> Seq<char> {
    before_first(url_text(url), '?') + "?"@ + mutated_query(url_query(url)->0, payload)
}

/// The test URLs of `url`, one per payload in order; none when `url`
/// cannot be scanned.
pub open spec fn probe_urls(url: Seq<char>, payloads: Seq<Seq<char>>) -> Seq<Seq<char>> {
    if scannable(url) {
        payloads.map_values(|p: Seq<char>| probe_url(url, p))
    } else {
        Seq::empty()
    }
}

/// `query` with `payload` appended to every parameter.
pub fn mutate_query(query: &str, payload: &str) -> (r: String)
    ensures
        r@ == mutated_query(query@, payload@),
{
    let n = query.unicode_len();
    let mut out = String::new();
    let mut i: usize = 0;
    while i < n
        invariant
            n == query@.len(),
            i <= n,
            out@ == payload_before_separators(query@.subrange(0, i as int), payload@),
        decreases n - i,
    {
        let c = query.get_char(i);
        let ghost prefix = query@.subrange(0, i as int + 1);
        assert(prefix.drop_last() =~= query@.subrange(0, i as int));
        if c == '&' {
            out.append(payload);
        }
        push_char(&mut out, c);
        assert(out@ =~= payload_before_separators(prefix, payload@));
        i += 1;
    }
    assert(query@.subrange(0, n as int) =~= query@);
    out.append(payload);
    out
}

/// Relies on num_cpus::get: the number of logical CPUs available, which
/// is at least 1.
#[verifier::external_body]
fn available_parallelism() -> (r: usize)
    ensures
        r >= 1,
{
    num_cpus::get()
}

/// The scanner: the signature table and the ordered payloads.
pub struct SqlInjectionScanner {
    error_checker: SqlErrorChecker,
    payloads: Vec<&'static str>,
}

impl SqlInjectionScanner {
    /// The payloads this scanner tries, in order.
    pub closed spec fn payloads(&self) -> Seq<Seq<char>> {
        self.payloads@.map_values(|p: &'static str| p@)
    }

    /// The signature table this scanner classifies with.
    pub closed spec fn table(&self) -> Seq<(Database, Seq<Seq<char>>)> {
        self.error_checker@
    }

    pub fn new() -> (r: Self)
        ensures
            r.payloads() == payload_list(),
            r.table() == full_table(),
    {
        let payloads: Vec<&'static str> = vec![
            "'", "')", "';", "\"", "\")", "\";", "`", "`)", "`;", "\\", "%27", "%%2727", "%25%27",
            "%60", "%5C",
        ];
        let r = SqlInjectionScanner { error_checker: SqlErrorChecker::new(), payloads };
        assert(r.payloads() =~= payload_list());
        r
    }

    /// The signature table, shared by every task of a scan.
    pub fn checker(&self) -> (r: &SqlErrorChecker)
        ensures
            r@ == self.table(),
    {
        &self.error_checker
    }

    /// The test URLs of `url`, one per payload in order; none when `url`
    /// does not parse or has an empty query.
    pub fn probe_urls(&self, url: &str) -> (r: Vec<String>)
        ensures
            views(r@) == probe_urls(url@, self.payloads()),
    {
        let mut out: Vec<String> = Vec::new();
        let parsed = match parse_url(url) {
            Some(p) => p,
            None => {
                assert(views(out@) =~= probe_urls(url@, self.payloads()));
                return out;
            },
        };
        let query = match parsed.query {
            Some(q) => q,
            None => {
                assert(views(out@) =~= probe_urls(url@, self.payloads()));
                return out;
            },
        };
        if query.as_str().unicode_len() == 0 {
            assert(views(out@) =~= probe_urls(url@, self.payloads()));
            return out;
        }
        let mut base = prefix_before(parsed.text.as_str(), '?');
        base.append("?");
        let mut i: usize = 0;
        while i < self.payloads.len()
            invariant
                i <= self.payloads@.len(),
                scannable(url@),
                query@ == url_query(url@)->0,
                base@ == before_first(url_text(url@), '?') + "?"@,
                views(out@) == self.payloads().subrange(0, i as int).map_values(
                    |p: Seq<char>| probe_url(url@, p),
                ),
            decreases self.payloads@.len() - i,
        {
            let m = mutate_query(query.as_str(), self.payloads[i]);
            let probe = base.clone().concat(m.as_str());
            assert(self.payloads()[i as int] == self.payloads@[i as int]@);
            assert(probe@ == probe_url(url@, self.payloads()[i as int]));
            let ghost before = views(out@);
            out.push(probe);
            assert(views(out@) =~= before.push(probe@));
            assert(views(out@) =~= self.payloads().subrange(0, i as int + 1).map_values(
                |p: Seq<char>| probe_url(url@, p),
            ));
            i += 1;
        }
        assert(self.payloads().subrange(0, i as int) =~= self.payloads());
        out
    }

    /// A fresh task for `url`: nothing fetched yet, nothing found.
    pub fn start(&self, url: &str) -> (r: ScanTask)
        ensures
            r.wf(),
            r.url() == url@,
            r.probes() == probe_urls(url@, self.payloads()),
            r.issued() == 0,
            r.finding() is None,
    {
        ScanTask { url: String::from_str(url), probes: self.probe_urls(url), cursor: 0, finding: None }
    }

    /// How many tasks one batch dispatches together on this machine: twice
    /// its parallelism.
    pub fn max_concurrent() -> (r: usize)
        ensures
            r >= 2,
    {
        Self::batch_size(available_parallelism())
    }

    /// How many tasks one batch dispatches together: twice the parallelism
    /// `cpus` of the machine, at least one.
    pub fn batch_size(cpus: usize) -> (r: usize)
        ensures
            r >= 1,
            cpus >= 1 ==> r >= 2,
            cpus >= 1 && cpus <= usize::MAX / 2 ==> r == 2 * cpus,
    {
        if cpus == 0 {
            1
        } else if cpus > usize::MAX / 2 {
            usize::MAX
        } else {
            2 * cpus
        }
    }
}

/// The scan of one URL: its test URLs in payload order, how many of them
/// have been handed out for fetching, and the engine recognized, if any.
pub struct ScanTask {
    url: String,
    probes: Vec<String>,
    cursor: usize,
    finding: Option<Database>,
}

impl ScanTask {
    pub closed spec fn url(&self) -> Seq<char> {
        self.url@
    }

    pub closed spec fn probes(&self) -> Seq<Seq<char>> {
        views(self.probes@)
    }

    /// How many test URLs have been handed out for fetching.
    pub closed spec fn issued(&self) -> nat {
        self.cursor as nat
    }

    pub closed spec fn finding(&self) -> Option<Database> {
        self.finding
    }

    pub closed spec fn wf(&self) -> bool {
        self.cursor <= self.probes@.len()
    }

    /// The next test URL to fetch; `None` once an engine is recognized or
    /// every payload has been handed out.
    pub fn next_probe(&mut self) -> (r: Option<String>)
        requires
            old(self).wf(),
        ensures
            final(self).wf(),
            final(self).url() == old(self).url(),
            final(self).probes() == old(self).probes(),
            final(self).finding() == old(self).finding(),
            old(self).finding() is None && old(self).issued() < old(self).probes().len() ==> {
                &&& r matches Some(u) && u@ == old(self).probes()[old(self).issued() as int]
                &&& final(self).issued() == old(self).issued() + 1
            },
            !(old(self).finding() is None && old(self).issued() < old(self).probes().len()) ==> {
                &&& r is None
                &&& final(self).issued() == old(self).issued()
            },
    {
        if self.finding.is_none() && self.cursor < self.probes.len() {
            let u = self.probes[self.cursor].clone();
            self.cursor = self.cursor + 1;
            Some(u)
        } else {
            None
        }
    }

    /// Takes in the body of a fetched test URL: unless an engine is
    /// already recognized, the body is classified against `checker`.
    pub fn observe(&mut self, checker: &SqlErrorChecker, body: &str)
        requires
            old(self).wf(),
        ensures
            final(self).wf(),
            final(self).url() == old(self).url(),
            final(self).probes() == old(self).probes(),
            final(self).issued() == old(self).issued(),
            old(self).finding() is Some ==> final(self).finding() == old(self).finding(),
            old(self).finding() is None ==> classified(checker@, body@, final(self).finding()),
    {
        if self.finding.is_none() {
            self.finding = checker.classify(body);
        }
    }

    /// Whether the task has nothing more to fetch.
    pub fn is_done(&self) -> (r: bool)
        ensures
            r == (self.finding() is Some || self.issued() >= self.probes().len()),
    {
        self.finding.is_some() || self.cursor >= self.probes.len()
    }

    /// The finding of the task: its URL and the recognized engine's name.
    pub fn result(&self) -> (r: Option<(String, String)>)
        ensures
            r is Some <==> self.finding() is Some,
            r matches Some(f) ==> f.0@ == self.url() && f.1@ == engine_name(self.finding()->0),
    {
        match self.finding {
            Some(db) => Some((self.url.clone(), String::from_str(db.name()))),
            None => None,
        }
    }
}

/// `url` as given when it parses, else with `http://` put in front when that
/// parses.
pub open spec fn target_source(url: Seq<char>) -> Option<Seq<char>> {
    if url_parses(url) {
        Some(url)
    } else if url_parses("http://"@ + url) {
        Some("http://"@ + url)
    } else {
        None
    }
}

/// The URL a single scan works on: `url` parsed, or parsed again with
/// `http://` in front when it does not parse; `None` when neither parses.
/// The flag tells whether the URL has a non-empty query, so that it can be
/// scanned directly before crawling.
pub fn scan_target(url: &str) -> (r: Option<(String, bool)>)
    ensures
        match target_source(url@) {
            Some(s) => r matches Some(t) && t.0@ == url_text(s) && t.1 == (url_query(s) matches Some(q)
                && q.len() > 0),
            None => r is None,
        },
{
    let parsed = match parse_url(url) {
        Some(p) => p,
        None => {
            let prefixed = String::from_str("http://").concat(url);
            match parse_url(prefixed.as_str()) {
                Some(p) => p,
                None => return None,
            }
        },
    };
    let has_query = match &parsed.query {
        Some(q) => q.as_str().unicode_len() > 0,
        None => false,
    };
    Some((parsed.text, has_query))
}

/// The concatenation of `parts`, in order.
pub open spec fn concat_all(parts: Seq<Seq<Seq<char>>>) -> Seq<Seq<char>>
    decreases parts.len(),
{
    if parts.len() == 0 {
        Seq::empty()
    } else {
        concat_all(parts.drop_last()) + parts.last()
    }
}

/// The URLs of a list of findings.
pub open spec fn finding_urls(results: Seq<(String, String)>) -> Seq<Seq<char>> {
    results.map_values(|f: (String, String)| f.0@)
}

/// A scan of a list of URLs: the distinct URLs to scan, in input order, and
/// the findings gathered so far, at most one per URL.
pub struct ScanSession {
    inputs: Ghost<Seq<Seq<char>>>,
    targets: Vec<String>,
    results: Vec<(String, String)>,
}

impl ScanSession {
    /// The URL list the session was made from.
    pub closed spec fn inputs(&self) -> Seq<Seq<char>> {
        self.inputs@
    }

    /// The URLs to scan: the inputs, each at its first occurrence.
    pub closed spec fn targets(&self) -> Seq<Seq<char>> {
        views(self.targets@)
    }

    /// The findings so far, in the order they were recorded.
    pub closed spec fn findings(&self) -> Seq<(String, String)> {
        self.results@
    }

    pub closed spec fn wf(&self) -> bool {
        &&& self.targets() == first_occurrences(self.inputs())
        &&& finding_urls(self.results@).no_duplicates()
        &&& forall|k: int|
            0 <= k < self.results@.len() ==> self.targets().contains(#[trigger] self.results@[k].0@)
    }

    pub fn new(urls: Vec<String>) -> (r: Self)
        ensures
            r.wf(),
            r.inputs() == views(urls@),
            r.targets() == first_occurrences(r.inputs()),
            r.findings().len() == 0,
    {
        let ghost inputs = views(urls@);
        let targets = deduplicate_urls(urls);
        let r = ScanSession { inputs: Ghost(inputs), targets, results: Vec::new() };
        assert(finding_urls(r.results@) =~= Seq::<Seq<char>>::empty());
        r
    }

    /// The targets split into consecutive batches of `size` URLs; the last
    /// batch holds the rest.
    pub fn batches(&self, size: usize) -> (r: Vec<Vec<String>>)
        requires
            size >= 1,
        ensures
            concat_all(r@.map_values(|b: Vec<String>| views(b@))) == self.targets(),
            forall|b: int| 0 <= b < r@.len() ==> 1 <= (#[trigger] r@[b])@.len() <= size,
            forall|b: int| 0 <= b < r@.len() - 1 ==> (#[trigger] r@[b])@.len() == size,
    {
        let n = self.targets.len();
        let mut out: Vec<Vec<String>> = Vec::new();
        let mut i: usize = 0;
        while i < n
            invariant
                n == self.targets@.len(),
                i <= n,
                concat_all(out@.map_values(|b: Vec<String>| views(b@))) == self.targets().subrange(0, i as int),
                forall|b: int| 0 <= b < out@.len() ==> 1 <= (#[trigger] out@[b])@.len() <= size,
                size >= 1,
                i < n ==> forall|b: int| 0 <= b < out@.len() ==> (#[trigger] out@[b])@.len() == size,
                forall|b: int| 0 <= b < out@.len() - 1 ==> (#[trigger] out@[b])@.len() == size,
            decreases n - i,
        {
            let end = if n - i > size { i + size } else { n };
            let mut batch: Vec<String> = Vec::new();
            let mut j: usize = i;
            while j < end
                invariant
                    n == self.targets@.len(),
                    i <= j <= end <= n,
                    i < end,
                    end - i <= size,
                    end == n || end - i == size,
                    views(batch@) == self.targets().subrange(i as int, j as int),
                decreases end - j,
            {
                let ghost before = views(batch@);
                batch.push(self.targets[j].clone());
                assert(self.targets()[j as int] == self.targets@[j as int]@);
                assert(views(batch@) =~= before.push(self.targets()[j as int]));
                assert(views(batch@) =~= self.targets().subrange(i as int, j as int + 1));
                j += 1;
            }
            let ghost before = out@.map_values(|b: Vec<String>| views(b@));
            out.push(batch);
            assert(out@.map_values(|b: Vec<String>| views(b@)).drop_last() =~= before);
            assert(self.targets().subrange(0, end as int) =~= self.targets().subrange(0, i as int)
                + self.targets().subrange(i as int, end as int));
            i = end;
        }
        assert(self.targets().subrange(0, n as int) =~= self.targets());
        out
    }

    /// Records the finding of `task`, if it has one, unless its URL is not
    /// a target of this session or already has a finding.
    pub fn record(&mut self, task: &ScanTask)
        requires
            old(self).wf(),
        ensures
            final(self).wf(),
            final(self).inputs() == old(self).inputs(),
            task.finding() is Some && old(self).targets().contains(task.url())
                && !finding_urls(old(self).findings()).contains(task.url()) ==> {
                &&& final(self).findings().len() == old(self).findings().len() + 1
                &&& final(self).findings().drop_last() == old(self).findings()
                &&& final(self).findings().last().0@ == task.url()
                &&& final(self).findings().last().1@ == engine_name(task.finding()->0)
            },
            !(task.finding() is Some && old(self).targets().contains(task.url())
                && !finding_urls(old(self).findings()).contains(task.url()))
                ==> final(self).findings() == old(self).findings(),
    {
        let found = match task.result() {
            Some(f) => f,
            None => return,
        };
        if !contains_string(&self.targets, &found.0) {
            return;
        }
        let mut k: usize = 0;
        while k < self.results.len()
            invariant
                k <= self.results@.len(),
                self.wf(),
                *self == *old(self),
                found.0@ == task.url(),
                forall|m: int| 0 <= m < k ==> self.results@[m].0@ != found.0@,
            decreases self.results@.len() - k,
        {
            if self.results[k].0 == found.0 {
                assert(finding_urls(self.results@)[k as int] == found.0@);
                return;
            }
            k += 1;
        }
        let ghost before = self.results@;
        assert(!finding_urls(before).contains(found.0@));
        self.results.push(found);
        assert(self.results@.drop_last() =~= before);
        assert(finding_urls(self.results@) =~= finding_urls(before).push(found.0@));
        assert forall|k: int|
            0 <= k < self.results@.len() implies self.targets().contains(#[trigger] self.results@[k].0@) by {
            if k < before.len() {
                assert(self.results@[k] == before[k]);
            }
        }
    }

    /// The findings gathered: at most one per distinct input URL.
    pub fn into_results(self) -> (r: Vec<(String, String)>)
        ensures
            r@ == self.findings(),
    {
        self.results
    }
}

/// The findings of a scan name distinct URLs, each one of the input URLs.
pub proof fn lemma_scan_output(s: ScanSession)
    requires
        s.wf(),
    ensures
        finding_urls(s.findings()).no_duplicates(),
        forall|k: int| 0 <= k < s.findings().len() ==> s.inputs().contains(#[trigger] s.findings()[k].0@),
{
    lemma_first_occurrences(s.inputs());
    assert forall|k: int| 0 <= k < s.findings().len() implies s.inputs().contains(#[trigger] s.findings()[k].0@) by {
        assert(s.targets().contains(s.results@[k].0@));
    }
}

/// A task never hands out more test URLs than there are payloads, and none
/// for a URL that cannot be scanned.
pub proof fn lemma_fetch_budget(task: ScanTask, payloads: Seq<Seq<char>>)
    requires
        task.wf(),
        task.probes() == probe_urls(task.url(), payloads),
    ensures
        task.issued() <= payloads.len(),
        !scannable(task.url()) ==> task.issued() == 0,
{
    assert(task.probes().len() == task.probes@.len());
    if scannable(task.url()) {
        assert(probe_urls(task.url(), payloads).len() == payloads.len());
    }
}

} // verus!
