//! Rows of the result tables and records of the JSON report.
use vstd::prelude::*;
use crate::text::{decimal, usize_text};

verus! {

/// A row of the table of vulnerable URLs.
pub struct VulnData {
    pub index: usize,
    pub url: String,
    pub database: String,
}

/// A row of the table of servers.
pub struct ServerData {
    pub website: String,
    pub server: String,
    pub language: String,
}

/// A row of the table of vulnerable URLs with their servers.
pub struct FullVulnData {
    pub index: usize,
    pub url: String,
    pub database: String,
    pub server: String,
    pub language: String,
}

/// A record of the JSON report.
pub struct JsonVulnData {
    pub url: String,
    pub db: String,
    pub server: String,
    pub lang: String,
}

/// The widest a server or language cell may be.
pub const CELL_WIDTH: usize = 30;

/// How much of a cell that is too wide is kept, before `...`.
pub const CELL_KEPT: usize = 27;

/// `s` when it has at most `CELL_WIDTH` characters; otherwise its first
/// `CELL_KEPT` characters followed by `...`.
pub open spec fn cell_text(s: Seq<char>) -> Seq<char> {
    if s.len() > CELL_WIDTH {
        s.subrange(0, CELL_KEPT as int) + "..."@
    } else {
        s
    }
}

/// Formatting helpers of the console report.
pub struct StdUtils;

impl StdUtils {
    /// A table cell: `s`, cut to `CELL_KEPT` characters and `...` when it
    /// is longer than `CELL_WIDTH`.
    pub fn cell(s: &String) -> (r: String)
        ensures
            r@ == cell_text(s@),
    {
        if s.as_str().unicode_len() > CELL_WIDTH {
            String::from_str(s.as_str().substring_char(0, CELL_KEPT)).concat("...")
        } else {
            s.clone()
        }
    }

    /// The rows of the table of findings, numbered from 1.
    pub fn vuln_rows(data: &Vec<(String, String)>) -> (r: Vec<VulnData>)
        requires
            data@.len() < usize::MAX,
        ensures
            r@.len() == data@.len(),
            forall|i: int|
                0 <= i < r@.len() ==> {
                    &&& (#[trigger] r@[i]).index == i + 1
                    &&& r@[i].url@ == data@[i].0@
                    &&& r@[i].database@ == data@[i].1@
                },
    {
        let mut out: Vec<VulnData> = Vec::new();
        let mut i: usize = 0;
        while i < data.len()
            invariant
                i <= data@.len() < usize::MAX,
                out@.len() == i,
                forall|k: int|
                    0 <= k < i ==> {
                        &&& (#[trigger] out@[k]).index == k + 1
                        &&& out@[k].url@ == data@[k].0@
                        &&& out@[k].database@ == data@[k].1@
                    },
            decreases data@.len() - i,
        {
            out.push(VulnData { index: i + 1, url: data[i].0.clone(), database: data[i].1.clone() });
            i += 1;
        }
        out
    }

    /// The rows of the table of findings with their servers, numbered from
    /// 1, with the server and language cells cut to width.
    pub fn full_rows(data: &Vec<(String, String, String, String)>) -> (r: Vec<FullVulnData>)
        requires
            data@.len() < usize::MAX,
        ensures
            r@.len() == data@.len(),
            forall|i: int|
                0 <= i < r@.len() ==> {
                    &&& (#[trigger] r@[i]).index == i + 1
                    &&& r@[i].url@ == data@[i].0@
                    &&& r@[i].database@ == data@[i].1@
                    &&& r@[i].server@ == cell_text(data@[i].2@)
                    &&& r@[i].language@ == cell_text(data@[i].3@)
                },
    {
        let mut out: Vec<FullVulnData> = Vec::new();
        let mut i: usize = 0;
        while i < data.len()
            invariant
                i <= data@.len() < usize::MAX,
                out@.len() == i,
                forall|k: int|
                    0 <= k < i ==> {
                        &&& (#[trigger] out@[k]).index == k + 1
                        &&& out@[k].url@ == data@[k].0@
                        &&& out@[k].database@ == data@[k].1@
                        &&& out@[k].server@ == cell_text(data@[k].2@)
                        &&& out@[k].language@ == cell_text(data@[k].3@)
                    },
            decreases data@.len() - i,
        {
            let row = &data[i];
            out.push(FullVulnData {
                index: i + 1,
                url: row.0.clone(),
                database: row.1.clone(),
                server: Self::cell(&row.2),
                language: Self::cell(&row.3),
            });
            i += 1;
        }
        out
    }

    /// The records of the JSON report, each keyed by its position from 0
    /// written in decimal.
    pub fn json_records(data: &Vec<(String, String, String, String)>) -> (r: Vec<(String, JsonVulnData)>)
        ensures
            r@.len() == data@.len(),
            forall|i: int|
                0 <= i < r@.len() ==> {
                    &&& (#[trigger] r@[i]).0@ == decimal(i as nat)
                    &&& r@[i].1.url@ == data@[i].0@
                    &&& r@[i].1.db@ == data@[i].1@
                    &&& r@[i].1.server@ == data@[i].2@
                    &&& r@[i].1.lang@ == data@[i].3@
                },
    {
        let mut out: Vec<(String, JsonVulnData)> = Vec::new();
        let mut i: usize = 0;
        while i < data.len()
            invariant
                i <= data@.len(),
                out@.len() == i,
                forall|k: int|
                    0 <= k < i ==> {
                        &&& (#[trigger] out@[k]).0@ == decimal(k as nat)
                        &&& out@[k].1.url@ == data@[k].0@
                        &&& out@[k].1.db@ == data@[k].1@
                        &&& out@[k].1.server@ == data@[k].2@
                        &&& out@[k].1.lang@ == data@[k].3@
                    },
            decreases data@.len() - i,
        {
            let row = &data[i];
            let record = JsonVulnData {
                url: row.0.clone(),
                db: row.1.clone(),
                server: row.2.clone(),
                lang: row.3.clone(),
            };
            out.push((usize_text(i), record));
            i += 1;
        }
        out
    }

    /// The findings joined with the server data of the same position, as
    /// `(url, database, server, language)`; as long as the shorter list.
    pub fn join_server_data(vulnerables: &Vec<(String, String)>, servers: &Vec<ServerData>) -> (r: Vec<(String, String, String, String)>)
        ensures
            r@.len() == if vulnerables@.len() <= servers@.len() { vulnerables@.len() } else { servers@.len() },
            forall|i: int|
                0 <= i < r@.len() ==> {
                    &&& (#[trigger] r@[i]).0@ == vulnerables@[i].0@
                    &&& r@[i].1@ == vulnerables@[i].1@
                    &&& r@[i].2@ == servers@[i].server@
                    &&& r@[i].3@ == servers@[i].language@
                },
    {
        let n = if vulnerables.len() <= servers.len() { vulnerables.len() } else { servers.len() };
        let mut out: Vec<(String, String, String, String)> = Vec::new();
        let mut i: usize = 0;
        while i < n
            invariant
                n <= vulnerables@.len(),
                n <= servers@.len(),
                i <= n,
                out@.len() == i,
                forall|k: int|
                    0 <= k < i ==> {
                        &&& (#[trigger] out@[k]).0@ == vulnerables@[k].0@
                        &&& out@[k].1@ == vulnerables@[k].1@
                        &&& out@[k].2@ == servers@[k].server@
                        &&& out@[k].3@ == servers@[k].language@
                    },
            decreases n - i,
        {
            out.push((
                vulnerables[i].0.clone(),
                vulnerables[i].1.clone(),
                servers[i].server.clone(),
                servers[i].language.clone(),
            ));
            i += 1;
        }
        out
    }
}

} // verus!
